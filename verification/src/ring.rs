//! The ring: a handle that is grabbed to be handed to a tracked input, and
//! that follows that input from then on.
//!
//! The ring is idle or attached to one input method. Releasing the grab next
//! to a hand or a controller asks for that input's capture; grabbing the ring
//! again gives the capture up.

use crate::algebra::{lemma_distribute_three, lemma_square_of_opposite, lemma_square_of_successor};
use crate::fixed::{div_toward_zero, lemma_div_toward_zero_between, size, COORD_LIMIT, UNIT};
use crate::unit::{lemma_scaled_coordinate, nearly_unit};
use crate::vec3::{squared_length, Direction, Point, Vec3, Vector};
use vstd::prelude::*;

verus! {

/// How close to the ring an input must be to take it: five centimetres.
pub const ATTACH_RANGE: i64 = 50_000;

/// How far in front of a controller's origin its grip point lies: five
/// centimetres.
pub const TIP_OFFSET: i64 = 50_000;

/// What kind of input an event comes from, with the landmarks that the ring
/// looks at.
#[derive(Clone, Copy, Debug, PartialEq, Eq, Structural)]
pub enum InputKind {
    /// A pointer: a ray from afar, which never holds the ring.
    Pointer,
    /// A controller: its origin and its forward axis, a unit vector up to
    /// rounding, along which its grip lies.
    Tip { origin: Vec3, forward: Direction },
    /// A hand: its wrist.
    Hand { wrist: Vec3 },
}

/// One tracked input source, as seen this frame.
#[derive(Clone, Copy, Debug, PartialEq, Eq, Structural)]
pub struct InputEvent {
    /// The identity of the input method behind the event.
    pub method: u64,
    /// The distance that the device reports; the lower, the nearer.
    pub distance: i64,
    pub kind: InputKind,
}

/// The state of the grab gesture on the ring this frame.
#[derive(Clone, Copy, Debug, PartialEq, Eq, Structural)]
pub struct GrabGesture {
    /// The grab began this frame.
    pub started: bool,
    /// The ring is being held.
    pub acting: bool,
    /// The grab ended this frame.
    pub stopped: bool,
}

/// What the ring asks of its surroundings after a frame.
#[derive(Clone, Copy, Debug, PartialEq, Eq, Structural)]
pub struct RingPlan {
    /// The input method whose capture is to be released, if any.
    pub release: Option<u64>,
    /// The index of the nearest input that could take the ring, if any.
    pub nearest: Option<usize>,
    /// Where the preview line from the ring ends; `None` clears the line.
    pub preview: Option<Point>,
    /// Whether the capture of the nearest input is to be tried now.
    pub attach: bool,
}

/// The position that the ring takes up when it follows an input.
#[derive(Clone, Copy, Debug, PartialEq, Eq, Structural)]
pub struct Follow {
    /// The index of the input that the ring is attached to.
    pub input: usize,
    /// Where that input holds the ring.
    pub position: Point,
}

/// The point at which an input holds the ring: a hand at its wrist, a
/// controller `TIP_OFFSET` along its forward axis, a pointer nowhere but the
/// origin.
///
/// The controller's offset is as long as `TIP_OFFSET` says where its axis is
/// a unit vector up to rounding; along any other axis it is as much longer
/// or shorter as the axis is.
pub open spec fn grip_point(kind: InputKind) -> Vector {
    match kind {
        InputKind::Pointer => Vector { x: 0, y: 0, z: 0 },
        InputKind::Tip { origin, forward } => Vector {
            x: origin@.x + div_toward_zero(forward@.x * TIP_OFFSET, UNIT as int),
            y: origin@.y + div_toward_zero(forward@.y * TIP_OFFSET, UNIT as int),
            z: origin@.z + div_toward_zero(forward@.z * TIP_OFFSET, UNIT as int),
        },
        InputKind::Hand { wrist } => wrist@,
    }
}

/// Whether an input could take a ring whose handle is at `handle`: it is no
/// pointer, and its grip point is less than `ATTACH_RANGE` away.
pub open spec fn qualifies(handle: Vector, input: InputEvent) -> bool {
    &&& input.kind !is Pointer
    &&& handle.dist_sq(grip_point(input.kind)) < ATTACH_RANGE * ATTACH_RANGE
}

/// Whether input `i` is the one to attach to: it qualifies, no qualifying
/// input reports a lower distance, and each one before it reports a higher.
pub open spec fn is_nearest(handle: Vector, inputs: Seq<InputEvent>, i: int) -> bool {
    &&& 0 <= i < inputs.len()
    &&& qualifies(handle, inputs[i])
    &&& forall|j: int|
        0 <= j < inputs.len() && qualifies(handle, #[trigger] inputs[j]) ==> {
            &&& inputs[i].distance <= inputs[j].distance
            &&& j < i ==> inputs[i].distance < inputs[j].distance
        }
}

/// Whether no input qualifies.
pub open spec fn none_qualifies(handle: Vector, inputs: Seq<InputEvent>) -> bool {
    forall|j: int| 0 <= j < inputs.len() ==> !qualifies(handle, #[trigger] inputs[j])
}

/// Whether input `i` is the first that comes from `method`.
pub open spec fn is_first_from(inputs: Seq<InputEvent>, method: u64, i: int) -> bool {
    &&& 0 <= i < inputs.len()
    &&& inputs[i].method == method
    &&& forall|j: int| 0 <= j < i ==> (#[trigger] inputs[j]).method != method
}

/// Whether no input comes from `method`.
pub open spec fn none_from(inputs: Seq<InputEvent>, method: u64) -> bool {
    forall|j: int| 0 <= j < inputs.len() ==> (#[trigger] inputs[j]).method != method
}

/// At most one input is the one to attach to.
pub proof fn lemma_nearest_unique(handle: Vector, inputs: Seq<InputEvent>, i: int, j: int)
    requires
        is_nearest(handle, inputs, i),
        is_nearest(handle, inputs, j),
    ensures
        i == j,
{
}

/// A pointer never takes the ring, wherever it is.
pub proof fn lemma_pointer_never_nearest(handle: Vector, inputs: Seq<InputEvent>, i: int)
    requires
        0 <= i < inputs.len(),
        inputs[i].kind is Pointer,
    ensures
        !is_nearest(handle, inputs, i),
{
}

/// A controller whose axis is a unit vector up to rounding holds the ring
/// `TIP_OFFSET` from its origin, to within four micrometres.
pub proof fn lemma_grip_is_offset(origin: Vec3, forward: Direction)
    requires
        nearly_unit(forward@),
    ensures
        ({
            let gap = grip_point(InputKind::Tip { origin, forward }).dist_sq(origin@);
            (TIP_OFFSET - 4) * (TIP_OFFSET - 4) < gap < (TIP_OFFSET + 1) * (TIP_OFFSET + 1)
        }),
{
    let f = forward@;
    let k = TIP_OFFSET as int;
    let len = UNIT as int;
    let o = Vector {
        x: div_toward_zero(f.x * k, len),
        y: div_toward_zero(f.y * k, len),
        z: div_toward_zero(f.z * k, len),
    };
    assert(grip_point(InputKind::Tip { origin, forward }).minus(origin@) == o);
    lemma_div_toward_zero_between(f.x * k, len, -k, k);
    lemma_div_toward_zero_between(f.y * k, len, -k, k);
    lemma_div_toward_zero_between(f.z * k, len, -k, k);
    lemma_scaled_coordinate(f.x, k, len);
    lemma_scaled_coordinate(f.y, k, len);
    lemma_scaled_coordinate(f.z, k, len);
    let sx = (size(o.x) + 1) * (size(o.x) + 1);
    let sy = (size(o.y) + 1) * (size(o.y) + 1);
    let sz = (size(o.z) + 1) * (size(o.z) + 1);
    lemma_distribute_three(o.x * o.x, o.y * o.y, o.z * o.z, len * len);
    lemma_distribute_three(f.x * f.x, f.y * f.y, f.z * f.z, k * k);
    lemma_distribute_three(sx, sy, sz, len * len);
    lemma_square_of_successor(size(o.x));
    lemma_square_of_successor(size(o.y));
    lemma_square_of_successor(size(o.z));
    lemma_square_of_opposite(o.x);
    lemma_square_of_opposite(o.y);
    lemma_square_of_opposite(o.z);
    assert(len * len == 1_000_000_000_000 && k * k == 2_500_000_000) by (nonlinear_arith)
        requires
            len == 1_000_000,
            k == 50_000,
    ;
    assert((UNIT - 4) * (UNIT - 4) == 999_992_000_016 && (UNIT + 1) * (UNIT + 1)
        == 1_000_002_000_001) by (nonlinear_arith)
        requires
            UNIT == 1_000_000,
    ;
    assert((TIP_OFFSET - 4) * (TIP_OFFSET - 4) == 2_499_600_016 && (TIP_OFFSET + 1) * (TIP_OFFSET
        + 1) == 2_500_100_001) by (nonlinear_arith)
        requires
            TIP_OFFSET == 50_000,
    ;
}

/// Computes the point at which an input holds the ring.
pub fn grip(kind: &InputKind) -> (r: Point)
    ensures
        r@ == grip_point(*kind),
        r@.within(COORD_LIMIT + TIP_OFFSET),
{
    match kind {
        InputKind::Pointer => Point { x: 0, y: 0, z: 0 },
        InputKind::Tip { origin, forward } => {
            let (ox, oy, oz) = origin.components();
            let (fx, fy, fz) = forward.components();
            let sx: i64 = fx * TIP_OFFSET / UNIT;
            let sy: i64 = fy * TIP_OFFSET / UNIT;
            let sz: i64 = fz * TIP_OFFSET / UNIT;
            assert(-TIP_OFFSET <= sx <= TIP_OFFSET && -TIP_OFFSET <= sy <= TIP_OFFSET
                && -TIP_OFFSET <= sz <= TIP_OFFSET);
            Point { x: ox + sx, y: oy + sy, z: oz + sz }
        },
        InputKind::Hand { wrist } => wrist.point(),
    }
}

/// Decides whether an input could take a ring whose handle is at `handle`.
pub fn within_reach(handle: &Vec3, input: &InputEvent) -> (r: bool)
    ensures
        r == qualifies(handle@, *input),
{
    match input.kind {
        InputKind::Pointer => false,
        _ => {
            let (hx, hy, hz) = handle.components();
            let p = grip(&input.kind);
            let gap = squared_length(
                hx as i128 - p.x as i128,
                hy as i128 - p.y as i128,
                hz as i128 - p.z as i128,
            );
            assert(ATTACH_RANGE * ATTACH_RANGE == 2_500_000_000) by (nonlinear_arith)
                requires
                    ATTACH_RANGE == 50_000,
            ;
            gap < 2_500_000_000
        },
    }
}

/// The ring's attachment: idle, or attached to one input method.
#[derive(Debug)]
pub struct Ring {
    attached_to: Option<u64>,
}

impl Ring {
    /// The input method that the ring is attached to; `None` when idle.
    pub closed spec fn attached(&self) -> Option<u64> {
        self.attached_to
    }

    /// An idle ring.
    pub fn new() -> (r: Ring)
        ensures
            r.attached() is None,
    {
        Ring { attached_to: None }
    }

    /// The input method that the ring is attached to; `None` when idle.
    pub fn attached_to(&self) -> (r: Option<u64>)
        ensures
            r == self.attached(),
    {
        self.attached_to
    }

    /// Runs the ring through one frame, up to the point where an input's
    /// capture has to be tried.
    ///
    /// A grab that starts on an attached ring detaches it. The nearest
    /// qualifying input is found; while the ring is held the preview line
    /// runs to it, and when the grab ends its capture is to be tried. The
    /// outcome of that try goes to `on_attach`.
    pub fn update(
        &mut self,
        gesture: &GrabGesture,
        handle: &Vec3,
        inputs: &Vec<InputEvent>,
    ) -> (plan: RingPlan)
        ensures
            final(self).attached() == if gesture.started {
                None
            } else {
                old(self).attached()
            },
            plan.release == if gesture.started {
                old(self).attached()
            } else {
                None
            },
            plan.nearest matches Some(i) ==> is_nearest(handle@, inputs@, i as int),
            plan.nearest is None ==> none_qualifies(handle@, inputs@),
            plan.preview is Some <==> gesture.acting && plan.nearest is Some,
            plan.preview matches Some(end) ==> end@ == grip_point(
                inputs@[plan.nearest->0 as int].kind,
            ),
            plan.attach <==> gesture.stopped && plan.nearest is Some,
    {
        let release = if gesture.started {
            self.on_detach()
        } else {
            None
        };
        let nearest = self.get_input_to_capture(handle, inputs);
        let preview = match nearest {
            Some(i) => if gesture.acting {
                Some(grip(&inputs[i].kind))
            } else {
                None
            },
            None => None,
        };
        let attach = gesture.stopped && nearest.is_some();
        RingPlan { release, nearest, preview, attach }
    }

    /// Records the outcome of trying to capture `method`: the ring is attached
    /// to it if the capture was granted and stays as it was if not.
    pub fn on_attach(&mut self, method: u64, granted: bool)
        ensures
            final(self).attached() == if granted {
                Some(method)
            } else {
                old(self).attached()
            },
    {
        if granted {
            self.attached_to = Some(method);
        }
    }

    /// Detaches the ring and returns the input method whose capture is to be
    /// released, if the ring was attached.
    pub fn on_detach(&mut self) -> (released: Option<u64>)
        ensures
            released == old(self).attached(),
            final(self).attached() is None,
    {
        let released = self.attached_to;
        self.attached_to = None;
        released
    }

    /// The index of the first input that comes from the method that the ring
    /// is attached to.
    pub fn get_attached_input(&self, inputs: &Vec<InputEvent>) -> (found: Option<usize>)
        ensures
            found matches Some(i) ==> self.attached() matches Some(method) && is_first_from(
                inputs@,
                method,
                i as int,
            ),
            found is None ==> (self.attached() matches Some(method) ==> none_from(inputs@, method)),
    {
        match self.attached_to {
            None => None,
            Some(method) => {
                let mut k: usize = 0;
                while k < inputs.len()
                    invariant
                        k <= inputs.len(),
                        self.attached() == Some(method),
                        forall|j: int| 0 <= j < k ==> (#[trigger] inputs@[j]).method != method,
                    decreases inputs.len() - k,
                {
                    if inputs[k].method == method {
                        return Some(k);
                    }
                    k += 1;
                }
                None
            },
        }
    }

    /// The index of the input to attach to: among those that qualify, the one
    /// that reports the lowest distance, the first of them where several do.
    pub fn get_input_to_capture(&self, handle: &Vec3, inputs: &Vec<InputEvent>) -> (nearest:
        Option<usize>)
        ensures
            nearest matches Some(i) ==> is_nearest(handle@, inputs@, i as int),
            nearest is None ==> none_qualifies(handle@, inputs@),
    {
        let mut nearest: Option<usize> = None;
        let mut k: usize = 0;
        while k < inputs.len()
            invariant
                k <= inputs.len(),
                nearest matches Some(i) ==> {
                    &&& i < k
                    &&& qualifies(handle@, inputs@[i as int])
                    &&& forall|j: int|
                        0 <= j < k && qualifies(handle@, #[trigger] inputs@[j]) ==> {
                            &&& inputs@[i as int].distance <= inputs@[j].distance
                            &&& j < i ==> inputs@[i as int].distance < inputs@[j].distance
                        }
                },
                nearest is None ==> forall|j: int|
                    0 <= j < k ==> !qualifies(handle@, #[trigger] inputs@[j]),
            decreases inputs.len() - k,
        {
            if within_reach(handle, &inputs[k]) {
                let closer = match nearest {
                    Some(i) => inputs[k].distance < inputs[i].distance,
                    None => true,
                };
                if closer {
                    nearest = Some(k);
                }
            }
            k += 1;
        }
        nearest
    }

    /// Where the ring goes this frame if it is attached and its input is in
    /// sight: to that input's grip point.
    pub fn follow(&self, inputs: &Vec<InputEvent>) -> (r: Option<Follow>)
        ensures
            r matches Some(f) ==> self.attached() matches Some(method) && is_first_from(
                inputs@,
                method,
                f.input as int,
            ) && f.position@ == grip_point(inputs@[f.input as int].kind),
            r is None ==> (self.attached() matches Some(method) ==> none_from(inputs@, method)),
    {
        match self.get_attached_input(inputs) {
            Some(i) => Some(Follow { input: i, position: grip(&inputs[i].kind) }),
            None => None,
        }
    }
}

} // verus!
