use vstd::prelude::*;
use crate::bsp::SplitRating;
use crate::float::{MINUS_ONE_BITS, ONE_BITS};
use crate::types::F32;

verus! {

/// Whether a corner lies in front of a plane: the value of the plane at
/// the corner is greater than `epsilon`.
pub open spec fn in_front(value: F32, epsilon: F32) -> bool {
    epsilon.spec_lt(value)
}

/// Whether a corner lies behind a plane: the value of the plane at the
/// corner is less than `-epsilon`.
pub open spec fn behind(value: F32, epsilon: F32) -> bool {
    value.spec_lt(epsilon.spec_neg())
}

/// How many of the first `n` corners lie in front of the plane.
pub open spec fn count_front(values: Seq<F32>, epsilon: F32, n: nat) -> nat
    decreases n,
{
    if n == 0 {
        0
    } else {
        count_front(values, epsilon, (n - 1) as nat) + (if in_front(values[n - 1], epsilon) {
            1nat
        } else {
            0
        })
    }
}

/// How many of the first `n` corners lie behind the plane.
pub open spec fn count_back(values: Seq<F32>, epsilon: F32, n: nat) -> nat
    decreases n,
{
    if n == 0 {
        0
    } else {
        count_back(values, epsilon, (n - 1) as nat) + (if !in_front(values[n - 1], epsilon) && behind(
            values[n - 1],
            epsilon,
        ) {
            1nat
        } else {
            0
        })
    }
}

/// Where a polygon lies to a plane.
#[derive(Clone, Copy, Debug, PartialEq, Eq, Structural)]
pub enum Placement {
    /// Corners lie in front and none behind.
    Front,
    /// Corners lie behind and none in front.
    Back,
    /// All corners lie on the plane.
    On,
    /// Corners lie on both sides, or there is no corner.
    Spanning,
}

/// Where a polygon lies to a plane, from the values of the plane at its
/// corners. A value that is no number counts as on the plane.
pub open spec fn spec_classify(values: Seq<F32>, epsilon: F32) -> Placement {
    let front = count_front(values, epsilon, values.len());
    let back = count_back(values, epsilon, values.len());
    if front > 0 && back == 0 {
        Placement::Front
    } else if front == 0 && back > 0 {
        Placement::Back
    } else if front == 0 && back == 0 && values.len() > 0 {
        Placement::On
    } else {
        Placement::Spanning
    }
}

/// Where a polygon lies to a plane, from the values of the plane at its
/// corners.
pub fn classify_poly(values: &Vec<F32>, epsilon: F32) -> (r: Placement)
    ensures
        r == spec_classify(values@, epsilon),
{
    let mut front: usize = 0;
    let mut back: usize = 0;
    let mut i: usize = 0;
    while i < values.len()
        invariant
            i <= values.len(),
            front == count_front(values@, epsilon, i as nat),
            back == count_back(values@, epsilon, i as nat),
            front + back <= i,
        decreases values.len() - i,
    {
        if values[i].gt(epsilon) {
            front = front + 1;
        } else if values[i].lt(epsilon.neg()) {
            back = back + 1;
        }
        i = i + 1;
    }
    if front > 0 && back == 0 {
        Placement::Front
    } else if front == 0 && back > 0 {
        Placement::Back
    } else if front == 0 && back == 0 && values.len() > 0 {
        Placement::On
    } else {
        Placement::Spanning
    }
}

/// The greatest of 0 and the first `n` values. A value that is no number
/// counts for nothing.
pub open spec fn greatest_above(values: Seq<F32>, n: nat) -> F32
    decreases n,
{
    if n == 0 {
        F32 { bits: 0 }
    } else {
        let rest = greatest_above(values, (n - 1) as nat);
        if rest.spec_lt(values[n - 1]) {
            values[n - 1]
        } else {
            rest
        }
    }
}

/// The least of 0 and the first `n` values.
pub open spec fn least_below(values: Seq<F32>, n: nat) -> F32
    decreases n,
{
    if n == 0 {
        F32 { bits: 0 }
    } else {
        let rest = least_below(values, (n - 1) as nat);
        if values[n - 1].spec_lt(rest) {
            values[n - 1]
        } else {
            rest
        }
    }
}

/// 1 for what holds, 0 for what does not.
pub open spec fn one_if(b: bool) -> i32 {
    if b {
        1
    } else {
        0
    }
}

/// What a polygon that does not lie in a plane counts for the plane, from
/// the values of the plane at its corners: in front where a corner lies
/// in front, behind where one lies behind, cut where both holds, and a
/// thin sliver where it reaches less than 1 to the front or to the back.
pub open spec fn spec_split_rating(values: Seq<F32>, epsilon: F32) -> SplitRating {
    let hi = greatest_above(values, values.len());
    let lo = least_below(values, values.len());
    let zero = F32 { bits: 0 };
    let front = in_front(hi, epsilon);
    let back = behind(lo, epsilon);
    let tiny = (zero.spec_lt(hi) && hi.spec_lt(F32 { bits: ONE_BITS })) || (lo.spec_lt(zero) && (F32 {
        bits: MINUS_ONE_BITS,
    }).spec_lt(lo));
    SplitRating {
        front: one_if(front),
        back: one_if(back),
        splits: one_if(front && back),
        coplanar: 0,
        tiny_windings: one_if(tiny),
    }
}

/// What a polygon that does not lie in a plane counts for the plane.
pub fn calculate_split_rating(values: &Vec<F32>, epsilon: F32) -> (r: SplitRating)
    ensures
        r == spec_split_rating(values@, epsilon),
{
    let zero = F32 { bits: 0 };
    let mut hi = zero;
    let mut lo = zero;
    let mut i: usize = 0;
    while i < values.len()
        invariant
            i <= values.len(),
            hi == greatest_above(values@, i as nat),
            lo == least_below(values@, i as nat),
        decreases values.len() - i,
    {
        if values[i].gt(hi) {
            hi = values[i];
        }
        if values[i].lt(lo) {
            lo = values[i];
        }
        i = i + 1;
    }
    let front = hi.gt(epsilon);
    let back = lo.lt(epsilon.neg());
    let tiny = (hi.gt(zero) && hi.lt(F32 { bits: ONE_BITS })) || (lo.lt(zero) && lo.gt(
        F32 { bits: MINUS_ONE_BITS },
    ));
    SplitRating {
        front: if front {
            1
        } else {
            0
        },
        back: if back {
            1
        } else {
            0
        },
        splits: if front && back {
            1
        } else {
            0
        },
        coplanar: 0,
        tiny_windings: if tiny {
            1
        } else {
            0
        },
    }
}

/// A corner of a piece of a polygon that was cut by a plane.
#[derive(Clone, Copy, Debug, PartialEq, Eq, Structural)]
pub enum ClipStep {
    /// The corner of the polygon at this place.
    Keep(usize),
    /// The point where the side from the corner at this place to the
    /// next one goes through the plane.
    Cut(usize),
}

/// Whether a side goes through the plane: one of its ends lies in front
/// and the other behind.
pub open spec fn crosses(from: F32, to: F32, epsilon: F32) -> bool {
    (in_front(from, epsilon) && behind(to, epsilon)) || (behind(from, epsilon) && in_front(
        to,
        epsilon,
    ))
}

/// The corners of the piece of a polygon that lies behind a plane or on
/// it, as far as the first `n` corners of the polygon give them: each
/// corner whose value is not greater than `epsilon` is kept, and behind a
/// corner comes the point where the side to the next corner goes through
/// the plane. The last side leads back to the first corner.
pub open spec fn spec_clip_steps(values: Seq<F32>, epsilon: F32, n: nat) -> Seq<ClipStep>
    decreases n,
{
    if n == 0 {
        Seq::empty()
    } else {
        let rest = spec_clip_steps(values, epsilon, (n - 1) as nat);
        let from = values[n - 1];
        let to = values[(n as int) % (values.len() as int)];
        let kept = if from.spec_le(epsilon) {
            rest.push(ClipStep::Keep((n - 1) as usize))
        } else {
            rest
        };
        if crosses(from, to, epsilon) {
            kept.push(ClipStep::Cut((n - 1) as usize))
        } else {
            kept
        }
    }
}

/// The corners of the piece of a polygon that lies behind a plane or on
/// it, from the values of the plane at the corners of the polygon.
pub fn clip_steps(values: &Vec<F32>, epsilon: F32) -> (r: Vec<ClipStep>)
    ensures
        r@ == spec_clip_steps(values@, epsilon, values@.len()),
{
    let mut r: Vec<ClipStep> = Vec::new();
    let n = values.len();
    let mut i: usize = 0;
    while i < n
        invariant
            i <= n,
            n == values@.len(),
            r@ == spec_clip_steps(values@, epsilon, i as nat),
        decreases n - i,
    {
        let from = values[i];
        let next = if i + 1 == n {
            0
        } else {
            i + 1
        };
        assert(next == (i + 1) as int % (n as int)) by {
            if i + 1 == n {
                assert((n as int) % (n as int) == 0) by (nonlinear_arith)
                    requires
                        n > 0,
                ;
            } else {
                assert(((i + 1) as int) % (n as int) == i + 1) by (nonlinear_arith)
                    requires
                        0 <= i + 1 < n,
                ;
            }
        }
        let to = values[next];
        if from.le(epsilon) {
            r.push(ClipStep::Keep(i));
        }
        if (from.gt(epsilon) && to.lt(epsilon.neg())) || (from.lt(epsilon.neg()) && to.gt(epsilon)) {
            r.push(ClipStep::Cut(i));
        }
        i = i + 1;
    }
    r
}

/// How many of the first `n` steps are points where a side goes through
/// the plane.
pub open spec fn cuts_among(steps: Seq<ClipStep>, n: nat) -> nat
    decreases n,
{
    if n == 0 {
        0
    } else {
        cuts_among(steps, (n - 1) as nat) + (match steps[n - 1] {
            ClipStep::Cut(_) => 1nat,
            ClipStep::Keep(_) => 0,
        })
    }
}

/// The corners of a piece as places in the list of points of the
/// polygon, as far as the first `n` steps give them: a corner that is
/// kept has its old place, and the points where sides go through the
/// plane stand behind the `points` points that were there, one after the
/// other.
pub open spec fn spec_piece_indices(indices: Seq<usize>, steps: Seq<ClipStep>, points: nat, n: nat) -> Seq<
    usize,
>
    decreases n,
{
    if n == 0 {
        Seq::empty()
    } else {
        let rest = spec_piece_indices(indices, steps, points, (n - 1) as nat);
        match steps[n - 1] {
            ClipStep::Keep(i) => rest.push(indices[i as int]),
            ClipStep::Cut(_) => rest.push((points + cuts_among(steps, (n - 1) as nat)) as usize),
        }
    }
}

/// Whether each step that keeps a corner names a corner that the polygon
/// has.
pub open spec fn steps_fit(steps: Seq<ClipStep>, corners: nat) -> bool {
    forall|k: int|
        0 <= k < steps.len() ==> (match #[trigger] steps[k] {
            ClipStep::Keep(i) => i < corners,
            ClipStep::Cut(_) => true,
        })
}

/// The corners of a piece as places in the list of points of the
/// polygon, which has `points` points before the piece is made. There is
/// none where a step names a corner that the polygon does not have.
pub fn piece_indices(indices: &Vec<usize>, steps: &Vec<ClipStep>, points: usize) -> (r: Option<Vec<usize>>)
    requires
        points + steps@.len() <= usize::MAX,
    ensures
        match r {
            Some(made) => steps_fit(steps@, indices@.len()) && made@ == spec_piece_indices(
                indices@,
                steps@,
                points as nat,
                steps@.len(),
            ),
            None => !steps_fit(steps@, indices@.len()),
        },
{
    let mut made: Vec<usize> = Vec::new();
    let mut cuts: usize = 0;
    let mut k: usize = 0;
    while k < steps.len()
        invariant
            k <= steps.len(),
            points + steps@.len() <= usize::MAX,
            cuts == cuts_among(steps@, k as nat),
            cuts <= k,
            made@ == spec_piece_indices(indices@, steps@, points as nat, k as nat),
            forall|m: int|
                0 <= m < k ==> (match #[trigger] steps@[m] {
                    ClipStep::Keep(i) => i < indices@.len(),
                    ClipStep::Cut(_) => true,
                }),
        decreases steps.len() - k,
    {
        match steps[k] {
            ClipStep::Keep(i) => {
                if i >= indices.len() {
                    return None;
                }
                made.push(indices[i]);
            },
            ClipStep::Cut(_) => {
                made.push(points + cuts);
                cuts = cuts + 1;
            },
        }
        k = k + 1;
    }
    Some(made)
}

} // verus!
