//! Mission flight: outcomes, the survey plan and its remainder, and the
//! progression of each flight pattern.
//!
//! The machines here decide; geometry and time arithmetic on doubles is done
//! by the caller, who hands in the positions, distances and deadlines that a
//! tick compares.

use vstd::prelude::*;

use crate::quantity::{real_zero, zero, Real};
use crate::sorting::{in_order, lemma_insert_at, sorted_by, sorting_orders};

verus! {

/// Terminal outcome of a mission flight.
#[derive(Clone, Copy, Debug, PartialEq, Eq, Structural)]
pub enum FlightOutcome {
    Completed,
    Aborted,
    TimedOut,
}

impl FlightOutcome {
    /// The journaled word.
    pub open spec fn text(self) -> Seq<char> {
        match self {
            FlightOutcome::Completed => "completed"@,
            FlightOutcome::Aborted => "aborted"@,
            FlightOutcome::TimedOut => "timeout"@,
        }
    }

    /// The journaled word.
    pub fn as_str(&self) -> (r: &'static str)
        ensures
            r@ == self.text(),
    {
        match self {
            FlightOutcome::Completed => "completed",
            FlightOutcome::Aborted => "aborted",
            FlightOutcome::TimedOut => "timeout",
        }
    }

    /// The published search state that a finished survey ends in.
    pub fn search_state(&self) -> (r: &'static str)
        ensures
            r@ == (match self {
                FlightOutcome::Completed => "done"@,
                FlightOutcome::Aborted => "aborted"@,
                FlightOutcome::TimedOut => "failed"@,
            }),
    {
        match self {
            FlightOutcome::Completed => "done",
            FlightOutcome::Aborted => "aborted",
            FlightOutcome::TimedOut => "failed",
        }
    }
}

// ---------------------------------------------------------------------------
// survey plan
// ---------------------------------------------------------------------------

/// A point on the ground.
#[derive(Clone, Copy, Debug, PartialEq, Eq, Structural)]
pub struct Point {
    pub lat_deg: Real,
    pub lon_deg: Real,
}

/// One planned capture point.
#[derive(Clone, Copy, Debug, PartialEq, Eq, Structural)]
pub struct CapturePoint {
    pub lat_deg: Real,
    pub lon_deg: Real,
    /// Planned leg heading, degrees.
    pub heading_deg: Real,
    pub leg: usize,
    /// Along-track position on the leg, metres from the leg start.
    pub along_m: Real,
}

/// One straight leg.
#[derive(Clone, Copy, Debug, PartialEq, Eq, Structural)]
pub struct Leg {
    pub start: Point,
    pub end: Point,
}

/// The resolved survey: serpentine legs and the capture points of each.
#[derive(Debug)]
pub struct RasterPlan {
    /// Legs in flight order.
    pub legs: Vec<Leg>,
    /// Capture points per leg, sorted by along-track position.
    pub captures: Vec<Vec<CapturePoint>>,
    pub agl_m: Real,
    /// Commanded ground speed.
    pub speed_m_s: Real,
    /// Total path length, metres.
    pub path_len_m: Real,
}

/// A plan by its values.
#[verifier::ext_equal]
pub struct RasterPlanView {
    pub legs: Seq<Leg>,
    pub captures: Seq<Seq<CapturePoint>>,
    pub agl_m: Real,
    pub speed_m_s: Real,
    pub path_len_m: Real,
}

/// The capture points of every leg.
pub open spec fn capture_lists(v: Seq<Vec<CapturePoint>>) -> Seq<Seq<CapturePoint>> {
    v.map_values(|c: Vec<CapturePoint>| c@)
}

impl View for RasterPlan {
    type V = RasterPlanView;

    open spec fn view(&self) -> RasterPlanView {
        RasterPlanView {
            legs: self.legs@,
            captures: capture_lists(self.captures@),
            agl_m: self.agl_m,
            speed_m_s: self.speed_m_s,
            path_len_m: self.path_len_m,
        }
    }
}

/// All capture points in firing order.
pub open spec fn flat(captures: Seq<Seq<CapturePoint>>) -> Seq<CapturePoint>
    decreases captures.len(),
{
    if captures.len() == 0 {
        Seq::empty()
    } else {
        captures[0] + flat(captures.skip(1))
    }
}

impl RasterPlanView {
    /// A plan that can be flown: a list of captures for each leg, each point
    /// naming its leg, and no more points than can be counted.
    pub open spec fn valid(self) -> bool {
        &&& 0 < self.legs.len() <= usize::MAX
        &&& self.captures.len() == self.legs.len()
        &&& forall|i: int, j: int|
            0 <= i < self.captures.len() && 0 <= j < self.captures[i].len() ==> (
            #[trigger] self.captures[i][j]).leg == i
        &&& flat(self.captures).len() <= usize::MAX
        &&& flat(self.captures).len() <= u64::MAX
    }
}

/// The point with its leg counted from `start_leg`.
pub open spec fn relegged(c: CapturePoint, start_leg: int) -> CapturePoint {
    CapturePoint { leg: (c.leg - start_leg) as usize, ..c }
}

/// The points with their legs counted from `start_leg`.
pub open spec fn relegged_all(s: Seq<CapturePoint>, start_leg: int) -> Seq<CapturePoint> {
    s.map_values(|c: CapturePoint| relegged(c, start_leg))
}

/// The capture lists of what remains of a plan: whole legs after `start_leg`,
/// and `start_leg` without its first `skip` points.
pub open spec fn remaining_captures(
    captures: Seq<Seq<CapturePoint>>,
    start_leg: int,
    skip: int,
) -> Seq<Seq<CapturePoint>> {
    Seq::new(
        (captures.len() - start_leg) as nat,
        |j: int|
            relegged_all(
                if j == 0 {
                    let n = captures[start_leg].len();
                    captures[start_leg].skip(
                        if skip < n {
                            skip
                        } else {
                            n as int
                        },
                    )
                } else {
                    captures[start_leg + j]
                },
                start_leg,
            ),
    )
}

/// What remains of a plan after a split; `None` when nothing is left.
pub open spec fn remaining_plan(
    plan: RasterPlanView,
    start_leg: int,
    skip: int,
    path_len_m: Real,
) -> Option<RasterPlanView> {
    if start_leg >= plan.legs.len() {
        None
    } else {
        Some(
            RasterPlanView {
                legs: plan.legs.skip(start_leg),
                captures: remaining_captures(plan.captures, start_leg, skip),
                path_len_m,
                ..plan
            },
        )
    }
}

/// Number of capture points before leg `leg`.
pub open spec fn captures_before(captures: Seq<Seq<CapturePoint>>, leg: int) -> int {
    flat(captures.take(leg)).len() as int
}

/// `flat` of two lists of legs.
pub proof fn lemma_flat_add(a: Seq<Seq<CapturePoint>>, b: Seq<Seq<CapturePoint>>)
    ensures
        flat(a + b) == flat(a) + flat(b),
    decreases a.len(),
{
    if a.len() == 0 {
        assert(a + b =~= b);
        assert(flat(a) + flat(b) =~= flat(b));
    } else {
        lemma_flat_add(a.skip(1), b);
        assert((a + b).skip(1) =~= a.skip(1) + b);
        assert((a + b)[0] == a[0]);
        assert(a[0] + (flat(a.skip(1)) + flat(b)) =~= (a[0] + flat(a.skip(1))) + flat(b));
    }
}

/// `flat` around one leg.
pub proof fn lemma_flat_at(s: Seq<Seq<CapturePoint>>, k: int)
    requires
        0 <= k < s.len(),
    ensures
        flat(s) == flat(s.take(k)) + s[k] + flat(s.skip(k + 1)),
        flat(s.take(k + 1)) == flat(s.take(k)) + s[k],
        flat(s.skip(k)) == s[k] + flat(s.skip(k + 1)),
{
    assert(s.skip(k)[0] == s[k]);
    assert(s.skip(k).skip(1) =~= s.skip(k + 1));
    assert(s =~= s.take(k) + s.skip(k));
    lemma_flat_add(s.take(k), s.skip(k));
    assert(flat(s.take(k)) + (s[k] + flat(s.skip(k + 1))) =~= flat(s.take(k)) + s[k] + flat(
        s.skip(k + 1),
    ));
    assert(s.take(k + 1) =~= s.take(k) + seq![s[k]]);
    lemma_flat_add(s.take(k), seq![s[k]]);
    assert(flat(seq![s[k]]) =~= s[k]) by {
        assert(seq![s[k]].skip(1) =~= Seq::empty());
        assert(flat(seq![s[k]].skip(1)) =~= Seq::<CapturePoint>::empty());
        assert(s[k] + Seq::<CapturePoint>::empty() =~= s[k]);
    }
}

/// Re-legging commutes with flattening.
proof fn lemma_flat_relegged(s: Seq<Seq<CapturePoint>>, start_leg: int)
    ensures
        flat(s.map_values(|l: Seq<CapturePoint>| relegged_all(l, start_leg))) == relegged_all(
            flat(s),
            start_leg,
        ),
    decreases s.len(),
{
    let m = s.map_values(|l: Seq<CapturePoint>| relegged_all(l, start_leg));
    if s.len() == 0 {
        assert(relegged_all(flat(s), start_leg) =~= Seq::empty());
    } else {
        lemma_flat_relegged(s.skip(1), start_leg);
        assert(m.skip(1) =~= s.skip(1).map_values(
            |l: Seq<CapturePoint>| relegged_all(l, start_leg),
        ));
        assert(relegged_all(s[0] + flat(s.skip(1)), start_leg) =~= relegged_all(s[0], start_leg)
            + relegged_all(flat(s.skip(1)), start_leg));
    }
}

/// How many points of leg `leg` are skipped when `skip` are asked for.
pub open spec fn skipped(plan: RasterPlanView, leg: int, skip: int) -> int {
    if skip < plan.captures[leg].len() {
        skip
    } else {
        plan.captures[leg].len() as int
    }
}

/// What remains after `start_leg` whole legs and `skip` points of the next, or
/// all of its points if it has fewer, is exactly the rest of the capture
/// sequence: no point twice, none lost.
pub proof fn remainder_is_the_unfired_rest(
    plan: RasterPlanView,
    start_leg: int,
    skip: int,
    path_len_m: Real,
)
    requires
        plan.valid(),
        0 <= start_leg < plan.legs.len(),
        0 <= skip,
    ensures
        flat(remaining_plan(plan, start_leg, skip, path_len_m)->0.captures) == relegged_all(
            flat(plan.captures).skip(
                captures_before(plan.captures, start_leg) + skipped(plan, start_leg, skip),
            ),
            start_leg,
        ),
{
    let caps = plan.captures;
    let got = remaining_captures(caps, start_leg, skip);
    let skip = skipped(plan, start_leg, skip);
    let rest = caps.skip(start_leg).update(0, caps[start_leg].skip(skip));
    assert(got =~= rest.map_values(|l: Seq<CapturePoint>| relegged_all(l, start_leg)));
    lemma_flat_relegged(rest, start_leg);
    lemma_flat_at(caps, start_leg);
    assert(rest.skip(1) =~= caps.skip(start_leg + 1));
    assert(rest[0] == caps[start_leg].skip(skip));
    assert(flat(rest) == caps[start_leg].skip(skip) + flat(caps.skip(start_leg + 1)));
    let before = flat(caps.take(start_leg));
    assert((before + caps[start_leg] + flat(caps.skip(start_leg + 1))).skip(before.len() + skip)
        =~= caps[start_leg].skip(skip) + flat(caps.skip(start_leg + 1)));
}

/// Whether two capture points are the same place, looked at the same way from
/// the same place along the leg.
pub open spec fn same_place(a: CapturePoint, b: CapturePoint) -> bool {
    &&& a.lat_deg == b.lat_deg
    &&& a.lon_deg == b.lon_deg
    &&& a.heading_deg == b.heading_deg
    &&& a.along_m == b.along_m
}

/// What remains of a plan is flown as the whole was asked for: at its
/// altitude, with its speed, over its own legs, and with the captures of those
/// legs in their places, numbered anew. Only the first leg may lack captures,
/// and those are its first ones.
pub proof fn remainders_are_flown_as_asked(
    plan: RasterPlanView,
    start_leg: int,
    skip: int,
    path_len_m: Real,
)
    requires
        plan.valid(),
        0 <= start_leg,
        0 <= skip,
    ensures
        remaining_plan(plan, start_leg, skip, path_len_m) is Some <==> start_leg
            < plan.legs.len(),
        remaining_plan(plan, start_leg, skip, path_len_m) matches Some(rest) ==> {
            &&& rest.agl_m == plan.agl_m
            &&& rest.speed_m_s == plan.speed_m_s
            &&& rest.path_len_m == path_len_m
            &&& rest.legs.len() == plan.legs.len() - start_leg
            &&& rest.captures.len() == rest.legs.len()
            &&& forall|i: int|
                0 <= i < rest.legs.len() ==> #[trigger] rest.legs[i] == plan.legs[start_leg + i]
            &&& forall|i: int|
                0 < i < rest.legs.len() ==> (#[trigger] rest.captures[i]).len()
                    == plan.captures[start_leg + i].len()
            &&& skip <= plan.captures[start_leg].len() ==> rest.captures[0].len() + skip
                == plan.captures[start_leg].len()
            &&& skip > plan.captures[start_leg].len() ==> rest.captures[0].len() == 0
            &&& forall|i: int, j: int|
                0 <= i < rest.captures.len() && 0 <= j < rest.captures[i].len() ==> {
                    let whole = plan.captures[start_leg + i];
                    let c = #[trigger] rest.captures[i][j];
                    &&& c.leg == i
                    &&& same_place(c, whole[whole.len() - rest.captures[i].len() + j])
                }
        },
{
    if start_leg < plan.legs.len() {
        let rest = remaining_plan(plan, start_leg, skip, path_len_m)->0;
        assert forall|i: int, j: int|
            0 <= i < rest.captures.len() && 0 <= j < rest.captures[i].len() implies ({
            let whole = plan.captures[start_leg + i];
            let c = #[trigger] rest.captures[i][j];
            &&& c.leg == i
            &&& same_place(c, whole[whole.len() - rest.captures[i].len() + j])
        }) by {
            let whole = plan.captures[start_leg + i];
            let k = whole.len() - rest.captures[i].len() + j;
            assert(whole[k].leg == start_leg + i);
        }
    }
}

/// Splitting a remainder again is splitting the whole plan at the composed
/// coordinates: a chain of splits never loses or repeats work.
pub proof fn remainders_compose(
    plan: RasterPlanView,
    start_leg: int,
    skip: int,
    leg: int,
    fired: int,
    mid_len: Real,
    path_len_m: Real,
)
    requires
        plan.valid(),
        0 <= start_leg < plan.legs.len(),
        0 <= skip,
        0 <= leg,
        0 <= fired,
    ensures
        remaining_plan(
            remaining_plan(plan, start_leg, skip, mid_len)->0,
            leg,
            fired,
            path_len_m,
        ) == remaining_plan(
            plan,
            start_leg + leg,
            if leg == 0 {
                skip + fired
            } else {
                fired
            },
            path_len_m,
        ),
{
    let mid = remaining_plan(plan, start_leg, skip, mid_len)->0;
    assert(mid.legs.len() == plan.legs.len() - start_leg);
    if start_leg + leg < plan.legs.len() {
        let a = remaining_plan(mid, leg, fired, path_len_m)->0;
        let skip2 = if leg == 0 {
            skip + fired
        } else {
            fired
        };
        let b = remaining_plan(plan, start_leg + leg, skip2, path_len_m)->0;
        assert(a.legs =~= b.legs);
        assert(a.captures.len() == b.captures.len());
        assert forall|j: int| 0 <= j < a.captures.len() implies a.captures[j]
            == b.captures[j] by {
            let src = plan.captures[start_leg + leg + j];
            let off = if j != 0 {
                0
            } else if skip2 < src.len() {
                skip2
            } else {
                src.len() as int
            };
            assert(a.captures[j].len() == src.len() - off);
            assert(b.captures[j].len() == src.len() - off);
            assert forall|i: int| 0 <= i < a.captures[j].len() implies a.captures[j][i]
                == b.captures[j][i] by {
                assert(src[off + i].leg == start_leg + leg + j);
            }
            assert(a.captures[j] =~= b.captures[j]);
        }
        assert(a.captures =~= b.captures);
    }
}

impl RasterPlan {
    /// Number of capture points.
    pub fn capture_count(&self) -> (r: usize)
        requires
            flat(self@.captures).len() <= usize::MAX,
        ensures
            r == flat(self@.captures).len(),
    {
        let ghost caps = self@.captures;
        let mut total: usize = 0;
        let mut i: usize = 0;
        assert(caps.take(0) =~= Seq::empty());
        while i < self.captures.len()
            invariant
                i <= self.captures@.len(),
                caps == capture_lists(self.captures@),
                flat(caps).len() <= usize::MAX,
                total == flat(caps.take(i as int)).len(),
            decreases self.captures@.len() - i,
        {
            proof {
                lemma_flat_at(caps, i as int);
            }
            total = total + self.captures[i].len();
            i = i + 1;
        }
        assert(caps.take(i as int) =~= caps);
        total
    }

    /// The remainder of this plan after a split: legs from `start_leg` on,
    /// without the first `skip_captures` points of `start_leg`. The path
    /// length of the remaining legs is the caller's. `None` when nothing is
    /// left.
    pub fn remainder(
        &self,
        start_leg: usize,
        skip_captures: usize,
        path_len_m: Real,
    ) -> (r: Option<RasterPlan>)
        requires
            self@.valid(),
        ensures
            r is Some <==> start_leg < self@.legs.len(),
            r matches Some(p) ==> remaining_plan(
                self@,
                start_leg as int,
                skip_captures as int,
                path_len_m,
            ) == Some(p@),
            r matches Some(p) ==> {
                &&& p.agl_m == self.agl_m
                &&& p.speed_m_s == self.speed_m_s
                &&& p.path_len_m == path_len_m
                &&& p.legs@ == self.legs@.skip(start_leg as int)
                &&& p.captures@.len() == self.captures@.len() - start_leg
            },
    {
        if start_leg >= self.legs.len() {
            return None;
        }
        let mut legs: Vec<Leg> = Vec::new();
        let mut captures: Vec<Vec<CapturePoint>> = Vec::new();
        let ghost want = remaining_captures(
            self@.captures,
            start_leg as int,
            skip_captures as int,
        );
        let mut i: usize = start_leg;
        while i < self.legs.len()
            invariant
                start_leg <= i <= self.legs@.len(),
                self@.valid(),
                self.captures@.len() == self.legs@.len(),
                legs@ == self.legs@.subrange(start_leg as int, i as int),
                want == remaining_captures(
                    self@.captures,
                    start_leg as int,
                    skip_captures as int,
                ),
                capture_lists(captures@) == want.take(i - start_leg),
            decreases self.legs@.len() - i,
        {
            let ghost before = captures@;
            legs.push(self.legs[i]);
            assert(legs@ =~= self.legs@.subrange(start_leg as int, i + 1));
            let source: &Vec<CapturePoint> = &self.captures[i];
            assert(source@ == self@.captures[i as int]);
            let mut list: Vec<CapturePoint> = Vec::new();
            let from: usize = if i == start_leg {
                if skip_captures < source.len() {
                    skip_captures
                } else {
                    source.len()
                }
            } else {
                0
            };
            let mut k: usize = from;
            while k < source.len()
                invariant
                    start_leg <= i < self.legs@.len(),
                    from <= k <= source@.len(),
                    self@.valid(),
                    source@ == self@.captures[i as int],
                    list@ == relegged_all(
                        source@.subrange(from as int, k as int),
                        start_leg as int,
                    ),
                decreases source@.len() - k,
            {
                let c: CapturePoint = source[k];
                assert(self@.captures[i as int][k as int].leg == i);
                list.push(
                    CapturePoint {
                        lat_deg: c.lat_deg,
                        lon_deg: c.lon_deg,
                        heading_deg: c.heading_deg,
                        leg: c.leg - start_leg,
                        along_m: c.along_m,
                    },
                );
                assert(list@ =~= relegged_all(
                    source@.subrange(from as int, k + 1),
                    start_leg as int,
                ));
                k = k + 1;
            }
            proof {
                assert(source@.subrange(from as int, k as int) =~= source@.skip(from as int));
                assert(source@.skip(0) =~= source@);
                assert(list@ =~= want[i - start_leg]);
                assert(capture_lists(captures@.push(list)) =~= capture_lists(captures@).push(
                    list@,
                ));
                assert(want.take(i + 1 - start_leg) =~= want.take(i - start_leg).push(
                    want[i - start_leg],
                ));
            }
            captures.push(list);
            i = i + 1;
        }
        proof {
            assert(legs@ =~= self.legs@.skip(start_leg as int));
            assert(want.take(i - start_leg) =~= want);
        }
        Some(
            RasterPlan {
                legs,
                captures,
                agl_m: self.agl_m,
                speed_m_s: self.speed_m_s,
                path_len_m,
            },
        )
    }
}

// ---------------------------------------------------------------------------
// building a plan
// ---------------------------------------------------------------------------

/// One leg as the geometry gives it, its capture points in any order.
#[derive(Debug)]
pub struct SurveyLeg {
    pub leg: Leg,
    pub captures: Vec<CapturePoint>,
}

/// Capture points are ordered by their along-track position.
pub open spec fn along_key() -> spec_fn(CapturePoint) -> int {
    |c: CapturePoint| c.along_m.total_key()
}

/// The points labelled with their leg.
pub open spec fn labelled(points: Seq<CapturePoint>, leg: int) -> Seq<CapturePoint> {
    points.map_values(|c: CapturePoint| CapturePoint { leg: leg as usize, ..c })
}

/// The capture points of leg `i`, in firing order.
pub open spec fn ordered_captures(legs: Seq<SurveyLeg>, i: int) -> Seq<CapturePoint> {
    sorted_by(labelled(legs[i].captures@, i), along_key())
}

/// Bits of the slowest survey, 0.3 m/s.
pub const MIN_SPEED_BITS: u64 = 0x3fd3_3333_3333_3333;

/// The speed that a survey flies when it is asked for one: no slower than it
/// can.
pub open spec fn flown_speed(asked: Real) -> Real {
    let slowest = Real { bits: MIN_SPEED_BITS };
    if slowest.below(asked) {
        asked
    } else {
        slowest
    }
}

/// The speed that a survey flies when it is asked for one: the larger of it
/// and 0.3 m/s.
pub fn survey_speed(asked: Real) -> (r: Real)
    ensures
        r == flown_speed(asked),
        (Real { bits: MIN_SPEED_BITS }).at_most(r),
{
    let slowest = Real { bits: MIN_SPEED_BITS };
    if slowest.lt(&asked) {
        asked
    } else {
        slowest
    }
}

/// Whether a survey captures: only with a capture spacing above zero.
pub open spec fn captures_wanted(every_m: Real) -> bool {
    zero().below(every_m)
}

/// Whether a survey captures: only with a capture spacing above zero.
pub fn takes_captures(every_m: Real) -> (r: bool)
    ensures
        r == captures_wanted(every_m),
{
    real_zero().lt(&every_m)
}

/// How many captures a leg gets on which `steps` whole spacings fit: one at
/// each end of a spacing, and none at all without a spacing.
pub fn captures_on(every_m: Real, steps: usize) -> (r: usize)
    requires
        steps < usize::MAX,
    ensures
        r == (if captures_wanted(every_m) {
            steps + 1
        } else {
            0
        }),
{
    if takes_captures(every_m) {
        steps + 1
    } else {
        0
    }
}

/// The plan over legs for an asked speed and a capture spacing.
pub open spec fn planned(
    legs: Seq<SurveyLeg>,
    agl_m: Real,
    asked_m_s: Real,
    every_m: Real,
    path_len_m: Real,
) -> RasterPlanView {
    RasterPlanView {
        legs: legs.map_values(|l: SurveyLeg| l.leg),
        captures: Seq::new(
            legs.len(),
            |i: int|
                if captures_wanted(every_m) {
                    ordered_captures(legs, i)
                } else {
                    Seq::empty()
                },
        ),
        agl_m,
        speed_m_s: flown_speed(asked_m_s),
        path_len_m,
    }
}

/// Order capture points by along-track position.
fn sort_captures(v: &mut Vec<CapturePoint>)
    ensures
        final(v)@ == sorted_by(old(v)@, along_key()),
{
    let ghost orig = v@;
    let mut i: usize = 0;
    assert(orig.take(0) =~= Seq::empty());
    while i < v.len()
        invariant
            i <= v@.len() == orig.len(),
            v@.take(i as int) == sorted_by(orig.take(i as int), along_key()),
            v@.skip(i as int) == orig.skip(i as int),
        decreases v@.len() - i,
    {
        let ghost before = v@;
        let ghost done = before.take(i as int);
        let x: CapturePoint = v[i];
        proof {
            assert(before.skip(i as int)[0] == orig.skip(i as int)[0]);
            assert(x == orig[i as int]);
            sorting_orders(orig.take(i as int), along_key());
        }
        let mut p: usize = i;
        while p > 0 && v[p - 1].along_m.after(&x.along_m)
            invariant
                p <= i < v@.len(),
                v@ == before,
                done == before.take(i as int),
                in_order(done, along_key()),
                forall|k: int|
                    p <= k < i ==> along_key()(#[trigger] done[k]) > along_key()(x),
            decreases p,
        {
            p = p - 1;
        }
        proof {
            assert forall|k: int| 0 <= k < p implies along_key()(#[trigger] done[k])
                <= along_key()(x) by {
                assert(done[p - 1] == before[p - 1]);
                assert(along_key()(done[k]) <= along_key()(done[p - 1]));
            }
            lemma_insert_at(done, x, along_key(), p as int);
            assert(orig.take(i + 1).drop_last() =~= orig.take(i as int));
        }
        let y = v.remove(i);
        v.insert(p, y);
        proof {
            assert(v@.take(i + 1) =~= done.insert(p as int, x));
            assert(v@.skip(i + 1) =~= before.skip(i as int).skip(1));
            assert(orig.skip(i as int).skip(1) =~= orig.skip(i + 1));
        }
        i = i + 1;
    }
    assert(v@.take(i as int) =~= v@);
    assert(orig.take(i as int) =~= orig);
}

/// Build the survey plan of an area. The area needs corners, and the geometry
/// has to give at least one leg. Without a capture spacing there are no
/// captures, and the survey flies no slower than it can.
pub fn plan_raster(
    corners: &Vec<Point>,
    legs: Vec<SurveyLeg>,
    agl_m: Real,
    asked_m_s: Real,
    every_m: Real,
    path_len_m: Real,
) -> (r: Result<RasterPlan, String>)
    ensures
        match r {
            Ok(plan) => corners@.len() > 0 && legs@.len() > 0 && plan@ == planned(
                legs@,
                agl_m,
                asked_m_s,
                every_m,
                path_len_m,
            ),
            Err(e) => if corners@.len() == 0 {
                e@ == "no area corners"@
            } else {
                legs@.len() == 0 && e@ == "empty raster"@
            },
        },
{
    if corners.len() == 0 {
        return Err("no area corners".to_owned());
    }
    if legs.len() == 0 {
        return Err("empty raster".to_owned());
    }
    let capturing = takes_captures(every_m);
    let mut plan_legs: Vec<Leg> = Vec::new();
    let mut captures: Vec<Vec<CapturePoint>> = Vec::new();
    let mut i: usize = 0;
    while i < legs.len()
        invariant
            i <= legs@.len(),
            plan_legs@.len() == i,
            captures@.len() == i,
            forall|k: int| 0 <= k < i ==> #[trigger] plan_legs@[k] == legs@[k].leg,
            capturing == captures_wanted(every_m),
            forall|k: int|
                0 <= k < i ==> (#[trigger] captures@[k])@ == (if capturing {
                    ordered_captures(legs@, k)
                } else {
                    Seq::empty()
                }),
        decreases legs@.len() - i,
    {
        let mut points: Vec<CapturePoint> = Vec::new();
        let mut j: usize = 0;
        while capturing && j < legs[i].captures.len()
            invariant
                i < legs@.len(),
                !capturing ==> j == 0,
                j <= legs@[i as int].captures@.len(),
                points@ == labelled(legs@[i as int].captures@, i as int).take(j as int),
            decreases legs@[i as int].captures@.len() - j,
        {
            let c: CapturePoint = legs[i].captures[j];
            points.push(CapturePoint { leg: i, ..c });
            assert(points@ =~= labelled(legs@[i as int].captures@, i as int).take(j + 1));
            j = j + 1;
        }
        if capturing {
            assert(points@ =~= labelled(legs@[i as int].captures@, i as int));
            sort_captures(&mut points);
        }
        plan_legs.push(legs[i].leg);
        captures.push(points);
        i = i + 1;
    }
    let speed_m_s = survey_speed(asked_m_s);
    let plan = RasterPlan { legs: plan_legs, captures, agl_m, speed_m_s, path_len_m };
    proof {
        let want = planned(legs@, agl_m, asked_m_s, every_m, path_len_m);
        assert(plan@.legs =~= want.legs);
        assert(plan@.captures =~= want.captures);
    }
    Ok(plan)
}

/// The plan of an area is valid, and the captures of each leg come in
/// along-track order, so that progress along the leg fires them in turn. Each
/// leg has the captures it was given, or none without a capture spacing.
pub proof fn plans_are_valid_and_ordered(
    legs: Seq<SurveyLeg>,
    agl_m: Real,
    asked_m_s: Real,
    every_m: Real,
    path_len_m: Real,
)
    requires
        0 < legs.len() <= usize::MAX,
        flat(planned(legs, agl_m, asked_m_s, every_m, path_len_m).captures).len() <= usize::MAX,
        flat(planned(legs, agl_m, asked_m_s, every_m, path_len_m).captures).len() <= u64::MAX,
    ensures
        planned(legs, agl_m, asked_m_s, every_m, path_len_m).valid(),
        forall|i: int|
            0 <= i < legs.len() ==> in_order(
                #[trigger] planned(legs, agl_m, asked_m_s, every_m, path_len_m).captures[i],
                along_key(),
            ),
        forall|i: int|
            0 <= i < legs.len() ==> (
            #[trigger] planned(legs, agl_m, asked_m_s, every_m, path_len_m).captures[i]).len() == (
            if captures_wanted(every_m) {
                legs[i].captures@.len()
            } else {
                0
            }),
{
    let plan = planned(legs, agl_m, asked_m_s, every_m, path_len_m);
    assert forall|i: int| 0 <= i < legs.len() implies in_order(
        #[trigger] plan.captures[i],
        along_key(),
    ) && plan.captures[i].len() == (if captures_wanted(every_m) {
        legs[i].captures@.len()
    } else {
        0
    }) by {
        let points = labelled(legs[i].captures@, i);
        sorting_orders(points, along_key());
        points.to_multiset_ensures();
        sorted_by(points, along_key()).to_multiset_ensures();
    }
    assert forall|i: int, j: int|
        0 <= i < plan.captures.len() && 0 <= j < plan.captures[i].len() implies (
    #[trigger] plan.captures[i][j]).leg == i by {
        let points = labelled(legs[i].captures@, i);
        sorting_orders(points, along_key());
        let sorted = plan.captures[i];
        points.to_multiset_ensures();
        sorted.to_multiset_ensures();
        assert(sorted.to_multiset().contains(sorted[j]));
        let k = choose|k: int| 0 <= k < points.len() && points[k] == sorted[j];
    }
}

} // verus!
