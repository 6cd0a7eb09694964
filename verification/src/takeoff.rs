//! Takeoff: the arm-and-climb ladder of an autopilot link and the watch over
//! the climb.
//!
//! The link is asked one thing at a time; what it answers decides the next
//! question. Waiting for the climb polls the vehicle, so nothing is held
//! across a wait.

use vstd::prelude::*;

use crate::mission::Point;
use crate::quantity::Real;

verus! {

/// How a takeoff began.
#[derive(Clone, Copy, Debug)]
pub enum TakeoffStart {
    /// The vehicle refused to launch.
    Refused(&'static str),
    /// Already airborne, or the climb settled at once.
    Airborne,
    /// The climb was commanded; `home` is the launch position of a ground arm.
    Climbing { home: Option<Point> },
}

/// What the ladder asks of the link next.
#[derive(Clone, Copy, Debug, PartialEq, Eq, Structural)]
pub enum Ask {
    /// Change to guided mode.
    Guided,
    /// Read the altitude.
    Altitude,
    /// Arm the motors.
    Arm,
    /// Command the climb.
    Climb,
}

/// Where the ladder stands.
#[derive(Clone, Copy, Debug, PartialEq, Eq, Structural)]
pub struct Ladder {
    /// The vehicle was armed when the ladder began.
    pub armed: bool,
    /// Launch position of a disarmed vehicle.
    pub home: Option<Point>,
    pub ask: Ask,
}

/// What the link answered.
#[derive(Clone, Copy, Debug, PartialEq, Eq, Structural)]
pub enum Answer {
    /// The command was taken, or refused.
    Done(bool),
    /// The altitude above ground and its magnitude; `None` without a position.
    Altitude(Option<Altitude>),
}

/// An altitude and its magnitude.
#[derive(Clone, Copy, Debug, PartialEq, Eq, Structural)]
pub struct Altitude {
    pub agl: Real,
    pub magnitude: Real,
}

/// Bits of 3.0: an armed vehicle at least this high is already flying.
pub const ALREADY_AIRBORNE_BITS: u64 = 0x4008_0000_0000_0000;

/// Bits of 1.5: a disarmed vehicle that reads higher than this, up or down,
/// has a lying altitude sensor.
pub const GROUND_TOLERANCE_BITS: u64 = 0x3ff8_0000_0000_0000;

/// What follows an answer: the next question, or how the takeoff began.
pub open spec fn ladder_step(l: Ladder, a: Answer) -> Result<Ladder, TakeoffStart> {
    match (l.ask, a) {
        (Ask::Guided, Answer::Done(true)) => Ok(Ladder { ask: Ask::Altitude, ..l }),
        (Ask::Guided, _) => Err(TakeoffStart::Refused("mode change to GUIDED refused")),
        (Ask::Altitude, Answer::Altitude(Some(alt))) => if l.armed && (Real {
            bits: ALREADY_AIRBORNE_BITS,
        }).at_most(alt.agl) {
            Err(TakeoffStart::Airborne)
        } else if l.armed {
            Ok(Ladder { ask: Ask::Climb, ..l })
        } else if (Real { bits: GROUND_TOLERANCE_BITS }).below(alt.magnitude) {
            Err(TakeoffStart::Refused("altitude sensor disagrees with ground"))
        } else {
            Ok(Ladder { ask: Ask::Arm, ..l })
        },
        (Ask::Altitude, _) => Err(TakeoffStart::Refused("no position telemetry")),
        (Ask::Arm, Answer::Done(true)) => Ok(Ladder { ask: Ask::Climb, ..l }),
        (Ask::Arm, _) => Err(TakeoffStart::Refused("arm refused (prearm checks?)")),
        (Ask::Climb, Answer::Done(true)) => Err(TakeoffStart::Climbing { home: l.home }),
        (Ask::Climb, _) => Err(TakeoffStart::Refused("NAV_TAKEOFF refused")),
    }
}

impl Ladder {
    /// Begin a takeoff. The position of a disarmed vehicle is where it
    /// launches from.
    pub fn new(armed: bool, position: Option<Point>) -> (r: Self)
        ensures
            r == (Ladder {
                armed,
                home: if armed {
                    None
                } else {
                    position
                },
                ask: Ask::Guided,
            }),
    {
        Ladder {
            armed,
            home: if armed {
                None
            } else {
                position
            },
            ask: Ask::Guided,
        }
    }

    /// The next question after an answer, or how the takeoff began.
    pub fn next(&self, answer: Answer) -> (r: Result<Ladder, TakeoffStart>)
        ensures
            r == ladder_step(*self, answer),
    {
        match (self.ask, answer) {
            (Ask::Guided, Answer::Done(true)) => Ok(Ladder { ask: Ask::Altitude, ..*self }),
            (Ask::Guided, _) => Err(TakeoffStart::Refused("mode change to GUIDED refused")),
            (Ask::Altitude, Answer::Altitude(Some(alt))) => {
                if self.armed && (Real { bits: ALREADY_AIRBORNE_BITS }).le(&alt.agl) {
                    return Err(TakeoffStart::Airborne);
                }
                if self.armed {
                    return Ok(Ladder { ask: Ask::Climb, ..*self });
                }
                if (Real { bits: GROUND_TOLERANCE_BITS }).lt(&alt.magnitude) {
                    return Err(
                        TakeoffStart::Refused("altitude sensor disagrees with ground"),
                    );
                }
                Ok(Ladder { ask: Ask::Arm, ..*self })
            },
            (Ask::Altitude, _) => Err(TakeoffStart::Refused("no position telemetry")),
            (Ask::Arm, Answer::Done(true)) => Ok(Ladder { ask: Ask::Climb, ..*self }),
            (Ask::Arm, _) => Err(TakeoffStart::Refused("arm refused (prearm checks?)")),
            (Ask::Climb, Answer::Done(true)) => Err(TakeoffStart::Climbing { home: self.home }),
            (Ask::Climb, _) => Err(TakeoffStart::Refused("NAV_TAKEOFF refused")),
        }
    }
}

/// The ladder after a run of answers; an answer after the end changes
/// nothing.
pub open spec fn after_answers(l: Ladder, answers: Seq<Answer>) -> Result<Ladder, TakeoffStart>
    decreases answers.len(),
{
    if answers.len() == 0 {
        Ok(l)
    } else {
        match after_answers(l, answers.drop_last()) {
            Ok(m) => ladder_step(m, answers.last()),
            Err(end) => Err(end),
        }
    }
}

/// Motors are armed only on a disarmed vehicle that reads the ground, and a
/// climb is commanded only on a vehicle that was armed or has just taken the
/// arm command: what every run of the ladder keeps.
pub proof fn arming_follows_the_ground_check(
    armed: bool,
    home: Option<Point>,
    answers: Seq<Answer>,
)
    ensures
        ({
            let start = Ladder { armed, home, ask: Ask::Guided };
            match after_answers(start, answers) {
                Ok(l) => {
                    &&& l.armed == armed && l.home == home
                    &&& answers.len() == (match l.ask {
                        Ask::Guided => 0nat,
                        Ask::Altitude => 1nat,
                        Ask::Arm => 2nat,
                        Ask::Climb => if armed {
                            2nat
                        } else {
                            3nat
                        },
                    })
                    &&& l.ask == Ask::Arm ==> !armed && grounded(answers)
                    &&& l.ask == Ask::Climb && !armed ==> grounded(answers) && answers.last()
                        == Answer::Done(true)
                    &&& answers.len() > 0 ==> answers[0] == Answer::Done(true)
                },
                Err(_) => true,
            }
        }),
    decreases answers.len(),
{
    let start = Ladder { armed, home, ask: Ask::Guided };
    if answers.len() > 0 {
        let rest = answers.drop_last();
        arming_follows_the_ground_check(armed, home, rest);
        if rest.len() > 1 {
            assert(rest[1] == answers[1]);
        }
    }
}

/// Whether the first answers are guided mode taken and an altitude read.
pub open spec fn altitude_read(answers: Seq<Answer>) -> Option<Altitude> {
    if answers.len() > 1 && answers[0] == Answer::Done(true) {
        match answers[1] {
            Answer::Altitude(alt) => alt,
            _ => None,
        }
    } else {
        None
    }
}

/// How a run of the ladder ends. A vehicle that was armed counts as airborne
/// exactly if it took guided mode and read 3 m or more; one that reads less is
/// asked to climb, as is one that was disarmed, read no more than 1.5 m up or
/// down, and took the arm command. The takeoff is climbing exactly if the
/// climb was then taken, from the position where it was armed; every other
/// answer refuses it.
pub proof fn ladders_end_as_the_vehicle_answers(
    armed: bool,
    position: Option<Point>,
    answers: Seq<Answer>,
)
    ensures
        ({
            let home = if armed {
                None
            } else {
                position
            };
            let start = Ladder { armed, home, ask: Ask::Guided };
            let three = Real { bits: 0x4008_0000_0000_0000 };
            let one_and_a_half = Real { bits: 0x3ff8_0000_0000_0000 };
            let end = after_answers(start, answers);
            let read = altitude_read(answers);
            let flying = armed && read is Some && three.at_most(read->0.agl);
            let low = read is Some && !one_and_a_half.below(read->0.magnitude);
            let cleared = if armed {
                read is Some && !flying
            } else {
                low && answers.len() > 2 && answers[2] == Answer::Done(true)
            };
            let at = if armed {
                2int
            } else {
                3
            };
            let refused = end is Err && end->Err_0 is Refused;
            let climbing = end is Err && end->Err_0 is Climbing;
            &&& (end is Err && end->Err_0 is Airborne) <==> flying
            &&& (end is Ok && end->Ok_0.ask == Ask::Climb) <==> cleared && answers.len() == at
            &&& climbing <==> cleared && answers.len() > at && answers[at] == Answer::Done(true)
            &&& climbing ==> end->Err_0->home == home
            &&& (end is Ok && end->Ok_0.ask == Ask::Arm) <==> !armed && low && answers.len() == 2
            &&& (end is Ok && end->Ok_0.ask == Ask::Altitude) <==> answers.len() == 1
                && answers[0] == Answer::Done(true)
            &&& answers.len() >= 2 && read is None ==> refused
            &&& !armed && read is Some && !low ==> refused
            &&& !armed && answers.len() > 2 && !cleared ==> refused
            &&& cleared && answers.len() > at && answers[at] != Answer::Done(true) ==> refused
        }),
    decreases answers.len(),
{
    if answers.len() > 0 {
        let rest = answers.drop_last();
        ladders_end_as_the_vehicle_answers(armed, position, rest);
        let home = if armed {
            None
        } else {
            position
        };
        arming_follows_the_ground_check(armed, home, rest);
        assert(rest.len() > 0 ==> rest[0] == answers[0]);
        assert(rest.len() > 1 ==> rest[1] == answers[1]);
        assert(rest.len() > 2 ==> rest[2] == answers[2]);
        assert(rest.len() > 3 ==> rest[3] == answers[3]);
    }
}

/// The altitude answer reads the ground.
pub open spec fn grounded(answers: Seq<Answer>) -> bool {
    answers.len() > 1 && match answers[1] {
        Answer::Altitude(Some(alt)) => !(Real { bits: GROUND_TOLERANCE_BITS }).below(
            alt.magnitude,
        ),
        _ => false,
    }
}

// ---------------------------------------------------------------------------
// the climb
// ---------------------------------------------------------------------------

/// After this long the vehicle must have gained height, nanoseconds.
pub const CLIMB_CHECK_WINDOW_NS: u64 = 12_000_000_000;

/// Overall takeoff budget, nanoseconds.
pub const AIRBORNE_TIMEOUT_NS: u64 = 120_000_000_000;

/// Bits of 1.0: the least gain in the check window, metres.
pub const CLIMB_MIN_GAIN_BITS: u64 = 0x3ff0_0000_0000_0000;

/// How a climb goes.
#[derive(Clone, Copy, Debug, PartialEq, Eq, Structural)]
pub enum Climb {
    /// Keep polling.
    Rising,
    Airborne,
    /// Another command took the vehicle.
    Interrupted,
    /// No observed climb: the altitude source is suspect.
    Stalled,
    TimedOut,
}

/// One poll of a climb. `agl` is the altitude, `settle_at` the altitude from
/// which the climb counts as done, `gain` the height won so far.
pub fn climb_poll(interrupted: bool, agl: Real, settle_at: Real, gain: Real, elapsed_ns: u64) -> (r:
    Climb)
    ensures
        r == (if interrupted {
            Climb::Interrupted
        } else if settle_at.at_most(agl) {
            Climb::Airborne
        } else if elapsed_ns > CLIMB_CHECK_WINDOW_NS && gain.below(
            Real { bits: CLIMB_MIN_GAIN_BITS },
        ) {
            Climb::Stalled
        } else if elapsed_ns > AIRBORNE_TIMEOUT_NS {
            Climb::TimedOut
        } else {
            Climb::Rising
        }),
        r == Climb::Interrupted <==> interrupted,
        r == Climb::Airborne <==> !interrupted && !settle_at.is_nan() && !agl.is_nan()
            && settle_at.key() <= agl.key(),
        r == Climb::Stalled ==> elapsed_ns > 12_000_000_000 && !gain.is_nan() && gain.key() < (
        Real { bits: 0x3ff0_0000_0000_0000 }).key(),
        r == Climb::TimedOut ==> elapsed_ns > 120_000_000_000,
        r == Climb::Rising ==> elapsed_ns <= 120_000_000_000 && (elapsed_ns <= 12_000_000_000
            || gain.is_nan() || gain.key() >= (Real { bits: 0x3ff0_0000_0000_0000 }).key()),
{
    if interrupted {
        return Climb::Interrupted;
    }
    if settle_at.le(&agl) {
        return Climb::Airborne;
    }
    if elapsed_ns > CLIMB_CHECK_WINDOW_NS && gain.lt(&Real { bits: CLIMB_MIN_GAIN_BITS }) {
        return Climb::Stalled;
    }
    if elapsed_ns > AIRBORNE_TIMEOUT_NS {
        Climb::TimedOut
    } else {
        Climb::Rising
    }
}

// ---------------------------------------------------------------------------
// stick input of the bench vehicle
// ---------------------------------------------------------------------------

/// Deflection of a stick channel from its center, microseconds. Values that
/// are no pulse width (release, ignore) read as centered.
pub fn stick_offset(channel: u16) -> (r: i32)
    ensures
        r == (if 1000 <= channel <= 2000 {
            channel - 1500
        } else {
            0
        }),
        -500 <= r <= 500,
{
    if 1000 <= channel && channel <= 2000 {
        channel as i32 - 1500
    } else {
        0
    }
}

} // verus!
