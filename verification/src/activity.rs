//! A scripted daily-activity state machine.
//!
//! A person with an identity and a track moves between activities: deciding
//! what to do next, coding an assignment chosen by the day of the week, or
//! day-dreaming about a topic.

use vstd::prelude::*;

use vstd::string::StringExecFns;

verus! {

/// Who the person is.
#[derive(Clone, Copy, PartialEq, Eq, Structural, Debug)]
pub enum Identity {
    RationalUtilityMaximizer,
}

/// The assignment being worked on.
#[derive(Clone, Copy, PartialEq, Eq, Structural, Debug)]
pub enum Assignment {
    BlockchainFromScratch,
    AssignmentTwo,
}

/// The track the person follows.
#[derive(Clone, Copy, PartialEq, Eq, Structural, Debug)]
pub enum Track {
    Founder,
    Developer,
}

/// What the person is doing.
#[derive(Clone, PartialEq, Eq, Debug)]
pub enum Activity {
    Code { assignment: Assignment },
    AttendEvent,
    DayDream { topic: String },
}

/// The person's state: who they are, what track they follow, and what they
/// are doing right now.
#[derive(Clone, PartialEq, Eq, Debug)]
pub struct State {
    pub personal_identity: Identity,
    pub track: Track,
    pub activity: Activity,
}

/// What can happen to the person.
#[derive(Clone, Copy, PartialEq, Eq, Debug)]
pub enum Transition {
    DecideOnNextCourseOfAction,
    Code,
    DayDream,
}

/// The day of the week.
#[derive(Clone, Copy, PartialEq, Eq, Structural, Debug)]
pub enum DayOfWeek {
    Thursday,
    Wednesday,
    Friday,
}

/// What day it is. The calendar is scripted: it is always Wednesday.
pub fn get_day_of_week() -> (day: DayOfWeek)
    ensures
        day == DayOfWeek::Wednesday,
{
    DayOfWeek::Wednesday
}

impl State {
    /// The state after `transition` happens in `initial_state`: identity and
    /// track never change, and the activity becomes what the transition
    /// dictates — deciding sends a rational developer to code the blockchain
    /// assignment and everyone else to an event; coding picks the assignment
    /// by the day of the week (always Wednesday, hence always the blockchain
    /// assignment); day-dreaming picks a fixed topic.
    pub fn next_state(initial_state: &State, transition: &Transition) -> (end: State)
        ensures
            end.personal_identity == initial_state.personal_identity,
            end.track == initial_state.track,
            match *transition {
                Transition::DecideOnNextCourseOfAction => if initial_state.personal_identity
                    == Identity::RationalUtilityMaximizer && initial_state.track
                    == Track::Developer {
                    end.activity == (Activity::Code { assignment: Assignment::BlockchainFromScratch
                    })
                } else {
                    end.activity == Activity::AttendEvent
                },
                Transition::Code => end.activity == (Activity::Code {
                    assignment: Assignment::BlockchainFromScratch,
                }),
                Transition::DayDream => end.activity matches Activity::DayDream { topic } && topic@
                    == "Find optimal use-case for Substrate"@,
            },
    {
        let activity: Activity = match transition {
            Transition::DecideOnNextCourseOfAction => {
                if initial_state.personal_identity == Identity::RationalUtilityMaximizer
                    && initial_state.track == Track::Developer {
                    Activity::Code { assignment: Assignment::BlockchainFromScratch }
                } else {
                    Activity::AttendEvent
                }
            },
            Transition::Code => match get_day_of_week() {
                DayOfWeek::Wednesday => Activity::Code {
                    assignment: Assignment::BlockchainFromScratch,
                },
                DayOfWeek::Thursday | DayOfWeek::Friday => Activity::Code {
                    assignment: Assignment::AssignmentTwo,
                },
            },
            Transition::DayDream => Activity::DayDream {
                topic: String::from_str("Find optimal use-case for Substrate"),
            },
        };
        State {
            personal_identity: initial_state.personal_identity,
            track: initial_state.track,
            activity,
        }
    }
}

} // verus!
