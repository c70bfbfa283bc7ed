use blockchain_from_scratch::activity::{
    get_day_of_week, Activity, Assignment, DayOfWeek, Identity, State, Track, Transition,
};

#[test]
fn the_calendar_is_stuck_on_wednesday() {
    assert_eq!(get_day_of_week(), DayOfWeek::Wednesday);
}

#[test]
fn a_rational_developer_decides_to_code() {
    let start = State {
        personal_identity: Identity::RationalUtilityMaximizer,
        track: Track::Developer,
        activity: Activity::AttendEvent,
    };
    let end = State::next_state(&start, &Transition::DecideOnNextCourseOfAction);
    assert_eq!(end.personal_identity, Identity::RationalUtilityMaximizer);
    assert_eq!(end.track, Track::Developer);
    assert_eq!(end.activity, Activity::Code { assignment: Assignment::BlockchainFromScratch });
}

#[test]
fn a_founder_attends_an_event_instead() {
    let start = State {
        personal_identity: Identity::RationalUtilityMaximizer,
        track: Track::Founder,
        activity: Activity::AttendEvent,
    };
    let end = State::next_state(&start, &Transition::DecideOnNextCourseOfAction);
    assert_eq!(end.activity, Activity::AttendEvent);
}

#[test]
fn coding_on_a_wednesday_means_the_blockchain_assignment() {
    let start = State {
        personal_identity: Identity::RationalUtilityMaximizer,
        track: Track::Developer,
        activity: Activity::AttendEvent,
    };
    let end = State::next_state(&start, &Transition::Code);
    assert_eq!(end.activity, Activity::Code { assignment: Assignment::BlockchainFromScratch });
}

#[test]
fn day_dreaming_has_a_fixed_topic() {
    let start = State {
        personal_identity: Identity::RationalUtilityMaximizer,
        track: Track::Developer,
        activity: Activity::AttendEvent,
    };
    let end = State::next_state(&start, &Transition::DayDream);
    assert_eq!(
        end.activity,
        Activity::DayDream { topic: String::from("Find optimal use-case for Substrate") }
    );
}
