use caffeinator::steps::{after_answer, next_step, Reply, Step};

#[test]
fn sessions_are_asked_about_in_order() {
    assert_eq!(next_step(0, 2, false), Step::Ask(0));
    assert_eq!(next_step(1, 2, true), Step::Ask(1));
}

#[test]
fn after_the_last_session_launch_unless_check_only() {
    assert_eq!(next_step(0, 0, false), Step::Launch);
    assert_eq!(next_step(0, 0, true), Step::Finish);
    assert_eq!(next_step(2, 2, false), Step::Launch);
    assert_eq!(next_step(2, 2, true), Step::Finish);
}

#[test]
fn yes_kills_and_goes_on() {
    assert_eq!(after_answer(0, 2, true, false), Reply { kill: true, next: Step::Ask(1) });
    assert_eq!(after_answer(1, 2, true, false), Reply { kill: true, next: Step::Launch });
    assert_eq!(after_answer(1, 2, true, true), Reply { kill: true, next: Step::Finish });
}

#[test]
fn anything_else_stops_without_killing() {
    assert_eq!(after_answer(0, 2, false, false), Reply { kill: false, next: Step::Finish });
    assert_eq!(after_answer(1, 2, false, true), Reply { kill: false, next: Step::Finish });
}
