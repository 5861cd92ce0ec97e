use bot_go_brr::button::ButtonArg;
use bot_go_brr::drive::DriveArg;

fn every_command() -> Vec<DriveArg> {
    let mut all = Vec::new();
    for button in [ButtonArg::Null, ButtonArg::A] {
        for precise in [false, true] {
            all.push(DriveArg::Forward(button, precise));
            all.push(DriveArg::Backward(button, precise));
            all.push(DriveArg::Left(button, precise));
            all.push(DriveArg::Right(button, precise));
            all.push(DriveArg::Stop(button, precise));
            all.push(DriveArg::Stall(button, precise));
        }
    }
    all
}

fn is_stop(arg: &DriveArg) -> bool {
    matches!(arg, DriveArg::Stop(_, _))
}

#[test]
fn stop_gives_way_on_either_side() {
    let stop = DriveArg::Stop(ButtonArg::Null, false);
    let forward = DriveArg::Forward(ButtonArg::A, true);
    assert_eq!(DriveArg::add(stop, forward), forward);
    assert_eq!(DriveArg::add(forward, stop), forward);
}

#[test]
fn stop_is_identity_for_every_moving_command() {
    for stop in every_command().into_iter().filter(is_stop) {
        for x in every_command() {
            assert_eq!(DriveArg::add(x, stop), x);
            if !is_stop(&x) || x == stop {
                assert_eq!(DriveArg::add(stop, x), x);
            }
        }
    }
}

#[test]
fn two_stops_merge_to_the_first() {
    let first = DriveArg::Stop(ButtonArg::A, false);
    let second = DriveArg::Stop(ButtonArg::Null, false);
    assert_eq!(DriveArg::add(first, second), first);
    assert_eq!(DriveArg::add(second, first), second);
}

#[test]
fn different_moving_commands_stall() {
    let stall = DriveArg::Stall(ButtonArg::Null, false);
    for x in every_command() {
        for y in every_command() {
            if !is_stop(&x) && !is_stop(&y) && x != y {
                assert_eq!(DriveArg::add(x, y), stall);
            }
        }
    }
}

#[test]
fn same_direction_with_different_precision_stalls() {
    let left = DriveArg::Forward(ButtonArg::A, false);
    let right = DriveArg::Forward(ButtonArg::A, true);
    assert_eq!(DriveArg::add(left, right), DriveArg::Stall(ButtonArg::Null, false));
}

#[test]
fn equal_commands_merge_to_themselves() {
    for x in every_command() {
        assert_eq!(DriveArg::add(x, x), x);
    }
}

#[test]
fn merge_is_symmetric_apart_from_two_stops() {
    for x in every_command() {
        for y in every_command() {
            if !(is_stop(&x) && is_stop(&y)) {
                assert_eq!(DriveArg::add(x, y), DriveArg::add(y, x));
            }
        }
    }
}

#[test]
fn stall_is_not_stop() {
    let stall = DriveArg::add(
        DriveArg::Left(ButtonArg::Null, false),
        DriveArg::Right(ButtonArg::Null, false),
    );
    assert_ne!(stall, DriveArg::Stop(ButtonArg::Null, false));
    assert!(matches!(stall, DriveArg::Stall(ButtonArg::Null, false)));
}

#[test]
fn button_and_copy_of_a_command() {
    let arg = DriveArg::Stop(ButtonArg::A, true);
    assert_eq!(*arg.get_button(), ButtonArg::A);
    assert_eq!(arg.duplicate(), DriveArg::Stop(ButtonArg::A, false));
    assert_eq!(
        DriveArg::Stall(ButtonArg::Null, true).duplicate(),
        DriveArg::Stall(ButtonArg::Null, false)
    );
    let moving = DriveArg::Right(ButtonArg::A, true);
    assert_eq!(moving.duplicate(), moving);
    assert_eq!(ButtonArg::A.duplicate(), ButtonArg::A);
}

#[test]
fn names_of_a_command() {
    assert_eq!(DriveArg::Forward(ButtonArg::A, true).to_strings(), ("Forward", "A", true));
    assert_eq!(DriveArg::Backward(ButtonArg::Null, false).to_strings(), ("Backward", "Null", false));
    assert_eq!(DriveArg::Left(ButtonArg::Null, true).to_strings(), ("Left", "Null", true));
    assert_eq!(DriveArg::Right(ButtonArg::A, false).to_strings(), ("Right", "A", false));
    assert_eq!(DriveArg::Stop(ButtonArg::A, true).to_strings(), ("Stop", "A", false));
    assert_eq!(DriveArg::Stall(ButtonArg::Null, true).to_strings(), ("Stall", "Null", false));
}

#[test]
fn report_line_of_a_command() {
    assert_eq!(
        DriveArg::Forward(ButtonArg::A, true).log(&1205),
        "[1205] Drive Arg: Forward(A) Precise: true"
    );
    assert_eq!(
        DriveArg::Stop(ButtonArg::Null, true).log(&0),
        "[0] Drive Arg: Stop(Null) Precise: false"
    );
    assert_eq!(
        DriveArg::Left(ButtonArg::Null, false).log(&4294967295),
        "[4294967295] Drive Arg: Left(Null) Precise: false"
    );
}
