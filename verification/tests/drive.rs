use bot_go_brr::algor::Algor;
use bot_go_brr::button::ButtonArg;
use bot_go_brr::config::{CONTROLLER_STICK_MIN, MotorConfig};
use bot_go_brr::drive::drive_state::{calculate_voltage, DriveState, JoyStick};
use bot_go_brr::drive::{drive_state, Drive, DriveArg};
use bot_go_brr::utils::{decimal, digit};

fn sides(left: i8, right: i8) -> Drive {
    Drive { motor1: left, motor2: right, motor3: left, motor4: right }
}

#[test]
fn motor_power_of_each_command() {
    let b = ButtonArg::Null;
    let run = |arg: DriveArg| {
        let mut drive = Drive::new();
        drive.drive(arg);
        drive
    };
    assert_eq!(Drive::new(), sides(0, 0));
    assert_eq!(run(DriveArg::Forward(b, false)), sides(127, 127));
    assert_eq!(run(DriveArg::Forward(b, true)), sides(76, 76));
    assert_eq!(run(DriveArg::Backward(b, false)), sides(-114, -114));
    assert_eq!(run(DriveArg::Backward(b, true)), sides(-68, -68));
    assert_eq!(run(DriveArg::Left(b, false)), sides(-76, 76));
    assert_eq!(run(DriveArg::Left(b, true)), sides(-45, 45));
    assert_eq!(run(DriveArg::Right(b, false)), sides(76, -76));
    assert_eq!(run(DriveArg::Right(b, true)), sides(45, -45));
    assert_eq!(run(DriveArg::Stop(b, true)), sides(0, 0));
}

#[test]
fn stall_leaves_the_motors_alone_and_stop_rests_them() {
    let mut drive = Drive::new();
    drive.forwards(false);
    let moving = drive;
    DriveArg::Stall(ButtonArg::A, false).execute(&mut drive);
    assert_eq!(drive, moving);
    DriveArg::Stop(ButtonArg::A, false).execute(&mut drive);
    assert_eq!(drive, sides(0, 0));
}

#[test]
fn drive_methods() {
    let mut drive = Drive::new();
    drive.left(false);
    assert_eq!(drive, sides(-76, 76));
    drive.right(true);
    assert_eq!(drive, sides(45, -45));
    drive.backwards(false);
    assert_eq!(drive, sides(-114, -114));
    drive.forwards(true);
    assert_eq!(drive, sides(76, 76));
    drive.stop();
    assert_eq!(drive, sides(0, 0));
}

#[test]
fn table_of_a_routine() {
    let forward = DriveArg::Forward(ButtonArg::Null, true);
    let left = DriveArg::Left(ButtonArg::A, false);
    let algor = Algor::generate(&vec![(forward, 2), (left, 0), (left, 3)]);
    assert_eq!(algor.get(&0), Some(forward));
    assert_eq!(algor.get(&1), Some(forward));
    assert_eq!(algor.get(&2), Some(left));
    assert_eq!(algor.get(&4), Some(left));
    assert_eq!(algor.get(&5), None);
    assert_eq!(algor.get(&u128::MAX), None);
    assert_eq!(algor.get(&(1u128 << 64)), None);
}

#[test]
fn table_of_an_empty_routine() {
    let algor = Algor::generate(&Vec::new());
    assert_eq!(algor.get(&0), None);
}

#[test]
fn table_hands_out_normalized_commands() {
    let algor = Algor::generate(&vec![(DriveArg::Stop(ButtonArg::A, true), 1)]);
    assert_eq!(algor.get(&0), Some(DriveArg::Stop(ButtonArg::A, false)));
}

#[test]
fn routine_before_a_match() {
    let algor = Algor::autonomous();
    for tick in 0..30u128 {
        assert_eq!(algor.get(&tick), Some(DriveArg::Forward(ButtonArg::Null, true)));
    }
    assert_eq!(algor.get(&30), None);
}

#[test]
fn stick_drift_is_removed() {
    assert_eq!(JoyStick { x: 9, y: -9 }.clamp(10), JoyStick { x: 0, y: 0 });
    assert_eq!(JoyStick { x: 10, y: -10 }.clamp(10), JoyStick { x: 10, y: -10 });
    assert_eq!(JoyStick { x: -128, y: 5 }.clamp(10), JoyStick { x: -128, y: 0 });
    assert_eq!(JoyStick { x: 3, y: 4 }.clamp(0), JoyStick { x: 3, y: 4 });
    assert_eq!(JoyStick { x: 127, y: -128 }.clamp(255), JoyStick { x: 0, y: 0 });
}

#[test]
fn dominant_axis() {
    assert!(JoyStick { x: -50, y: 49 }.x_larger());
    assert!(!JoyStick { x: 50, y: 50 }.x_larger());
    assert!(!JoyStick { x: 127, y: -128 }.x_larger());
    assert!(JoyStick { x: -128, y: 127 }.x_larger());
}

#[test]
fn movement_from_stick_and_buttons() {
    let ask = |x: i8, y: i8, l2: bool, r2: bool| drive_state::DriveArg::new(JoyStick { x, y }, l2, r2);
    assert_eq!(ask(0, 0, false, false), vec![]);
    assert_eq!(ask(0, 100, false, false), vec![drive_state::DriveArg::Forward(100)]);
    assert_eq!(ask(0, -100, true, true), vec![drive_state::DriveArg::Backward(100)]);
    assert_eq!(ask(60, 20, false, true), vec![drive_state::DriveArg::TRight(60)]);
    assert_eq!(ask(-60, 20, false, false), vec![drive_state::DriveArg::TLeft(60)]);
    assert_eq!(ask(-128, 0, false, false), vec![drive_state::DriveArg::TLeft(128)]);
    assert_eq!(ask(0, -128, false, false), vec![drive_state::DriveArg::Backward(128)]);
    assert_eq!(ask(40, 40, false, false), vec![drive_state::DriveArg::Forward(40)]);
    assert_eq!(ask(0, 0, true, true), vec![drive_state::DriveArg::SLeft]);
    assert_eq!(ask(0, 0, false, true), vec![drive_state::DriveArg::SRight]);
    let below = CONTROLLER_STICK_MIN as i8 - 1;
    assert_eq!(ask(below, -below, false, true), vec![drive_state::DriveArg::SRight]);
    assert_eq!(ask(below + 1, 0, true, false), vec![drive_state::DriveArg::TRight(10)]);
    assert_eq!(ask(below, 50, true, false), vec![drive_state::DriveArg::Forward(50)]);
}

#[test]
fn voltage_of_a_stick_reading() {
    assert_eq!(calculate_voltage(127, 100), 2147483647);
    assert_eq!(calculate_voltage(127, 50), 1073741823);
    assert_eq!(calculate_voltage(255, 100), 2147483647);
    assert_eq!(calculate_voltage(64, 60), 649317890);
    assert_eq!(calculate_voltage(10, 90), 152183880);
    assert_eq!(calculate_voltage(0, 100), 0);
    assert_eq!(calculate_voltage(127, 0), 0);
    assert_eq!(calculate_voltage(1, 1), 169093);
    assert_eq!(calculate_voltage(127, 200), 2147483647);
    assert_eq!(calculate_voltage(127, 60), 1288490188);
}

#[test]
fn voltage_agrees_with_the_floating_point_formula() {
    for percent in 0..=255u8 {
        for stick in 0..=255u8 {
            let expected = (i32::MAX as f64
                * (percent.clamp(0, 100) as f64 / 100f64)
                * (stick as f64 / i8::MAX as f64))
                .clamp(i32::MIN as f64, i32::MAX as f64) as i32;
            assert_eq!(calculate_voltage(stick, percent), expected);
        }
    }
}

#[test]
fn motor_voltages_of_each_movement() {
    let of = |arg: drive_state::DriveArg| DriveState::new(&[arg]);
    let state = |l1: i32, l2: i32, r1: i32, r2: i32| DriveState { l1, l2, r1, r2 };
    let full = 2147483647;
    let back = calculate_voltage(127, 90);
    let turn = 1288490188;
    assert_eq!(DriveState::new(&[]), state(0, 0, 0, 0));
    assert_eq!(of(drive_state::DriveArg::Forward(127)), state(full, full, full, full));
    assert_eq!(of(drive_state::DriveArg::Backward(127)), state(-back, -back, -back, -back));
    assert_eq!(back, 1932735282);
    assert_eq!(of(drive_state::DriveArg::TLeft(127)), state(-turn, -turn, turn, turn));
    assert_eq!(of(drive_state::DriveArg::TRight(127)), state(turn, turn, -turn, -turn));
    assert_eq!(of(drive_state::DriveArg::SLeft), state(turn, -turn, -turn, turn));
    assert_eq!(of(drive_state::DriveArg::SRight), state(-turn, turn, turn, -turn));
    assert_eq!(of(drive_state::DriveArg::Forward(0)), state(0, 0, 0, 0));
}

#[test]
fn last_movement_overrides() {
    let args = [
        drive_state::DriveArg::Forward(127),
        drive_state::DriveArg::SLeft,
        drive_state::DriveArg::TRight(64),
    ];
    let v = 649317890;
    assert_eq!(DriveState::new(&args), DriveState { l1: v, l2: v, r1: -v, r2: -v });
}

#[test]
fn numbers_as_text() {
    assert_eq!(decimal(0), "0");
    assert_eq!(decimal(7), "7");
    assert_eq!(decimal(10), "10");
    assert_eq!(decimal(1090), "1090");
    assert_eq!(decimal(u64::MAX), "18446744073709551615");
    for d in 0..10u64 {
        assert_eq!(digit(d), format!("{}", d));
    }
}

#[test]
fn motor_wiring() {
    let config = MotorConfig { port: 12, reverse: false };
    assert_eq!(config.port, 12);
    assert!(!config.reverse);
}
