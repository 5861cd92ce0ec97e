use bot_go_brr::bot::Robot;
use bot_go_brr::bytecode::{compile, execute, ByteCode};
use bot_go_brr::{append_slice, reverse_in_place};

fn left(voltage: i32) -> ByteCode {
    ByteCode::LeftDrive { voltage }
}

fn right(voltage: i32) -> ByteCode {
    ByteCode::RightDrive { voltage }
}

fn belt(voltage: i32) -> ByteCode {
    ByteCode::Belt { voltage }
}

fn intake(voltage: i32) -> ByteCode {
    ByteCode::Intake { voltage }
}

/// Plays `routine`, given in playing order, until it is over or `limit`
/// ticks have passed; gives what each tick applied.
fn play(routine: Vec<ByteCode>, limit: usize) -> Vec<Vec<ByteCode>> {
    let mut stack = reverse_in_place(routine);
    let mut ticks = Vec::new();
    while !stack.is_empty() && ticks.len() < limit {
        let mut sink = Vec::new();
        execute(&mut stack, &mut sink);
        ticks.push(sink);
    }
    ticks
}

#[test]
fn routine_is_over_on_the_first_tick() {
    let mut stack = reverse_in_place(vec![left(5), ByteCode::Cycle(0)]);
    assert_eq!(stack, vec![ByteCode::Cycle(0), left(5)]);
    let mut sink = Vec::new();
    execute(&mut stack, &mut sink);
    assert_eq!(sink, vec![left(5)]);
    assert!(stack.is_empty());
}

#[test]
fn empty_stack_applies_nothing() {
    let mut stack: Vec<ByteCode> = Vec::new();
    let mut sink = vec![belt(1)];
    execute(&mut stack, &mut sink);
    assert!(stack.is_empty());
    assert_eq!(sink, vec![belt(1)]);
}

#[test]
fn routine_without_a_cycle_runs_out_in_one_tick() {
    let mut stack = reverse_in_place(vec![left(1), right(2), belt(3), intake(4)]);
    let mut sink = Vec::new();
    execute(&mut stack, &mut sink);
    assert_eq!(sink, vec![left(1), right(2), belt(3), intake(4)]);
    assert!(stack.is_empty());
}

#[test]
fn outputs_are_appended_to_what_the_sink_holds() {
    let mut stack = reverse_in_place(vec![right(-7), ByteCode::Cycle(3), left(1)]);
    let mut sink = vec![belt(9)];
    execute(&mut stack, &mut sink);
    assert_eq!(sink, vec![belt(9), right(-7)]);
    assert_eq!(stack, vec![left(1), ByteCode::Cycle(2)]);
}

#[test]
fn cycle_zero_is_taken_off_and_ends_the_tick() {
    let mut stack = vec![left(1), ByteCode::Cycle(0)];
    let mut sink = Vec::new();
    execute(&mut stack, &mut sink);
    assert!(sink.is_empty());
    assert_eq!(stack, vec![left(1)]);
}

#[test]
fn cycle_counts_down_by_one_per_tick() {
    let mut stack = vec![left(1), ByteCode::Cycle(u32::MAX)];
    let mut sink = Vec::new();
    execute(&mut stack, &mut sink);
    assert!(sink.is_empty());
    assert_eq!(stack, vec![left(1), ByteCode::Cycle(u32::MAX - 1)]);
}

#[test]
fn cycle_takes_one_tick_more_than_its_count() {
    for n in [0u32, 1, 2, 7] {
        let mut stack = reverse_in_place(vec![ByteCode::Cycle(n), left(42)]);
        for call in 0..=n {
            let mut sink = Vec::new();
            execute(&mut stack, &mut sink);
            assert!(sink.is_empty());
            if call < n {
                assert_eq!(stack, vec![left(42), ByteCode::Cycle(n - call - 1)]);
            }
        }
        assert_eq!(stack, vec![left(42)]);
        let mut sink = Vec::new();
        execute(&mut stack, &mut sink);
        assert_eq!(sink, vec![left(42)]);
        assert!(stack.is_empty());
    }
}

#[test]
fn several_outputs_share_a_tick() {
    let ticks = play(
        vec![left(100), right(100), ByteCode::Cycle(1), left(0), right(0), belt(12000)],
        100,
    );
    assert_eq!(
        ticks,
        vec![vec![left(100), right(100)], vec![], vec![left(0), right(0), belt(12000)]]
    );
}

#[test]
fn playback_repeats_itself() {
    let routine = vec![
        left(3000),
        right(-3000),
        ByteCode::Cycle(4),
        belt(12000),
        ByteCode::Cycle(0),
        ByteCode::Cycle(2),
        intake(-1),
        left(0),
        right(0),
    ];
    let first = play(routine.clone(), 1000);
    let second = play(routine.clone(), 1000);
    assert_eq!(first, second);
    assert_eq!(first.len(), 10);
    assert_eq!(first[0], vec![left(3000), right(-3000)]);
    assert_eq!(first[5], vec![belt(12000)]);
    assert_eq!(first[9], vec![intake(-1), left(0), right(0)]);
    assert_eq!(routine.len(), 9);
}

#[test]
fn reversing_and_appending() {
    assert_eq!(reverse_in_place(vec![1, 2, 3, 4, 5]), vec![5, 4, 3, 2, 1]);
    assert_eq!(reverse_in_place(vec![1, 2, 3, 4]), vec![4, 3, 2, 1]);
    assert_eq!(reverse_in_place(vec![7]), vec![7]);
    assert_eq!(reverse_in_place(Vec::<u8>::new()), Vec::<u8>::new());
    let mut vec = vec![1, 2];
    append_slice(&mut vec, &[3, 4, 5]);
    assert_eq!(vec, vec![1, 2, 3, 4, 5]);
    append_slice(&mut vec, &[]);
    assert_eq!(vec, vec![1, 2, 3, 4, 5]);
}

#[test]
fn autonomous_plays_the_routine_and_then_reports_its_end() {
    let mut robot = Robot::new(vec![left(5), ByteCode::Cycle(1), right(6)]);
    let mut sink = Vec::new();
    assert!(!robot.autonomous(&mut sink));
    assert_eq!(sink, vec![left(5)]);
    assert!(!robot.autonomous(&mut sink));
    assert_eq!(sink, vec![left(5)]);
    assert!(!robot.autonomous(&mut sink));
    assert_eq!(sink, vec![left(5), right(6)]);
    assert!(robot.autonomous(&mut sink));
    assert!(robot.autonomous(&mut sink));
    assert_eq!(sink, vec![left(5), right(6)]);
}

#[test]
fn autonomous_with_an_empty_routine_is_over_at_once() {
    let mut robot = Robot::new(Vec::new());
    let mut sink = Vec::new();
    assert!(robot.autonomous(&mut sink));
    assert!(sink.is_empty());
}

#[test]
fn opcontrol_rests_everything_and_then_applies_the_tick() {
    let mut robot = Robot::new(vec![ByteCode::Cycle(50), left(1)]);
    let mut sink = Vec::new();
    let done = robot.opcontrol(&[left(8000), right(-8000)], true, false, &mut sink);
    assert!(!done);
    assert_eq!(
        sink,
        vec![
            intake(0),
            belt(0),
            right(0),
            left(0),
            intake(12000),
            belt(12000),
            right(-8000),
            left(8000),
        ]
    );
    let mut after = Vec::new();
    assert!(robot.autonomous(&mut after));
}

#[test]
fn opcontrol_buttons() {
    let tail = |x: bool, b: bool| {
        let mut robot = Robot::new(Vec::new());
        let mut sink = Vec::new();
        robot.opcontrol(&[], x, b, &mut sink);
        sink.split_off(4)
    };
    assert_eq!(tail(true, true), vec![intake(12000), belt(12000)]);
    assert_eq!(tail(true, false), vec![intake(12000), belt(12000)]);
    assert_eq!(tail(false, true), vec![intake(12000), belt(-12000)]);
    assert_eq!(tail(false, false), vec![intake(0), belt(0)]);
}

#[test]
fn opcontrol_stops_at_a_cycle_among_the_drive_instructions() {
    let mut robot = Robot::new(Vec::new());
    let mut sink = Vec::new();
    robot.opcontrol(&[left(1), ByteCode::Cycle(2), right(2)], false, false, &mut sink);
    assert_eq!(
        sink,
        vec![intake(0), belt(0), right(0), left(0), intake(0), belt(0), right(2)]
    );
    let mut next = Vec::new();
    assert!(!robot.autonomous(&mut next));
    assert!(next.is_empty());
}

#[test]
fn compiled_routine_is_laid_out_and_turned_round() {
    let stack = compile(&[(left(1), 2), (ByteCode::Cycle(3), 1), (right(2), 0), (belt(4), 1)]);
    assert_eq!(stack, vec![belt(4), ByteCode::Cycle(3), left(1), left(1)]);
    assert_eq!(compile(&[]), vec![]);
}

#[test]
fn compiled_routine_plays_in_the_order_written() {
    let mut stack = compile(&[(left(5), 1), (ByteCode::Cycle(0), 2), (right(6), 1)]);
    let mut ticks = Vec::new();
    while !stack.is_empty() {
        let mut sink = Vec::new();
        execute(&mut stack, &mut sink);
        ticks.push(sink);
    }
    assert_eq!(ticks, vec![vec![left(5)], vec![], vec![right(6)]]);
}
