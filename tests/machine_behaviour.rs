use aoc2019::intcode::{Machine, MachineState, OperationalError, ParseError};

#[test]
fn scenario_add_multiply_program() {
    let mut m = Machine::from_str("1,9,10,3,2,3,11,0,99,30,40,50").unwrap();
    assert_eq!(Ok(()), m.run());
    assert_eq!(3500, m.memory()[0]);
    assert_eq!(MachineState::Halted, m.state());
}

#[test]
fn scenario_echo_input() {
    let mut m = Machine::from_str("3,0,4,0,99").unwrap();
    m.write(42);
    m.run().unwrap();
    assert_eq!(vec![42], m.read());
    assert_eq!(MachineState::Halted, m.state());
}

#[test]
fn scenario_blocking_inputs() {
    let mut m = Machine::from_str("3,7,3,8,3,9,99,0,0,0").unwrap();
    m.run().unwrap();
    assert_eq!(MachineState::Blocked, m.state());
    m.write(10);
    m.run().unwrap();
    assert_eq!(MachineState::Blocked, m.state());
    m.write(20);
    m.write(30);
    m.run().unwrap();
    assert_eq!(MachineState::Halted, m.state());
    assert_eq!(&[10, 20, 30], &m.memory()[7..10]);
}

#[test]
fn scenario_relative_base() {
    let mut m = Machine::from_str("109,4,99").unwrap();
    m.run().unwrap();
    assert_eq!(4, m.relative_base());
}

#[test]
fn scenario_large_literal() {
    let mut m = Machine::from_str("104,1125899906842624,99").unwrap();
    m.run().unwrap();
    assert_eq!(vec![1125899906842624], m.read());
}

#[test]
fn same_snapshot_runs_alike() {
    let base = Machine::from_str("3,9,8,9,10,9,4,9,99,-1,8").unwrap();
    let mut a = base.clone();
    let mut b = base.clone();
    a.write(8);
    b.write(8);
    assert_eq!(a.run(), b.run());
    assert_eq!(a.memory(), b.memory());
    assert_eq!(a.state(), b.state());
    assert_eq!(a.read(), b.read());
}

#[test]
fn load_then_read_gives_text_back() {
    let mut m = Machine::from_str(" 5 ,-7,\t1125899906842624 ,+3").unwrap();
    assert_eq!(&[5, -7, 1125899906842624, 3], m.memory());
    assert_eq!(Ok(&-7), m.get(1usize));
    assert_eq!(Ok(&0), m.get(4usize));
}

#[test]
fn drain_twice_gives_nothing_second_time() {
    let mut m = Machine::from_str("104,1,104,2,99").unwrap();
    m.run().unwrap();
    assert_eq!(2, m.peek());
    assert_eq!(vec![1, 2], m.read());
    assert_eq!(0, m.peek());
    assert_eq!(Vec::<i64>::new(), m.read());
}

#[test]
fn write_past_end_grows_exactly() {
    let mut m = Machine::from_slots(vec![1, 2]);
    m.set(6usize, 9).unwrap();
    assert_eq!(&[1, 2, 0, 0, 0, 0, 9], m.memory());
    assert_eq!(Ok(&0), m.get(9i64));
    assert_eq!(10, m.memory().len());
}

#[test]
fn negative_cell_address_is_refused() {
    let mut m = Machine::from_slots(vec![1, 2]);
    assert_eq!(Err(OperationalError::NegativeAddress(-1)), m.set(-1i64, 3));
    assert_eq!(Err(OperationalError::NegativeAddress(-2)), m.get(-2i32));
    assert_eq!(Err(OperationalError::OutOfRange(usize::MAX)), m.get(usize::MAX));
    assert_eq!(&[1, 2], m.memory());
}

#[test]
fn not_an_integer_names_the_token() {
    match Machine::from_str("1,2, x3 ,4") {
        Err(ParseError::NotAnInteger(t)) => assert_eq!(" x3 ", t),
        Ok(_) => panic!("text with a word parsed"),
    }
    assert!(Machine::from_str("1,,2").is_err());
    assert!(Machine::from_str("-").is_err());
    assert!(Machine::from_str("9223372036854775808").is_err());
    assert_eq!(
        &[i64::MIN],
        Machine::from_str("-9223372036854775808").unwrap().memory()
    );
}

#[test]
fn invalid_opcode_is_reported_without_change() {
    let mut m = Machine::from_slots(vec![1, 0, 0, 0, 42]);
    assert_eq!(Err(OperationalError::InvalidOpcode(42)), m.run());
    assert_eq!(4, m.pointer());
    assert_eq!(2, m.memory()[0]);
    assert_eq!(1, m.instruction_counter());
}

#[test]
fn invalid_mode_digit() {
    let mut m = Machine::from_slots(vec![301, 0, 0, 0, 99]);
    assert_eq!(Err(OperationalError::InvalidParameterMode(3)), m.run());
}

#[test]
fn too_many_mode_digits() {
    let mut m = Machine::from_slots(vec![1104, 0, 99]);
    assert_eq!(Err(OperationalError::TooManyParameterModes(1104)), m.run());
}

#[test]
fn negative_instruction_word() {
    let mut m = Machine::from_slots(vec![-1]);
    assert_eq!(Err(OperationalError::NegativeInstruction(-1)), m.run());
}

#[test]
fn immediate_store_is_refused() {
    let mut m = Machine::from_slots(vec![11101, 1, 1, 9, 99]);
    assert_eq!(Err(OperationalError::ImmediateModeStorage), m.run());
    assert_eq!(&[11101, 1, 1, 9, 99], m.memory());
}

#[test]
fn negative_operand_address() {
    let mut m = Machine::from_slots(vec![4, -3, 99]);
    assert_eq!(Err(OperationalError::NegativeAddress(-3)), m.run());
}

#[test]
fn overflowing_product() {
    let mut m = Machine::from_slots(vec![1102, 4611686018427387904, 2, 0, 99]);
    assert_eq!(Err(OperationalError::ArithmeticOverflow), m.run());
    assert_eq!(1102, m.memory()[0]);
}

#[test]
fn jumps_and_comparisons() {
    let mut m = Machine::from_slots(vec![
        1105, 0, 7, 1106, 0, 8, 99, 99, 1107, 2, 3, 30, 1108, 4, 4, 31, 4, 30, 4, 31, 99,
    ]);
    m.run().unwrap();
    assert_eq!(vec![1, 1], m.read());
    assert_eq!(7, m.instruction_counter());
}

#[test]
fn halted_machine_stays_halted() {
    let mut m = Machine::from_slots(vec![99]);
    m.run().unwrap();
    assert_eq!(1, m.pointer());
    assert_eq!(Ok(()), m.run());
    m.write(5);
    assert_eq!(MachineState::Halted, m.state());
    assert_eq!(1, m.instruction_counter());
}

#[test]
fn duplicate_has_own_memory_and_empty_queues() {
    let mut m = Machine::from_slots(vec![3, 5, 4, 5, 99, 0]);
    m.write(7);
    let mut copy = m.duplicate();
    m.run().unwrap();
    assert_eq!(vec![7], m.read());
    assert_eq!(0, copy.memory()[5]);
    copy.run().unwrap();
    assert_eq!(MachineState::Blocked, copy.state());
    assert_eq!(0, copy.peek());
    copy.write(11);
    copy.run().unwrap();
    assert_eq!(vec![11], copy.read());
    assert_eq!(7, m.memory()[5]);
}

#[test]
fn state_names() {
    assert_eq!("Running", MachineState::Running.name());
    assert_eq!("Halted", MachineState::Halted.name());
    assert_eq!("Blocked", MachineState::Blocked.name());
}
