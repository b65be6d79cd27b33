use aoc2019::intcode::{
    Instruction, Machine, MachineState, Opcode, OperationalError, Parameter, ParameterMode,
    ParseError,
};

#[test]
fn new_machine() -> Result<(), ParseError> {
    let input = "1,9,10,3,2,3,11,0,99,30,40,50";
    let machine = Machine::from_str(input)?;

    assert_eq!(0, machine.pointer());
    assert_eq!(MachineState::Running, machine.state());
    assert_eq!(1, machine.memory()[0]);
    assert_eq!(9, machine.memory()[1]);
    assert_eq!(12, machine.memory().len());

    Ok(())
}

#[test]
fn step() -> Result<(), OperationalError> {
    let mut machine = Machine::from_slots(vec![1, 9, 10, 3, 2, 3, 11, 0, 99, 30, 40, 50]);

    machine.step()?;
    assert_eq!(70, machine.memory()[3]);
    assert_eq!(MachineState::Running, machine.state());

    machine.step()?;
    assert_eq!(3500, machine.memory()[0]);
    assert_eq!(MachineState::Running, machine.state());

    machine.step()?;
    assert_eq!(MachineState::Halted, machine.state());

    Ok(())
}

#[test]
fn run_to_halt() -> Result<(), OperationalError> {
    let mut machine = Machine::from_slots(vec![1, 9, 10, 3, 2, 3, 11, 0, 99, 30, 40, 50]);

    machine.run()?;
    assert_eq!(3500, machine.memory()[0]);
    assert_eq!(MachineState::Halted, machine.state());

    Ok(())
}

#[test]
fn op_and_modes_add() -> Result<(), OperationalError> {
    let (op, modes) = Instruction::op_and_mode_digits(&1)?;
    assert_eq!(Opcode::Add, op);
    let empty: Vec<i64> = Vec::new();
    assert_eq!(empty, modes);

    let (op2, modes2) = Instruction::op_and_mode_digits(&1001)?;
    assert_eq!(Opcode::Add, op2);
    assert_eq!(vec![0, 1], modes2);

    Ok(())
}

#[test]
fn op_and_modes_halt() -> Result<(), OperationalError> {
    let (op, modes) = Instruction::op_and_mode_digits(&99)?;
    assert_eq!(Opcode::Halt, op);
    let empty: Vec<i64> = Vec::new();
    assert_eq!(empty, modes);

    Ok(())
}

#[test]
fn test_output() -> Result<(), OperationalError> {
    let mut machine = Machine::from_slots(vec![4, 0, 104, 20, 99]);

    machine.run()?;
    assert_eq!(vec![4, 20], machine.read());

    Ok(())
}

#[test]
fn test_input() -> Result<(), OperationalError> {
    let mut machine = Machine::from_slots(vec![3, 3, 99, 0]);
    machine.write(20);

    machine.run()?;
    assert_eq!(20, machine.memory()[3]);

    Ok(())
}

#[test]
fn jump_condition_large_example() -> Result<(), OperationalError> {
    let machine = Machine::from_slots(vec![
        3, 21, 1008, 21, 8, 20, 1005, 20, 22, 107, 8, 21, 20, 1006, 20, 31, 1106, 0, 36, 98, 0, 0,
        1002, 21, 125, 20, 4, 20, 1105, 1, 46, 104, 999, 1105, 1, 46, 1101, 1000, 1, 20, 4, 20,
        1105, 1, 46, 98, 99,
    ]);

    let mut low_input = machine.clone();
    low_input.write(4);
    let mut exact_input = machine.clone();
    exact_input.write(8);
    let mut high_input = machine.clone();
    high_input.write(12);

    low_input.run()?;
    assert_eq!(vec![999], low_input.read());

    exact_input.run()?;
    assert_eq!(vec![1000], exact_input.read());

    high_input.run()?;
    assert_eq!(vec![1001], high_input.read());

    Ok(())
}

#[test]
fn blocked() -> Result<(), OperationalError> {
    let mut machine = Machine::from_slots(vec![3, 7, 3, 8, 3, 9, 99, 0, 0, 0]);

    machine.run()?;

    assert_eq!(MachineState::Blocked, machine.state());

    machine.write(10);

    assert_eq!(MachineState::Running, machine.state());

    machine.run()?;

    assert_eq!(MachineState::Blocked, machine.state());

    machine.write(20);
    machine.write(30);

    machine.run()?;

    assert_eq!(MachineState::Halted, machine.state());

    machine.write(40);

    assert_eq!(MachineState::Halted, machine.state());
    assert_eq!(10, machine.memory()[7]);
    assert_eq!(20, machine.memory()[8]);
    assert_eq!(30, machine.memory()[9]);

    Ok(())
}

#[test]
fn relative_mode() -> Result<(), OperationalError> {
    let mut machine = Machine::from_slots(vec![21201, 3, 2, 5, 99, 0, 0, 0, 0, 0, 0, 0, 0]);

    let instruction = machine.read_instruction()?;
    assert_eq!(
        Instruction {
            opcode: Opcode::Add,
            parameters: vec![
                Parameter { value: 3, mode: ParameterMode::Relative },
                Parameter { value: 2, mode: ParameterMode::Immediate },
                Parameter { value: 5, mode: ParameterMode::Relative },
            ],
        },
        instruction
    );

    machine.run()?;

    assert_eq!(7, machine.memory()[5]);

    let mut machine = Machine::from_slots(vec![21201, 3, 2, 5, 99, 0, 0, 0, 10, 0, 0, 0, 0]);
    machine.set_relative_base(5);
    machine.run()?;

    assert_eq!(12, machine.memory()[10]);

    Ok(())
}

#[test]
fn relative_base_offset() -> Result<(), OperationalError> {
    let mut machine = Machine::from_slots(vec![109, 4, 99]);
    assert_eq!(0, machine.relative_base());

    machine.run()?;
    assert_eq!(4, machine.relative_base());

    Ok(())
}

#[test]
fn growable_memory() -> Result<(), OperationalError> {
    let mut machine = Machine::from_slots(vec![1, 5, 6, 20, 99, 6, 7]);
    machine.run()?;

    assert_eq!(&13, machine.get(20)?);

    Ok(())
}

#[test]
fn day9_examples() -> Result<(), OperationalError> {
    let mut quine = Machine::from_slots(vec![
        109, 1, 204, -1, 1001, 100, 1, 100, 1008, 100, 16, 101, 1006, 101, 0, 99,
    ]);
    quine.run()?;

    assert_eq!(
        vec![109, 1, 204, -1, 1001, 100, 1, 100, 1008, 100, 16, 101, 1006, 101, 0, 99],
        quine.read()
    );

    let mut large_output_1 = Machine::from_slots(vec![1102, 34915192, 34915192, 7, 4, 7, 99, 0]);
    large_output_1.run()?;

    assert_eq!(16, format!("{}", large_output_1.read()[0]).len());

    let mut large_output_2 = Machine::from_slots(vec![104, 1125899906842624, 99]);
    large_output_2.run()?;

    assert_eq!(vec![1125899906842624], large_output_2.read());

    Ok(())
}
