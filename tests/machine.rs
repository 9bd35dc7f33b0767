use simplevm::op::{DecodeError, Op};
use simplevm::register::Register;
use simplevm::vm::{Fault, Halt, SignalHandler, StepError};
use simplevm::{LinearMemory, Machine};

/// A machine whose memory holds, from address 0, a two-instruction prologue
/// that moves SP to 0x40, then `ops`; the prologue has already run.
fn machine_with(ops: &[Op]) -> Machine<Halt> {
    let mut vm: Machine<Halt> = Machine::new();
    let mut all = vec![Op::Push(0x40), Op::PopRegister(Register::SP)];
    all.extend_from_slice(ops);
    let mut bytes = Vec::new();
    for op in all {
        let w = op.encode();
        bytes.push((w & 0xff) as u8);
        bytes.push((w >> 8) as u8);
    }
    assert!(vm.memory.load_into(&bytes, 0));
    assert_eq!(vm.step(), Ok(()));
    assert_eq!(vm.step(), Ok(()));
    assert_eq!(vm.get_register(Register::SP), 0x40);
    assert_eq!(vm.get_register(Register::PC), 4);
    vm
}

#[test]
fn new_machine_is_zeroed() {
    let vm: Machine<Halt> = Machine::new();
    assert!(!vm.halt);
    assert_eq!(vm.get_register(Register::A), 0);
    assert_eq!(vm.get_register(Register::SP), 0);
    assert_eq!(vm.get_register(Register::PC), 0);
    assert_eq!(vm.memory.read(8191), Some(0));
    assert_eq!(vm.memory.read(8192), None);
}

#[test]
fn push_then_pop_restores_sp() {
    let mut vm: Machine<Halt> = Machine::new();
    assert_eq!(vm.push(1), Ok(()));
    let sp = vm.get_register(Register::SP);
    assert_eq!(vm.push(0xbeef), Ok(()));
    assert_eq!(vm.get_register(Register::SP), sp + 2);
    assert_eq!(vm.pop(), Ok(0xbeef));
    assert_eq!(vm.get_register(Register::SP), sp);
}

#[test]
fn pop_on_empty_stack_faults_at_wrapped_address() {
    let mut vm: Machine<Halt> = Machine::new();
    assert_eq!(vm.pop(), Err(Fault::Memory { addr: 0xfffe }));
    assert_eq!(vm.get_register(Register::SP), 0);
}

#[test]
fn push_outside_memory_faults() {
    let mut vm: Machine<Halt> = Machine::new();
    vm.memory = Box::new(LinearMemory::new(2));
    assert_eq!(vm.push(5), Ok(()));
    assert_eq!(vm.push(6), Err(Fault::Memory { addr: 2 }));
    assert_eq!(vm.get_register(Register::SP), 2);
}

#[test]
fn add_stack_sums_top_two() {
    let mut vm = machine_with(&[Op::AddStack]);
    vm.push(10).unwrap();
    vm.push(8).unwrap();
    assert_eq!(vm.step(), Ok(()));
    assert_eq!(vm.get_register(Register::SP), 0x42);
    assert_eq!(vm.pop(), Ok(18));
}

#[test]
fn add_stack_wraps() {
    let mut vm = machine_with(&[Op::AddStack]);
    vm.push(0xffff).unwrap();
    vm.push(3).unwrap();
    assert_eq!(vm.step(), Ok(()));
    assert_eq!(vm.pop(), Ok(2));
}

#[test]
fn add_stack_on_short_stack_faults() {
    let mut vm: Machine<Halt> = Machine::new();
    assert!(vm.memory.load_into(&[0x03, 0x00], 0));
    assert_eq!(
        vm.step(),
        Err(StepError { pc: 0, fault: Fault::Memory { addr: 0xfffe } })
    );
}

#[test]
fn add_register_accumulates() {
    let mut vm = machine_with(&[
        Op::Push(10),
        Op::PopRegister(Register::A),
        Op::Push(8),
        Op::PopRegister(Register::B),
        Op::AddRegister(Register::A, Register::B),
    ]);
    for _ in 0..5 {
        assert_eq!(vm.step(), Ok(()));
    }
    assert_eq!(vm.get_register(Register::A), 18);
    assert_eq!(vm.get_register(Register::B), 8);
    assert_eq!(vm.get_register(Register::SP), 0x40);
}

#[test]
fn add_register_wraps() {
    let mut vm = machine_with(&[
        Op::Push(0xff),
        Op::PopRegister(Register::A),
        Op::AddRegister(Register::A, Register::A),
        Op::AddRegister(Register::A, Register::A),
    ]);
    for _ in 0..4 {
        assert_eq!(vm.step(), Ok(()));
    }
    assert_eq!(vm.get_register(Register::A), 0x3fc);
}

#[test]
fn signal_runs_registered_handler() {
    let mut vm: Machine<Halt> = Machine::new();
    assert!(vm.memory.load_into(&[0x05, 0xf0], 0));
    vm.define_handler(0xf0, Halt);
    assert!(!vm.halt);
    assert_eq!(vm.step(), Ok(()));
    assert!(vm.halt);
    assert_eq!(vm.get_register(Register::PC), 2);
}

#[test]
fn unregistered_signal_is_an_error() {
    let mut vm = machine_with(&[Op::Signal(1)]);
    vm.define_handler(0xf0, Halt);
    assert_eq!(
        vm.step(),
        Err(StepError { pc: 4, fault: Fault::UnhandledSignal { code: 1 } })
    );
    assert!(!vm.halt);
}

#[test]
fn decode_fault_names_pc_and_word() {
    let mut vm: Machine<Halt> = Machine::new();
    assert!(vm.memory.load_into(&[0x00, 0x00, 0x06, 0x12], 0));
    assert_eq!(vm.step(), Ok(()));
    assert_eq!(
        vm.step(),
        Err(StepError {
            pc: 2,
            fault: Fault::Decode(DecodeError::UnknownOpcode { opcode: 6, word: 0x1206 })
        })
    );
    assert_eq!(vm.get_register(Register::PC), 4);
}

#[test]
fn fetch_past_memory_faults_at_pc() {
    let mut vm: Machine<Halt> = Machine::new();
    vm.memory = Box::new(LinearMemory::new(4));
    assert_eq!(vm.step(), Ok(()));
    assert_eq!(vm.step(), Ok(()));
    assert_eq!(
        vm.step(),
        Err(StepError { pc: 4, fault: Fault::Memory { addr: 4 } })
    );
}

#[test]
fn program_bytes_run_end_to_end() {
    let mut vm: Machine<Halt> = Machine::new();
    assert!(vm.memory.load_into(&[0x01, 0x0a, 0x01, 0x08, 0x03], 0));
    let sp0 = vm.get_register(Register::SP);
    for _ in 0..3 {
        assert_eq!(vm.step(), Ok(()));
    }
    assert_eq!(vm.get_register(Register::SP), sp0 + 2);
    assert_eq!(vm.memory.read_word(vm.get_register(Register::SP) - 2), Some(18));
}

#[derive(Clone, Copy)]
struct Refuse;

impl SignalHandler for Refuse {
    fn handle(&self, vm: &mut Machine<Self>) -> Result<(), String> {
        vm.halt = true;
        Err("refused".to_string())
    }
}

#[test]
fn failing_handler_is_reported_at_pc() {
    let mut vm: Machine<Refuse> = Machine::new();
    assert!(vm.memory.load_into(&[0x05, 0x07], 0));
    vm.define_handler(7, Refuse);
    assert_eq!(
        vm.step(),
        Err(StepError { pc: 0, fault: Fault::Handler("refused".to_string()) })
    );
    assert!(vm.halt);
}

#[test]
fn default_machine_is_new_machine() {
    let vm: Machine<Halt> = Machine::default();
    assert!(!vm.halt);
    assert_eq!(vm.get_register(Register::SP), 0);
    assert_eq!(vm.memory.read(8191), Some(0));
    assert_eq!(vm.memory.read(8192), None);
}

#[test]
fn pop_register_into_sp_takes_popped_value() {
    let mut vm = machine_with(&[Op::Push(0x80), Op::PopRegister(Register::SP)]);
    assert_eq!(vm.step(), Ok(()));
    assert_eq!(vm.step(), Ok(()));
    assert_eq!(vm.get_register(Register::SP), 0x80);
}
