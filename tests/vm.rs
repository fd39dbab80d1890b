use twn::assembler::{parse, resolve};
use twn::image::is_image;
use twn::ports::{BufferInput, BufferOutput, EmptyInput, InputPort, ReadOutcome, Sink};
use twn::vm::{memory_runs, SysError, VmError, VM};
use twn::OpCode;

fn image(code: Vec<u8>) -> Vec<u8> {
    let mut bytes = vec![0x00, b'T', b'W', b'N'];
    bytes.extend(code);
    bytes
}

fn run_vm(tokens: Vec<u8>) -> VM<EmptyInput, Sink> {
    let mut vm = VM::new(image(tokens), EmptyInput, Sink);
    vm.run().unwrap();
    vm
}

fn assemble(source: &str) -> Vec<u8> {
    resolve(parse(source.to_string()).unwrap()).unwrap()
}

#[test]
fn test_add() {
    let code = vec![
        OpCode::Push.to_u8(),
        10,
        OpCode::Push.to_u8(),
        20,
        OpCode::Add.to_u8(),
    ];
    let mut vm = run_vm(code);
    assert_eq!(vm.stack.pop(), Some(30));
}

#[test]
fn test_stack_underflow() {
    let code = vec![OpCode::Pop.to_u8()];
    let mut vm = VM::new(image(code), EmptyInput, Sink);

    match vm.run() {
        Err(VmError::StackUnderflow) => (),
        _ => panic!("Expected StackUnderflow error"),
    }
}

#[test]
fn test_jz_jump() {
    let code = vec![
        OpCode::Push.to_u8(),
        0,
        OpCode::Jz.to_u8(),
        0x07,
        OpCode::Push.to_u8(),
        1,
        OpCode::Fin.to_u8(),
        OpCode::Push.to_u8(),
        2,
        OpCode::Fin.to_u8(),
    ];
    let mut vm = run_vm(code);
    assert_eq!(vm.stack.pop(), Some(2));
}

#[test]
fn test_div_by_zero() {
    let code = vec![
        OpCode::Push.to_u8(),
        10,
        OpCode::Push.to_u8(),
        0,
        OpCode::Div.to_u8(),
    ];
    let mut vm = VM::new(image(code), EmptyInput, Sink);

    match vm.run() {
        Err(VmError::DivisionByZero) => (),
        _ => panic!("Expected DivisionByZero error"),
    }
}

#[test]
fn add_then_fin_leaves_thirty() {
    let mut vm = VM::new(assemble("PUSH 10\nPUSH 20\nADD\nFIN"), EmptyInput, Sink);
    assert_eq!(vm.run(), Ok(()));
    assert!(vm.halted);
    assert_eq!(vm.exit_code, 0);
    assert_eq!(vm.stack, vec![30]);
}

#[test]
fn pop_on_empty_stack_fails_at_its_address() {
    let mut vm = VM::new(assemble("POP"), EmptyInput, Sink);
    assert_eq!(vm.run(), Err(VmError::StackUnderflow));
    assert_eq!(vm.pc, 0);
    assert!(vm.stack.is_empty());
    assert_eq!(vm.memory.len(), 256);
}

#[test]
fn division_by_zero_is_not_saturated() {
    let mut vm = VM::new(assemble("PUSH 10 PUSH 0 DIV"), EmptyInput, Sink);
    assert_eq!(vm.run(), Err(VmError::DivisionByZero));
    let mut vm = VM::new(assemble("PUSH 10 DIVI 0"), EmptyInput, Sink);
    assert_eq!(vm.run(), Err(VmError::DivisionByZero));
}

#[test]
fn remainder_by_zero_fails_too() {
    let mut vm = VM::new(assemble("PUSH 10 PUSH 0 MOD"), EmptyInput, Sink);
    assert_eq!(vm.run(), Err(VmError::DivisionByZero));
    let mut vm = VM::new(assemble("PUSH 10 MODI 0"), EmptyInput, Sink);
    assert_eq!(vm.run(), Err(VmError::DivisionByZero));
}

#[test]
fn load_of_unwritten_cell_fails() {
    let mut vm = VM::new(assemble("PUSH 5 LOAD"), EmptyInput, Sink);
    assert_eq!(vm.run(), Err(VmError::UninitializedMemory(5)));
    let mut vm = VM::new(assemble("PUSH 1 STOREI 4 LOADI 5"), EmptyInput, Sink);
    assert_eq!(vm.run(), Err(VmError::UninitializedMemory(5)));
}

#[test]
fn store_then_load_round_trips() {
    let mut vm = VM::new(assemble("PUSH 42 PUSH 9 STORE PUSH 9 LOAD LOADI 9 FIN"), EmptyInput, Sink);
    assert_eq!(vm.run(), Ok(()));
    assert_eq!(vm.stack, vec![42, 42]);
    assert_eq!(vm.memory[9], Some(42));
}

#[test]
fn call_returns_after_the_call() {
    // CALL ROUTINE; FIN; ROUTINE: PUSH 7; RET
    let bytes = assemble("CALL ROUTINE\nFIN\nROUTINE: PUSH 7\nRET");
    assert_eq!(bytes[4..].to_vec(), vec![0x40, 3, 0xFF, 0x01, 7, 0x41]);
    let mut vm = VM::new(bytes, EmptyInput, Sink);
    assert_eq!(vm.step(), Ok(()));
    assert_eq!(vm.pc, 3);
    assert_eq!(vm.call, vec![1]);
    assert_eq!(vm.step(), Ok(()));
    assert_eq!(vm.step(), Ok(()));
    assert_eq!(vm.pc, 2);
    assert!(vm.call.is_empty());
    assert_eq!(vm.run(), Ok(()));
    assert!(vm.halted);
    assert_eq!(vm.stack, vec![7]);
}

#[test]
fn ret_without_call_fails() {
    let mut vm = VM::new(assemble("RET"), EmptyInput, Sink);
    assert_eq!(vm.run(), Err(VmError::CallUnderflow));
}

#[test]
fn round_trip_program_halts() {
    let source = "
        ; count down from 3
        PUSH 3
        STOREI 0
    LOOP:
        LOADI 0
        JZ DONE
        LOADI 0
        SUBI 1
        STOREI 0
        JMZ LOOP
    DONE:
        FIN
    ";
    let mut vm = VM::new(assemble(source), EmptyInput, Sink);
    assert_eq!(vm.run(), Ok(()));
    assert!(vm.halted);
    assert_eq!(vm.memory[0], Some(0));
}

#[test]
fn arithmetic_saturates() {
    let mut vm = run_vm(vec![0x01, 200, 0x01, 100, 0x10]);
    assert_eq!(vm.stack.pop(), Some(255));
    let mut vm = run_vm(vec![0x01, 5, 0x01, 10, 0x11]);
    assert_eq!(vm.stack.pop(), Some(0));
    let mut vm = run_vm(vec![0x01, 20, 0x17, 20]);
    assert_eq!(vm.stack.pop(), Some(255));
    let mut vm = run_vm(vec![0x01, 7, 0x18, 2]);
    assert_eq!(vm.stack.pop(), Some(3));
    let mut vm = run_vm(vec![0x01, 7, 0x19, 3]);
    assert_eq!(vm.stack.pop(), Some(1));
    let mut vm = run_vm(vec![0x01, 6, 0x15, 4]);
    assert_eq!(vm.stack.pop(), Some(10));
}

#[test]
fn comparisons_push_zero_when_they_hold() {
    let mut vm = run_vm(vec![0x01, 3, 0x01, 5, 0x1C]);
    assert_eq!(vm.stack.pop(), Some(0));
    let mut vm = run_vm(vec![0x01, 3, 0x01, 5, 0x1E]);
    assert_eq!(vm.stack.pop(), Some(1));
    let mut vm = run_vm(vec![0x01, 4, 0x01, 4, 0x1A]);
    assert_eq!(vm.stack.pop(), Some(0));
    let mut vm = run_vm(vec![0x01, 4, 0x01, 4, 0x1B]);
    assert_eq!(vm.stack.pop(), Some(1));
    let mut vm = run_vm(vec![0x01, 4, 0x01, 4, 0x1D]);
    assert_eq!(vm.stack.pop(), Some(0));
    let mut vm = run_vm(vec![0x01, 3, 0x01, 4, 0x1F]);
    assert_eq!(vm.stack.pop(), Some(1));
}

#[test]
fn dup_and_swap() {
    let vm = run_vm(vec![0x01, 1, 0x01, 2, 0x04, 0x03]);
    assert_eq!(vm.stack, vec![2, 1, 1]);
}

#[test]
fn invalid_opcode_is_reported_with_its_byte() {
    let mut vm = VM::new(image(vec![0x01, 1, 0x05]), EmptyInput, Sink);
    assert_eq!(vm.run(), Err(VmError::InvalidOpcode(0x05)));
    assert_eq!(vm.pc, 2);
}

#[test]
fn missing_immediate_is_unexpected_eof() {
    let mut vm = VM::new(image(vec![0x01]), EmptyInput, Sink);
    assert_eq!(vm.run(), Err(VmError::UnexpectedEof));
}

#[test]
fn stack_holds_at_most_256() {
    let mut code = Vec::new();
    for _ in 0..257 {
        code.push(0x01);
        code.push(1);
    }
    let mut vm = VM::new(image(code), EmptyInput, Sink);
    assert_eq!(vm.run(), Err(VmError::StackOverflow));
    assert_eq!(vm.stack.len(), 256);
}

#[test]
fn call_stack_holds_at_most_256() {
    // CALL 0 calls itself for ever.
    let mut vm = VM::new(image(vec![0x40, 0]), EmptyInput, Sink);
    assert_eq!(vm.run(), Err(VmError::CallOverflow));
    assert_eq!(vm.call.len(), 256);
}

#[test]
fn syscalls_read_print_and_exit() {
    // read a byte, add one, print it, then exit with code 7
    let code = vec![
        0x01, 0, 0x00, 0x15, 1, 0x01, 1, 0x00, 0x01, 7, 0x01, 3, 0x00, 0x01, 9,
    ];
    let mut vm = VM::new(image(code), BufferInput::new(vec![b'A']), BufferOutput::new());
    assert_eq!(vm.run(), Ok(()));
    assert!(vm.halted);
    assert_eq!(vm.exit_code, 7);
    assert_eq!(vm.out_port.text, vec!['B']);
    assert!(vm.stack.is_empty());
}

#[test]
fn read_at_end_of_input_pushes_zero() {
    let mut vm = VM::new(image(vec![0x01, 0, 0x00]), EmptyInput, Sink);
    assert_eq!(vm.run(), Ok(()));
    assert_eq!(vm.stack, vec![0]);
}

#[test]
fn dump_reports_without_changing_state() {
    let mut vm = VM::new(image(vec![0x01, 4, 0x01, 2, 0x00]), EmptyInput, BufferOutput::new());
    assert_eq!(vm.run(), Ok(()));
    assert_eq!(vm.out_port.reports, 1);
    assert_eq!(vm.stack, vec![4]);
}

#[test]
fn unknown_syscall_fails() {
    let mut vm = VM::new(image(vec![0x01, 9, 0x00]), EmptyInput, Sink);
    assert_eq!(vm.run(), Err(VmError::UnexpectedSysCall(9)));
}

struct Broken;

impl InputPort for Broken {
    fn read_byte(&mut self) -> ReadOutcome {
        ReadOutcome::Failed
    }
}

#[test]
fn failed_read_is_a_syscall_error() {
    let mut vm = VM::new(image(vec![0x01, 0, 0x00]), Broken, Sink);
    assert_eq!(vm.run(), Err(VmError::SysError(SysError::InvalidCharacter)));
}

#[test]
fn memory_runs_group_equal_cells() {
    let mut memory = vec![None; 256];
    memory[1] = Some(3);
    memory[2] = Some(3);
    let runs = memory_runs(&memory);
    assert_eq!(runs, vec![(None, 1), (Some(3), 2), (None, 253)]);
}

#[test]
fn header_is_checked() {
    assert!(is_image(&image(vec![])));
    assert!(!is_image(&vec![0x00, b'T', b'W']));
    assert!(!is_image(&vec![0x01, b'T', b'W', b'N']));
}

#[test]
fn opcode_bytes_decode_back() {
    for b in 0..=255u8 {
        if let Some(op) = OpCode::from_u8(b) {
            assert_eq!(op.to_u8(), b);
        }
    }
    assert_eq!(OpCode::from_u8(0xFF), Some(OpCode::Fin));
    assert_eq!(OpCode::from_u8(0x05), None);
}

#[test]
fn error_messages_carry_values_in_hex() {
    assert_eq!(VmError::InvalidOpcode(0x05).message(), "Invalid Opcode: 05");
    assert_eq!(VmError::UninitializedMemory(255).message(), "Not exist designated memory: FF");
    assert_eq!(VmError::InvalidMemoryAccess(256).message(), "Invalid memory access: 100");
    assert_eq!(VmError::UnexpectedSysCall(0x2A).message(), "Unexpected SysCall: 2A");
    assert_eq!(VmError::StackUnderflow.message(), "Stack underflow");
    assert_eq!(
        VmError::SysError(SysError::InvalidCharacter).message(),
        "SysCall Error: Invalid character"
    );
}

#[test]
fn straight_line_program_halts() {
    let mut vm = VM::new(assemble("PUSH 2 DUP MUL PUSH 3 SWAP SUBI 1 LT POP FIN"), EmptyInput, Sink);
    assert_eq!(vm.run(), Ok(()));
    assert!(vm.halted);
    assert!(vm.stack.is_empty());
}

#[test]
fn push_input_pushes_what_was_read() {
    let mut vm = VM::new(image(vec![]), EmptyInput, Sink);
    assert_eq!(vm.push_input(ReadOutcome::Byte(7)), Ok(()));
    assert_eq!(vm.push_input(ReadOutcome::End), Ok(()));
    assert_eq!(vm.stack, vec![7, 0]);
    assert_eq!(
        vm.push_input(ReadOutcome::Failed),
        Err(VmError::SysError(SysError::InvalidCharacter))
    );
    assert_eq!(vm.stack, vec![7, 0]);
}

#[test]
fn push_input_on_full_stack_overflows_and_keeps_the_stack() {
    let mut vm = VM::new(image(vec![]), EmptyInput, Sink);
    vm.stack = vec![1; 256];
    assert_eq!(vm.push_input(ReadOutcome::Byte(9)), Err(VmError::StackOverflow));
    assert_eq!(vm.stack, vec![1; 256]);
}

#[test]
fn take_output_pops_the_character() {
    let mut vm = VM::new(image(vec![]), EmptyInput, Sink);
    vm.stack = vec![0x41, 0xE9];
    assert_eq!(vm.take_output(), Ok('\u{E9}'));
    assert_eq!(vm.take_output(), Ok('A'));
    assert_eq!(vm.take_output(), Err(VmError::StackUnderflow));
}

#[test]
fn failed_division_leaves_no_quotient() {
    let mut vm = VM::new(image(vec![0x01, 10, 0x01, 0, 0x13]), EmptyInput, Sink);
    assert_eq!(vm.run(), Err(VmError::DivisionByZero));
    assert_eq!(vm.pc, 4);
    assert!(vm.stack.is_empty());
}

#[test]
fn failed_load_pushes_nothing() {
    let mut vm = VM::new(image(vec![0x33, 0x05]), EmptyInput, Sink);
    assert_eq!(vm.run(), Err(VmError::UninitializedMemory(5)));
    assert!(vm.stack.is_empty());
    assert_eq!(vm.pc, 1);
}

#[test]
fn failed_pop_leaves_the_state() {
    let mut vm = VM::new(image(vec![0x02]), EmptyInput, Sink);
    assert_eq!(vm.run(), Err(VmError::StackUnderflow));
    assert_eq!(vm.pc, 0);
    assert!(vm.stack.is_empty() && vm.call.is_empty());
    assert_eq!(vm.memory, vec![None; 256]);
    assert!(!vm.halted);
}
