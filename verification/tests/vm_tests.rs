use lc3_vm::condition_flags::{FL_NEG, FL_POS, FL_ZRO};
use lc3_vm::error::LC3Result;
use lc3_vm::io::TestIOHandle;
use lc3_vm::plugin::NoPlugin;
use lc3_vm::register::Register::RCond;
use lc3_vm::vm::{KB_DATA_POS, KB_STATUS_POS, VM};

#[test]
fn can_update_flags() -> LC3Result<()> {
    // Tuple format: (Register value, Expected Flag)
    let test_cases = vec![(0u16, FL_ZRO), (0x0001, FL_POS), (0x8111, FL_NEG)];

    let test_reg = 0;
    for (value, flag) in test_cases {
        let mut vm: VM<TestIOHandle, NoPlugin> = VM::new_with_io(TestIOHandle::new());
        vm.reg_index_write(test_reg, value)?;
        vm.update_flags(test_reg as usize)?;
        assert_eq!(vm.reg_read(RCond)?, flag);
    }
    Ok(())
}

#[test]
fn can_read_memmapped_registers() -> LC3Result<()> {
    let test_char = 'q';

    let mut io_handle = TestIOHandle::new();
    io_handle.add_keydown_response(true);
    io_handle.add_key_press(test_char);
    let mut vm: VM<TestIOHandle, NoPlugin> = VM::new_with_io(io_handle);

    // The ordering here is important. The read of the status register and
    // positive response is what triggers the update of the data register,
    // so if the order of the statements is flipped, the data register read
    // fails (nothing independently updates the registers on its own
    // schedule).
    assert_eq!(vm.mem_read(KB_STATUS_POS)?, 1 << 15);
    assert_eq!(vm.mem_read(KB_DATA_POS)? as u8 as char, test_char);

    Ok(())
}

#[test]
fn can_run_program() -> LC3Result<()> {
    let mut program: Vec<u16> = vec![
        // Write (incremented program counter + 2) into RR0
        0b1110_0000_0000_0010,
        // Print the string starting at the address in RR0
        0xF022,
        // Halt
        0xF025,
    ];

    let test_string = "Hello world!";
    let char_vals = test_string.chars().map(|ch| ch as u16);
    program.extend(char_vals);

    let io_handle = TestIOHandle::new();
    let mut vm: VM<TestIOHandle, NoPlugin> = VM::new_with_io(io_handle);
    vm.load_program(&program)?;
    vm.run()?;

    let io_handle = vm.into_io_handle();
    let outputs: String = io_handle.get_test_outputs().iter().collect();
    assert_eq!(test_string.to_string(), outputs);

    Ok(())
}
