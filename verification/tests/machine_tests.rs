use lc3_vm::command::Command;
use lc3_vm::condition_flags::{FL_NEG, FL_POS, FL_ZRO};
use lc3_vm::error::{LC3Error, LC3Result};
use lc3_vm::io::TestIOHandle;
use lc3_vm::plugin::{Event, NoPlugin, Plugin};
use lc3_vm::register::Register::{RCond, RPC};
use lc3_vm::vm::{KB_STATUS_POS, MAX_PROGRAM_LEN, PC_START, VM};

fn quiet_vm() -> VM<TestIOHandle, NoPlugin> {
    VM::new_with_io(TestIOHandle::new())
}

#[test]
fn add_immediate_sign_extends() -> LC3Result<()> {
    let mut vm = quiet_vm();
    vm.reg_index_write(1, 5)?;
    // ADD R0, R1, #-1: the 5-bit immediate 0b11111 is -1.
    vm.run_command(&Command::new(0b0001_0000_0111_1111))?;
    assert_eq!(vm.reg_index_read(0)?, 4);
    assert_eq!(vm.reg_read(RCond)?, FL_POS);
    Ok(())
}

#[test]
fn add_register_wraps_modularly() -> LC3Result<()> {
    let mut vm = quiet_vm();
    vm.reg_index_write(1, 0xFFFF)?;
    vm.reg_index_write(2, 2)?;
    // ADD R0, R1, R2
    vm.run_command(&Command::new(0b0001_0000_0100_0010))?;
    assert_eq!(vm.reg_index_read(0)?, 1);
    assert_eq!(vm.reg_read(RCond)?, FL_POS);
    Ok(())
}

#[test]
fn and_immediate_masks() -> LC3Result<()> {
    let mut vm = quiet_vm();
    vm.reg_index_write(1, 0b1010)?;
    // AND R0, R1, #0b01100 (immediate 12, positive so no extension)
    vm.run_command(&Command::new(0b0101_0000_0110_1100))?;
    assert_eq!(vm.reg_index_read(0)?, 0b1000);
    Ok(())
}

#[test]
fn not_complements_and_sets_negative() -> LC3Result<()> {
    let mut vm = quiet_vm();
    vm.reg_index_write(1, 0x00FF)?;
    // NOT R0, R1
    vm.run_command(&Command::new(0b1001_0000_0111_1111))?;
    assert_eq!(vm.reg_index_read(0)?, 0xFF00);
    assert_eq!(vm.reg_read(RCond)?, FL_NEG);
    Ok(())
}

#[test]
fn branch_taken_and_not_taken() -> LC3Result<()> {
    let mut vm = quiet_vm();
    vm.reg_write(RPC, 0x3000)?;
    vm.reg_index_write(0, 0)?;
    vm.update_flags(0)?;
    assert_eq!(vm.reg_read(RCond)?, FL_ZRO);
    // BRz +5: taken, since the zero flag is set.
    vm.run_command(&Command::new(0b0000_0100_0000_0101))?;
    assert_eq!(vm.reg_read(RPC)?, 0x3005);
    // BRn +5: not taken.
    vm.run_command(&Command::new(0b0000_1000_0000_0101))?;
    assert_eq!(vm.reg_read(RPC)?, 0x3005);
    Ok(())
}

#[test]
fn jsr_jmp_round_trip() -> LC3Result<()> {
    let mut vm = quiet_vm();
    vm.reg_write(RPC, 0x3001)?;
    // JSR +4: register 7 takes the return address, PC jumps.
    vm.run_command(&Command::new(0b0100_1000_0000_0100))?;
    assert_eq!(vm.reg_index_read(7)?, 0x3001);
    assert_eq!(vm.reg_read(RPC)?, 0x3005);
    // JMP R7 returns PC to the saved address.
    vm.run_command(&Command::new(0b1100_0001_1100_0000))?;
    assert_eq!(vm.reg_read(RPC)?, 0x3001);
    Ok(())
}

#[test]
fn load_and_store_round_trip() -> LC3Result<()> {
    let mut vm = quiet_vm();
    vm.reg_write(RPC, 0x3000)?;
    vm.reg_index_write(1, 0xBEEF)?;
    // ST R1, +0x10: memory[0x3010] takes R1.
    vm.run_command(&Command::new(0b0011_0010_0001_0000))?;
    assert_eq!(vm.mem_read(0x3010)?, 0xBEEF);
    // LD R2, +0x10: R2 takes memory[0x3010]; flags turn negative.
    vm.run_command(&Command::new(0b0010_0100_0001_0000))?;
    assert_eq!(vm.reg_index_read(2)?, 0xBEEF);
    assert_eq!(vm.reg_read(RCond)?, FL_NEG);
    Ok(())
}

#[test]
fn register_offset_load_and_store() -> LC3Result<()> {
    let mut vm = quiet_vm();
    vm.reg_index_write(1, 0x4000)?;
    vm.reg_index_write(2, 7)?;
    // STR R2, R1, #3: memory[0x4003] takes R2.
    vm.run_command(&Command::new(0b0111_0100_0100_0011))?;
    assert_eq!(vm.mem_read(0x4003)?, 7);
    // LDR R3, R1, #3
    vm.run_command(&Command::new(0b0110_0110_0100_0011))?;
    assert_eq!(vm.reg_index_read(3)?, 7);
    assert_eq!(vm.reg_read(RCond)?, FL_POS);
    Ok(())
}

#[test]
fn indirect_load_and_store() -> LC3Result<()> {
    let mut vm = quiet_vm();
    vm.reg_write(RPC, 0x3000)?;
    vm.mem_write(0x3002, 0x5000)?;
    vm.mem_write(0x5000, 42)?;
    // LDI R0, +2: follows the pointer at 0x3002.
    vm.run_command(&Command::new(0b1010_0000_0000_0010))?;
    assert_eq!(vm.reg_index_read(0)?, 42);
    // STI R0, +2: stores through the same pointer.
    vm.reg_index_write(0, 77)?;
    vm.run_command(&Command::new(0b1011_0000_0000_0010))?;
    assert_eq!(vm.mem_read(0x5000)?, 77);
    Ok(())
}

#[test]
fn lea_loads_the_address_itself() -> LC3Result<()> {
    let mut vm = quiet_vm();
    vm.reg_write(RPC, 0x3000)?;
    // LEA R0, #-2
    vm.run_command(&Command::new(0b1110_0001_1111_1110))?;
    assert_eq!(vm.reg_index_read(0)?, 0x2FFE);
    Ok(())
}

#[test]
fn program_too_large_is_rejected_and_memory_untouched() -> LC3Result<()> {
    let mut vm = quiet_vm();
    let program: Vec<u16> = vec![0xAAAA; MAX_PROGRAM_LEN + 1];
    let result = vm.load_program(&program);
    assert_eq!(
        result,
        Err(LC3Error::ProgramSize { len: MAX_PROGRAM_LEN + 1, max_len: MAX_PROGRAM_LEN })
    );
    assert_eq!(vm.mem_read(PC_START)?, 0);
    assert_eq!(vm.mem_read(0xFFFF)?, 0);
    Ok(())
}

#[test]
fn largest_program_fits() -> LC3Result<()> {
    let mut vm = quiet_vm();
    let program: Vec<u16> = vec![0x1234; MAX_PROGRAM_LEN];
    assert_eq!(vm.load_program(&program), Ok(()));
    assert_eq!(vm.mem_read(PC_START)?, 0x1234);
    assert_eq!(vm.mem_read(0xFFFF)?, 0x1234);
    Ok(())
}

#[test]
fn keyboard_status_without_pending_key_reads_zero() -> LC3Result<()> {
    let mut io_handle = TestIOHandle::new();
    io_handle.add_keydown_response(false);
    let mut vm: VM<TestIOHandle, NoPlugin> = VM::new_with_io(io_handle);
    assert_eq!(vm.mem_read(KB_STATUS_POS)?, 0);
    Ok(())
}

#[test]
fn rti_and_reserved_are_unimplemented() {
    let mut vm = quiet_vm();
    assert_eq!(
        vm.run_command(&Command::new(0x8000)),
        Err(LC3Error::UnimplementedOpcode { op_code: 8 })
    );
    assert_eq!(
        vm.run_command(&Command::new(0xD000)),
        Err(LC3Error::UnimplementedOpcode { op_code: 13 })
    );
}

#[test]
fn unknown_trap_vector_is_an_error() {
    let mut vm = quiet_vm();
    assert_eq!(
        vm.run_command(&Command::new(0xF0FF)),
        Err(LC3Error::UnknownTrapVector { vector: 0xFF })
    );
}

#[test]
fn getc_trap_stores_the_key() -> LC3Result<()> {
    let mut io_handle = TestIOHandle::new();
    io_handle.add_key_press('x');
    let mut vm: VM<TestIOHandle, NoPlugin> = VM::new_with_io(io_handle);
    vm.run_command(&Command::new(0xF020))?;
    assert_eq!(vm.reg_index_read(0)?, 'x' as u16);
    let outputs: String = vm.into_io_handle().get_test_outputs().iter().collect();
    assert_eq!(outputs, "");
    Ok(())
}

#[test]
fn out_trap_writes_the_low_byte() -> LC3Result<()> {
    let mut vm = quiet_vm();
    vm.reg_index_write(0, 0x0141)?;
    vm.run_command(&Command::new(0xF021))?;
    let outputs: String = vm.into_io_handle().get_test_outputs().iter().collect();
    assert_eq!(outputs, "A");
    Ok(())
}

#[test]
fn in_trap_prompts_echoes_and_stores() -> LC3Result<()> {
    let mut io_handle = TestIOHandle::new();
    io_handle.add_key_press('z');
    let mut vm: VM<TestIOHandle, NoPlugin> = VM::new_with_io(io_handle);
    vm.run_command(&Command::new(0xF023))?;
    assert_eq!(vm.reg_index_read(0)?, 'z' as u16);
    let outputs: String = vm.into_io_handle().get_test_outputs().iter().collect();
    assert_eq!(outputs, "Enter a character: z");
    Ok(())
}

#[test]
fn putsp_trap_writes_packed_pairs() -> LC3Result<()> {
    let mut vm = quiet_vm();
    vm.mem_write(0x4000, ('a' as u16) | (('b' as u16) << 8))?;
    vm.mem_write(0x4001, 'c' as u16)?;
    vm.mem_write(0x4002, 0)?;
    vm.reg_index_write(0, 0x4000)?;
    vm.run_command(&Command::new(0xF024))?;
    let outputs: String = vm.into_io_handle().get_test_outputs().iter().collect();
    assert_eq!(outputs, "abc");
    Ok(())
}

#[test]
fn halt_trap_stops_a_run() -> LC3Result<()> {
    let mut vm = quiet_vm();
    let program: Vec<u16> = vec![0xF025];
    vm.load_program(&program)?;
    vm.run()?;
    assert_eq!(vm.get_running()?, false);
    Ok(())
}

/// Observer used by the reentrancy test: reacts to register writes with
/// further register writes, which must be applied silently.
struct ChainWriter {}

impl Plugin<TestIOHandle> for ChainWriter {
    fn handle_event(
        &mut self,
        vm: &mut VM<TestIOHandle, Self>,
        event: &Event,
    ) -> LC3Result<()> {
        if let Event::RegSet { index, .. } = event {
            if *index == 0 {
                // A nested write: it must land, but must not be reported
                // back to this plugin as a further event.
                vm.reg_index_write(1, 0xAA)?;
            }
            if *index == 1 {
                vm.reg_index_write(2, 0xBB)?;
            }
        }
        Ok(())
    }
}

#[test]
fn nested_plugin_writes_are_applied_but_not_renotified() -> LC3Result<()> {
    let mut vm: VM<TestIOHandle, ChainWriter> = VM::new_with_io(TestIOHandle::new());
    vm.add_plugin(ChainWriter {});

    vm.reg_index_write(0, 5)?;
    // The external write landed, the plugin's nested write landed, and the
    // nested write triggered no second notification round: register 2 is
    // untouched.
    assert_eq!(vm.reg_index_read(0)?, 5);
    assert_eq!(vm.reg_index_read(1)?, 0xAA);
    assert_eq!(vm.reg_index_read(2)?, 0);

    // The next externally triggered write to register 1 is a fresh round:
    // now the plugin reacts to it.
    vm.reg_index_write(1, 7)?;
    assert_eq!(vm.reg_index_read(1)?, 7);
    assert_eq!(vm.reg_index_read(2)?, 0xBB);
    Ok(())
}

#[test]
fn getc_without_a_key_is_an_io_error() {
    let mut vm = quiet_vm();
    assert_eq!(vm.run_command(&Command::new(0xF020)), Err(LC3Error::IO));
}

/// Observer used by the failing-handler test: errors on writes to
/// register 3, reacts to writes to register 1.
struct FaultyPlugin {}

impl Plugin<TestIOHandle> for FaultyPlugin {
    fn handle_event(
        &mut self,
        vm: &mut VM<TestIOHandle, Self>,
        event: &Event,
    ) -> LC3Result<()> {
        if let Event::RegSet { index, .. } = event {
            if *index == 3 {
                return Err(LC3Error::Internal);
            }
            if *index == 1 {
                vm.reg_index_write(2, 0xBB)?;
            }
        }
        Ok(())
    }
}

#[test]
fn registry_survives_a_failing_handler() -> LC3Result<()> {
    let mut vm: VM<TestIOHandle, FaultyPlugin> = VM::new_with_io(TestIOHandle::new());
    vm.add_plugin(FaultyPlugin {});

    // The handler's error is propagated, and the write is not applied
    // (writes notify before mutating).
    assert_eq!(vm.reg_index_write(3, 1), Err(LC3Error::Internal));
    assert_eq!(vm.reg_index_read(3)?, 0);

    // The registry was reattached: a later access still reaches the plugin.
    vm.reg_index_write(1, 7)?;
    assert_eq!(vm.reg_index_read(2)?, 0xBB);
    Ok(())
}
