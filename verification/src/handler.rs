//! One handler per opcode (TRAP's sub-dispatch lives in `trap`). Each
//! handler receives the fetched instruction and mutable access to the
//! machine, performs every access through the reporting accessors, and is
//! specified against the machine's views: for a quiet machine the final
//! register file and memory are pinned down exactly.

use crate::command::Command;
use crate::command::dr_of;
use crate::command::imm5_of;
use crate::command::imm_mode_of;
use crate::command::long_mode_of;
use crate::command::offset11_of;
use crate::command::offset6_of;
use crate::command::offset9_of;
use crate::command::sign_extend;
use crate::command::sr1_of;
use crate::command::sr2_of;
use crate::command::word_add;
use crate::condition_flags::flag_of;
use crate::error::LC3Error;
use crate::error::LC3Result;
use crate::io::IOHandle;
use crate::plugin::Plugin;
use crate::register::COND_INDEX;
use crate::register::PC_INDEX;
use crate::register::Register;
use crate::vm::KB_STATUS_POS;
use crate::vm::VM;
use crate::vm::mem_after_read;
use crate::vm::read_value;
use vstd::prelude::*;

verus! {

/// The register file after a flag-updating write of `v` to register `dr`:
/// the destination takes the value, the flags register takes its flag.
pub open spec fn regs_written(regs: Seq<u16>, dr: int, v: u16) -> Seq<u16> {
    regs.update(dr, v).update(COND_INDEX as int, flag_of(v))
}

/// The second operand of ADD and AND: a register, or the sign-extended
/// 5-bit immediate when the immediate-mode bit is set.
pub open spec fn binop_rhs(regs: Seq<u16>, b: u16) -> u16 {
    if imm_mode_of(b) {
        imm5_of(b)
    } else {
        regs[sr2_of(b) as int]
    }
}

/// The value ADD writes: modular 16-bit sum of the operands.
pub open spec fn add_value(regs: Seq<u16>, b: u16) -> u16 {
    word_add(regs[sr1_of(b) as int], binop_rhs(regs, b))
}

/// The value AND writes: bitwise conjunction of the operands.
pub open spec fn and_value(regs: Seq<u16>, b: u16) -> u16 {
    regs[sr1_of(b) as int] & binop_rhs(regs, b)
}

/// The value NOT writes: bitwise complement of the source register.
pub open spec fn not_value(regs: Seq<u16>, b: u16) -> u16 {
    !regs[sr1_of(b) as int]
}

/// The PC-relative effective address: PC plus the sign-extended 9-bit
/// offset, modulo 2^16.
pub open spec fn pc_rel_addr(regs: Seq<u16>, b: u16) -> u16 {
    word_add(regs[PC_INDEX as int], offset9_of(b))
}

/// The base-register effective address of LDR and STR: base register plus
/// the sign-extended 6-bit offset, modulo 2^16.
pub open spec fn base_rel_addr(regs: Seq<u16>, b: u16) -> u16 {
    word_add(regs[sr1_of(b) as int], offset6_of(b))
}

/// Whether BR takes the branch: any of the three condition bits encoded in
/// bits 11..9 matches the current flags register.
pub open spec fn branch_taken(regs: Seq<u16>, b: u16) -> bool {
    dr_of(b) & regs[COND_INDEX as int] != 0
}

/// The address JSR jumps to: PC plus the sign-extended 11-bit offset in
/// long mode, the base register's value otherwise.
pub open spec fn jsr_target(regs: Seq<u16>, b: u16) -> u16 {
    if long_mode_of(b) {
        word_add(regs[PC_INDEX as int], offset11_of(b))
    } else {
        regs[sr1_of(b) as int]
    }
}

/// ADD: destination takes the modular sum of the first source register and
/// either a register or a sign-extended 5-bit immediate; flags update.
pub fn add<IO: IOHandle, P: Plugin<IO>>(vm: &mut VM<IO, P>, command: &Command) -> (r: LC3Result<
    (),
>)
    ensures
        old(vm).quiet() ==> r == Ok::<(), LC3Error>(()) && final(vm).regs() == regs_written(
            old(vm).regs(),
            dr_of(command.bytes_spec()) as int,
            add_value(old(vm).regs(), command.bytes_spec()),
        ) && VM::frames_regs(*old(vm), *final(vm)),
{
    let b = command.get_bytes();
    let dr = ((b / 0x200) % 8) as u8;
    let sr1 = ((b / 0x40) % 8) as u8;
    let lhs = vm.reg_index_read(sr1)?;
    let rhs = if (b / 0x20) % 2 == 1 {
        sign_extend(b % 0x20, 0x20)
    } else {
        vm.reg_index_read((b % 8) as u8)?
    };
    let value = lhs.wrapping_add(rhs);
    vm.reg_index_write(dr, value)?;
    vm.update_flags(dr as usize)?;
    Ok(())
}

/// AND: destination takes the bitwise conjunction of the first source
/// register and either a register or a sign-extended immediate; flags
/// update.
pub fn and<IO: IOHandle, P: Plugin<IO>>(vm: &mut VM<IO, P>, command: &Command) -> (r: LC3Result<
    (),
>)
    ensures
        old(vm).quiet() ==> r == Ok::<(), LC3Error>(()) && final(vm).regs() == regs_written(
            old(vm).regs(),
            dr_of(command.bytes_spec()) as int,
            and_value(old(vm).regs(), command.bytes_spec()),
        ) && VM::frames_regs(*old(vm), *final(vm)),
{
    let b = command.get_bytes();
    let dr = ((b / 0x200) % 8) as u8;
    let sr1 = ((b / 0x40) % 8) as u8;
    let lhs = vm.reg_index_read(sr1)?;
    let rhs = if (b / 0x20) % 2 == 1 {
        sign_extend(b % 0x20, 0x20)
    } else {
        vm.reg_index_read((b % 8) as u8)?
    };
    let value = lhs & rhs;
    vm.reg_index_write(dr, value)?;
    vm.update_flags(dr as usize)?;
    Ok(())
}

/// NOT: destination takes the bitwise complement of the source register;
/// flags update.
pub fn not<IO: IOHandle, P: Plugin<IO>>(vm: &mut VM<IO, P>, command: &Command) -> (r: LC3Result<
    (),
>)
    ensures
        old(vm).quiet() ==> r == Ok::<(), LC3Error>(()) && final(vm).regs() == regs_written(
            old(vm).regs(),
            dr_of(command.bytes_spec()) as int,
            not_value(old(vm).regs(), command.bytes_spec()),
        ) && VM::frames_regs(*old(vm), *final(vm)),
{
    let b = command.get_bytes();
    let dr = ((b / 0x200) % 8) as u8;
    let sr1 = ((b / 0x40) % 8) as u8;
    let value = vm.reg_index_read(sr1)?;
    vm.reg_index_write(dr, !value)?;
    vm.update_flags(dr as usize)?;
    Ok(())
}

/// BR: add the sign-extended 9-bit offset to PC when any condition bit in
/// the instruction matches the flags register; no flag update.
pub fn branch<IO: IOHandle, P: Plugin<IO>>(vm: &mut VM<IO, P>, command: &Command) -> (r: LC3Result<
    (),
>)
    ensures
        old(vm).quiet() ==> r == Ok::<(), LC3Error>(()),
        old(vm).quiet() && branch_taken(old(vm).regs(), command.bytes_spec()) ==> final(vm).regs()
            == old(vm).regs().update(
            PC_INDEX as int,
            word_add(old(vm).regs()[PC_INDEX as int], offset9_of(command.bytes_spec())),
        ) && VM::frames_regs(*old(vm), *final(vm)),
        old(vm).quiet() && !branch_taken(old(vm).regs(), command.bytes_spec()) ==> *final(vm)
            == *old(vm),
{
    let b = command.get_bytes();
    let cond = vm.reg_read(Register::RCond)?;
    let nzp = (b / 0x200) % 8;
    if nzp & cond != 0 {
        let pc = vm.reg_read(Register::RPC)?;
        vm.reg_write(Register::RPC, pc.wrapping_add(sign_extend(b % 0x200, 0x200)))?;
    }
    Ok(())
}

/// JMP: PC takes the base register's value (register 7 doubles as the
/// return convention of JSR).
pub fn jump<IO: IOHandle, P: Plugin<IO>>(vm: &mut VM<IO, P>, command: &Command) -> (r: LC3Result<
    (),
>)
    ensures
        old(vm).quiet() ==> r == Ok::<(), LC3Error>(()) && final(vm).regs() == old(vm).regs().update(
            PC_INDEX as int,
            old(vm).regs()[sr1_of(command.bytes_spec()) as int],
        ) && VM::frames_regs(*old(vm), *final(vm)),
{
    let b = command.get_bytes();
    let base = ((b / 0x40) % 8) as u8;
    let target = vm.reg_index_read(base)?;
    vm.reg_write(Register::RPC, target)?;
    Ok(())
}

/// JSR: save PC into register 7, then set PC to PC plus the sign-extended
/// 11-bit offset (long mode) or to the base register's value.
pub fn jump_register<IO: IOHandle, P: Plugin<IO>>(vm: &mut VM<IO, P>, command: &Command) -> (r:
    LC3Result<()>)
    ensures
        old(vm).quiet() ==> r == Ok::<(), LC3Error>(()) && final(vm).regs() == old(vm).regs().update(7, old(vm).regs()[PC_INDEX as int]).update(
            PC_INDEX as int,
            jsr_target(old(vm).regs(), command.bytes_spec()),
        ) && VM::frames_regs(*old(vm), *final(vm)),
{
    let b = command.get_bytes();
    let pc = vm.reg_read(Register::RPC)?;
    if (b / 0x800) % 2 == 1 {
        vm.reg_write(Register::RR7, pc)?;
        vm.reg_write(Register::RPC, pc.wrapping_add(sign_extend(b % 0x800, 0x800)))?;
    } else {
        let base = ((b / 0x40) % 8) as u8;
        let target = vm.reg_index_read(base)?;
        vm.reg_write(Register::RR7, pc)?;
        vm.reg_write(Register::RPC, target)?;
    }
    Ok(())
}

/// LD: destination takes the word at the PC-relative effective address;
/// flags update. Reading the keyboard status address behaves as every read
/// of it does.
pub fn load<IO: IOHandle, P: Plugin<IO>>(vm: &mut VM<IO, P>, command: &Command) -> (r: LC3Result<
    (),
>)
    ensures
        old(vm).quiet() ==> (r matches Ok(_) ==> final(vm).regs() == regs_written(
            old(vm).regs(),
            dr_of(command.bytes_spec()) as int,
            read_value(
                old(vm).mem(),
                old(vm).io_view(),
                pc_rel_addr(old(vm).regs(), command.bytes_spec()),
            ),
        ) && final(vm).mem() == mem_after_read(
            old(vm).mem(),
            old(vm).io_view(),
            pc_rel_addr(old(vm).regs(), command.bytes_spec()),
        ) && final(vm).run_flag() == old(vm).run_flag() && final(vm).plugins_view() == old(vm).plugins_view()),
        old(vm).quiet() && pc_rel_addr(old(vm).regs(), command.bytes_spec()) != KB_STATUS_POS ==> r
            == Ok::<(), LC3Error>(()) && final(vm).io_view() == old(vm).io_view(),
        old(vm).quiet() ==> final(vm).run_flag() == old(vm).run_flag() && final(vm).plugins_view()
            == old(vm).plugins_view() && final(vm).io_view().output() == old(vm).io_view().output() && final(vm).io_view().write_succeeds() == old(vm).io_view().write_succeeds(),
{
    let b = command.get_bytes();
    let dr = ((b / 0x200) % 8) as u8;
    let pc = vm.reg_read(Register::RPC)?;
    let addr = pc.wrapping_add(sign_extend(b % 0x200, 0x200));
    let value = vm.mem_read(addr)?;
    vm.reg_index_write(dr, value)?;
    vm.update_flags(dr as usize)?;
    Ok(())
}

/// LDR: destination takes the word at the base-register-relative effective
/// address; flags update.
pub fn load_register<IO: IOHandle, P: Plugin<IO>>(vm: &mut VM<IO, P>, command: &Command) -> (r:
    LC3Result<()>)
    ensures
        old(vm).quiet() ==> (r matches Ok(_) ==> final(vm).regs() == regs_written(
            old(vm).regs(),
            dr_of(command.bytes_spec()) as int,
            read_value(
                old(vm).mem(),
                old(vm).io_view(),
                base_rel_addr(old(vm).regs(), command.bytes_spec()),
            ),
        ) && final(vm).mem() == mem_after_read(
            old(vm).mem(),
            old(vm).io_view(),
            base_rel_addr(old(vm).regs(), command.bytes_spec()),
        ) && final(vm).run_flag() == old(vm).run_flag() && final(vm).plugins_view() == old(vm).plugins_view()),
        old(vm).quiet() && base_rel_addr(old(vm).regs(), command.bytes_spec()) != KB_STATUS_POS
            ==> r == Ok::<(), LC3Error>(()) && final(vm).io_view() == old(vm).io_view(),
        old(vm).quiet() ==> final(vm).run_flag() == old(vm).run_flag() && final(vm).plugins_view()
            == old(vm).plugins_view() && final(vm).io_view().output() == old(vm).io_view().output() && final(vm).io_view().write_succeeds() == old(vm).io_view().write_succeeds(),
{
    let b = command.get_bytes();
    let dr = ((b / 0x200) % 8) as u8;
    let base = ((b / 0x40) % 8) as u8;
    let base_val = vm.reg_index_read(base)?;
    let addr = base_val.wrapping_add(sign_extend(b % 0x40, 0x40));
    let value = vm.mem_read(addr)?;
    vm.reg_index_write(dr, value)?;
    vm.update_flags(dr as usize)?;
    Ok(())
}

/// LDI: read a pointer at the PC-relative address, then load indirectly
/// through it; flags update. Stated for a first read away from the
/// keyboard status address.
pub fn load_indirect<IO: IOHandle, P: Plugin<IO>>(vm: &mut VM<IO, P>, command: &Command) -> (r:
    LC3Result<()>)
    ensures
        old(vm).quiet() && pc_rel_addr(old(vm).regs(), command.bytes_spec()) != KB_STATUS_POS ==> (
        r matches Ok(_) ==> final(vm).regs() == regs_written(
            old(vm).regs(),
            dr_of(command.bytes_spec()) as int,
            read_value(
                old(vm).mem(),
                old(vm).io_view(),
                old(vm).mem()[pc_rel_addr(old(vm).regs(), command.bytes_spec()) as int],
            ),
        ) && final(vm).mem() == mem_after_read(
            old(vm).mem(),
            old(vm).io_view(),
            old(vm).mem()[pc_rel_addr(old(vm).regs(), command.bytes_spec()) as int],
        ) && final(vm).run_flag() == old(vm).run_flag() && final(vm).plugins_view() == old(vm).plugins_view()),
        old(vm).quiet() && pc_rel_addr(old(vm).regs(), command.bytes_spec()) != KB_STATUS_POS && old(vm).mem()[pc_rel_addr(old(vm).regs(), command.bytes_spec()) as int] != KB_STATUS_POS ==> r
            == Ok::<(), LC3Error>(()) && final(vm).io_view() == old(vm).io_view(),
        old(vm).quiet() ==> final(vm).run_flag() == old(vm).run_flag() && final(vm).plugins_view()
            == old(vm).plugins_view() && final(vm).io_view().output() == old(vm).io_view().output() && final(vm).io_view().write_succeeds() == old(vm).io_view().write_succeeds(),
        old(vm).quiet() && pc_rel_addr(old(vm).regs(), command.bytes_spec()) == KB_STATUS_POS
            && read_value(
            old(vm).mem(),
            old(vm).io_view(),
            pc_rel_addr(old(vm).regs(), command.bytes_spec()),
        ) != KB_STATUS_POS ==> (r matches Ok(_) ==> final(vm).regs() == regs_written(
            old(vm).regs(),
            dr_of(command.bytes_spec()) as int,
            mem_after_read(
                old(vm).mem(),
                old(vm).io_view(),
                pc_rel_addr(old(vm).regs(), command.bytes_spec()),
            )[read_value(
                old(vm).mem(),
                old(vm).io_view(),
                pc_rel_addr(old(vm).regs(), command.bytes_spec()),
            ) as int],
        ) && final(vm).mem() == mem_after_read(
            old(vm).mem(),
            old(vm).io_view(),
            pc_rel_addr(old(vm).regs(), command.bytes_spec()),
        )),
{
    let b = command.get_bytes();
    let dr = ((b / 0x200) % 8) as u8;
    let pc = vm.reg_read(Register::RPC)?;
    let addr = pc.wrapping_add(sign_extend(b % 0x200, 0x200));
    let pointer = vm.mem_read(addr)?;
    let value = vm.mem_read(pointer)?;
    vm.reg_index_write(dr, value)?;
    vm.update_flags(dr as usize)?;
    Ok(())
}

/// LEA: destination takes the PC-relative effective address itself; flags
/// update. No memory access happens.
pub fn load_effective_address<IO: IOHandle, P: Plugin<IO>>(
    vm: &mut VM<IO, P>,
    command: &Command,
) -> (r: LC3Result<()>)
    ensures
        old(vm).quiet() ==> r == Ok::<(), LC3Error>(()) && final(vm).regs() == regs_written(
            old(vm).regs(),
            dr_of(command.bytes_spec()) as int,
            pc_rel_addr(old(vm).regs(), command.bytes_spec()),
        ) && VM::frames_regs(*old(vm), *final(vm)),
{
    let b = command.get_bytes();
    let dr = ((b / 0x200) % 8) as u8;
    let pc = vm.reg_read(Register::RPC)?;
    let addr = pc.wrapping_add(sign_extend(b % 0x200, 0x200));
    vm.reg_index_write(dr, addr)?;
    vm.update_flags(dr as usize)?;
    Ok(())
}

/// ST: store the source register's word at the PC-relative effective
/// address; no flag update.
pub fn store<IO: IOHandle, P: Plugin<IO>>(vm: &mut VM<IO, P>, command: &Command) -> (r: LC3Result<
    (),
>)
    ensures
        old(vm).quiet() ==> r == Ok::<(), LC3Error>(()) && final(vm).mem() == old(vm).mem().update(
            pc_rel_addr(old(vm).regs(), command.bytes_spec()) as int,
            old(vm).regs()[dr_of(command.bytes_spec()) as int],
        ) && VM::frames_mem(*old(vm), *final(vm)),
{
    let b = command.get_bytes();
    let sr = ((b / 0x200) % 8) as u8;
    let pc = vm.reg_read(Register::RPC)?;
    let addr = pc.wrapping_add(sign_extend(b % 0x200, 0x200));
    let value = vm.reg_index_read(sr)?;
    vm.mem_write(addr, value)?;
    Ok(())
}

/// STR: store the source register's word at the base-register-relative
/// effective address; no flag update.
pub fn store_register<IO: IOHandle, P: Plugin<IO>>(vm: &mut VM<IO, P>, command: &Command) -> (r:
    LC3Result<()>)
    ensures
        old(vm).quiet() ==> r == Ok::<(), LC3Error>(()) && final(vm).mem() == old(vm).mem().update(
            base_rel_addr(old(vm).regs(), command.bytes_spec()) as int,
            old(vm).regs()[dr_of(command.bytes_spec()) as int],
        ) && VM::frames_mem(*old(vm), *final(vm)),
{
    let b = command.get_bytes();
    let sr = ((b / 0x200) % 8) as u8;
    let base = ((b / 0x40) % 8) as u8;
    let base_val = vm.reg_index_read(base)?;
    let addr = base_val.wrapping_add(sign_extend(b % 0x40, 0x40));
    let value = vm.reg_index_read(sr)?;
    vm.mem_write(addr, value)?;
    Ok(())
}

/// STI: read a pointer at the PC-relative address, then store the source
/// register's word through it; no flag update. Stated for a pointer read
/// away from the keyboard status address.
pub fn store_indirect<IO: IOHandle, P: Plugin<IO>>(vm: &mut VM<IO, P>, command: &Command) -> (r:
    LC3Result<()>)
    ensures
        old(vm).quiet() && pc_rel_addr(old(vm).regs(), command.bytes_spec()) != KB_STATUS_POS ==> r
            == Ok::<(), LC3Error>(()) && final(vm).mem() == old(vm).mem().update(
            old(vm).mem()[pc_rel_addr(old(vm).regs(), command.bytes_spec()) as int] as int,
            old(vm).regs()[dr_of(command.bytes_spec()) as int],
        ) && VM::frames_mem(*old(vm), *final(vm)),
        old(vm).quiet() ==> final(vm).regs() == old(vm).regs() && final(vm).run_flag() == old(vm).run_flag() && final(vm).plugins_view() == old(vm).plugins_view() && final(vm).io_view().output() == old(vm).io_view().output() && final(vm).io_view().write_succeeds()
            == old(vm).io_view().write_succeeds(),
        old(vm).quiet() && pc_rel_addr(old(vm).regs(), command.bytes_spec()) == KB_STATUS_POS ==> (
        r matches Ok(_) ==> final(vm).mem() == mem_after_read(
            old(vm).mem(),
            old(vm).io_view(),
            pc_rel_addr(old(vm).regs(), command.bytes_spec()),
        ).update(
            read_value(
                old(vm).mem(),
                old(vm).io_view(),
                pc_rel_addr(old(vm).regs(), command.bytes_spec()),
            ) as int,
            old(vm).regs()[dr_of(command.bytes_spec()) as int],
        )),
{
    let b = command.get_bytes();
    let sr = ((b / 0x200) % 8) as u8;
    let pc = vm.reg_read(Register::RPC)?;
    let addr = pc.wrapping_add(sign_extend(b % 0x200, 0x200));
    let pointer = vm.mem_read(addr)?;
    let value = vm.reg_index_read(sr)?;
    vm.mem_write(pointer, value)?;
    Ok(())
}

/// RTI: privileged return-from-interrupt, outside this machine's scope;
/// reported as an unimplemented opcode, leaving the machine untouched.
pub fn rti<IO: IOHandle, P: Plugin<IO>>(vm: &mut VM<IO, P>, command: &Command) -> (r: LC3Result<
    (),
>)
    ensures
        *final(vm) == *old(vm),
        r == Err::<(), LC3Error>(LC3Error::UnimplementedOpcode { op_code: 8 }),
{
    let _ = command.get_bytes();
    Err(LC3Error::UnimplementedOpcode { op_code: 8 })
}

/// The reserved opcode: outside this machine's scope; reported as an
/// unimplemented opcode, leaving the machine untouched.
pub fn reserved<IO: IOHandle, P: Plugin<IO>>(vm: &mut VM<IO, P>, command: &Command) -> (r:
    LC3Result<()>)
    ensures
        *final(vm) == *old(vm),
        r == Err::<(), LC3Error>(LC3Error::UnimplementedOpcode { op_code: 13 }),
{
    let _ = command.get_bytes();
    Err(LC3Error::UnimplementedOpcode { op_code: 13 })
}

} // verus!
