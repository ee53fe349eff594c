//! The trap dispatcher and its system-call-like routines: character input
//! and output, string output (one character per word, or two packed per
//! word), prompt-and-echo input, and halting the machine.

use crate::command::Command;
use crate::command::trap_vector_of;
use crate::error::LC3Error;
use crate::error::LC3Result;
use crate::io::IOHandle;
use crate::plugin::Plugin;
use crate::vm::KB_STATUS_POS;
use crate::vm::MEMORY_SIZE;
use crate::vm::VM;
use crate::vm::char_word;
use crate::vm::lemma_prefix_append;
use crate::vm::lemma_prefix_push;
use crate::vm::lemma_prefix_refl;
use crate::vm::output_extended;
use vstd::prelude::*;

verus! {

/// The character in a word's low byte.
pub open spec fn byte_char(v: u16) -> char {
    ((v % 0x100) as u8) as char
}

/// The character in a word's high byte.
pub open spec fn high_byte_char(v: u16) -> char {
    ((v / 0x100) as u8) as char
}

/// The address of the first zero word at or after `start`, or the size of
/// memory when none exists up to the end of the address space.
pub open spec fn nul_index(mem: Seq<u16>, start: int) -> int
    decreases 0x10000 - start when start <= 0x10000
{
    if start < 0 || start >= 0x10000 {
        0x10000
    } else if mem[start] == 0 {
        start
    } else {
        nul_index(mem, start + 1)
    }
}

pub proof fn lemma_nul_index(mem: Seq<u16>, start: int)
    requires
        0 <= start <= 0x10000,
    ensures
        start <= nul_index(mem, start) <= 0x10000,
        nul_index(mem, start) < 0x10000 ==> mem[nul_index(mem, start)] == 0,
        forall|j: int| start <= j < nul_index(mem, start) ==> mem[j] != 0,
    decreases 0x10000 - start,
{
    if start < 0x10000 && mem[start] != 0 {
        lemma_nul_index(mem, start + 1);
    }
}

/// The characters PUTS writes for the string starting at `start`: the low
/// byte of every word before the terminating zero, one character per word.
pub open spec fn puts_chars(mem: Seq<u16>, start: int) -> Seq<char>
    decreases 0x10000 - start when start <= 0x10000
{
    if start < 0 || start >= 0x10000 || mem[start] == 0 {
        Seq::empty()
    } else {
        seq![byte_char(mem[start])] + puts_chars(mem, start + 1)
    }
}

/// The characters PUTSP writes for the packed string starting at `start`:
/// for every word before the terminating zero word, its low-byte character,
/// then its high-byte character unless the high byte is zero.
pub open spec fn putsp_chars(mem: Seq<u16>, start: int) -> Seq<char>
    decreases 0x10000 - start when start <= 0x10000
{
    if start < 0 || start >= 0x10000 || mem[start] == 0 {
        Seq::empty()
    } else if mem[start] / 0x100 == 0 {
        seq![byte_char(mem[start])] + putsp_chars(mem, start + 1)
    } else {
        seq![byte_char(mem[start]), high_byte_char(mem[start])] + putsp_chars(mem, start + 1)
    }
}

/// The prompt IN writes before reading.
pub open spec fn prompt_chars() -> Seq<char> {
    seq!['E', 'n', 't', 'e', 'r', ' ', 'a', ' ', 'c', 'h', 'a', 'r', 'a', 'c', 't', 'e', 'r', ':', ' ']
}

/// What each defined trap vector does to a quiet machine, relating the
/// states before and after the dispatch and the result.
pub open spec fn trap_effects<IO: IOHandle, P: Plugin<IO>>(
    pre: VM<IO, P>,
    post: VM<IO, P>,
    b: u16,
    r: LC3Result<()>,
) -> bool {
    let v = trap_vector_of(b);
    &&& (pre.io_view().write_succeeds() ==> output_extended(pre.io_view(), post.io_view()))
    &&& (v == 0x20 ==> {
        &&& post.mem() == pre.mem() && post.run_flag() == pre.run_flag() && post.plugins_view()
            == pre.plugins_view() && post.io_view().output() == pre.io_view().output()
        &&& (r matches Ok(_) ==> post.regs() == pre.regs().update(
            0,
            char_word(pre.io_view().pending_key()),
        ))
        &&& (r matches Err(_) ==> post.regs() == pre.regs())
        &&& (pre.io_view().read_succeeds() ==> r == Ok::<(), LC3Error>(()))
    })
    &&& (v == 0x21 ==> {
        &&& post.mem() == pre.mem() && post.regs() == pre.regs() && post.run_flag()
            == pre.run_flag() && post.plugins_view() == pre.plugins_view()
        &&& post.io_view().key_pending() == pre.io_view().key_pending()
        &&& post.io_view().pending_key() == pre.io_view().pending_key()
        &&& (r matches Ok(_) ==> post.io_view().output() == pre.io_view().output().push(
            byte_char(pre.regs()[0]),
        ))
        &&& (pre.io_view().write_succeeds() ==> r == Ok::<(), LC3Error>(()))
    })
    &&& (v == 0x22 ==> {
        &&& post.regs() == pre.regs() && post.run_flag() == pre.run_flag() && post.plugins_view()
            == pre.plugins_view()
        &&& (nul_index(pre.mem(), pre.regs()[0] as int) < KB_STATUS_POS ==> {
            &&& post.mem() == pre.mem()
            &&& post.io_view().key_pending() == pre.io_view().key_pending()
            &&& post.io_view().pending_key() == pre.io_view().pending_key()
            &&& (r matches Ok(_) ==> post.io_view().output() == pre.io_view().output()
                + puts_chars(pre.mem(), pre.regs()[0] as int))
            &&& (pre.io_view().write_succeeds() ==> r == Ok::<(), LC3Error>(()))
        })
    })
    &&& (v == 0x23 ==> {
        &&& post.mem() == pre.mem() && post.run_flag() == pre.run_flag() && post.plugins_view()
            == pre.plugins_view()
        &&& (r matches Ok(_) ==> post.regs() == pre.regs().update(
            0,
            char_word(pre.io_view().pending_key()),
        ) && post.io_view().output() == pre.io_view().output() + prompt_chars() + seq![
            pre.io_view().pending_key(),
        ])
        &&& (r matches Err(_) ==> post.regs() == pre.regs())
        &&& (pre.io_view().write_succeeds() && pre.io_view().read_succeeds() ==> r == Ok::<
            (),
            LC3Error,
        >(()))
    })
    &&& (v == 0x24 ==> {
        &&& post.regs() == pre.regs() && post.run_flag() == pre.run_flag() && post.plugins_view()
            == pre.plugins_view()
        &&& (nul_index(pre.mem(), pre.regs()[0] as int) < KB_STATUS_POS ==> {
            &&& post.mem() == pre.mem()
            &&& post.io_view().key_pending() == pre.io_view().key_pending()
            &&& post.io_view().pending_key() == pre.io_view().pending_key()
            &&& (r matches Ok(_) ==> post.io_view().output() == pre.io_view().output()
                + putsp_chars(pre.mem(), pre.regs()[0] as int))
            &&& (pre.io_view().write_succeeds() ==> r == Ok::<(), LC3Error>(()))
        })
    })
    &&& (v == 0x25 ==> r == Ok::<(), LC3Error>(()) && post.run_flag() == false && VM::frames_run(
        pre,
        post,
    ))
}

/// GETC: read one character into register 0, without echo and without a
/// flag update.
pub fn getc<IO: IOHandle, P: Plugin<IO>>(vm: &mut VM<IO, P>) -> (r: LC3Result<()>)
    ensures
        old(vm).quiet() ==> final(vm).mem() == old(vm).mem() && final(vm).run_flag() == old(vm).run_flag() && final(vm).plugins_view() == old(vm).plugins_view() && final(vm).io_view().output() == old(vm).io_view().output(),
        old(vm).quiet() ==> (r matches Ok(_) ==> final(vm).regs() == old(vm).regs().update(
            0,
            char_word(old(vm).io_view().pending_key()),
        )),
        old(vm).quiet() ==> (r matches Err(_) ==> final(vm).regs() == old(vm).regs()),
        old(vm).quiet() && old(vm).io_view().read_succeeds() ==> r == Ok::<(), LC3Error>(()),
        old(vm).quiet() ==> final(vm).io_view().write_succeeds() == old(
            vm,
        ).io_view().write_succeeds() && output_extended(old(vm).io_view(), final(vm).io_view()),
{
    let ch = vm.getchar()?;
    let code = ch as u32;
    vm.reg_index_write(0, (code % 0x10000) as u16)?;
    proof {
        lemma_prefix_refl(old(vm).io_view().output());
    }
    Ok(())
}

/// OUT: write register 0's low byte as one character.
pub fn out<IO: IOHandle, P: Plugin<IO>>(vm: &mut VM<IO, P>) -> (r: LC3Result<()>)
    ensures
        old(vm).quiet() ==> final(vm).mem() == old(vm).mem() && final(vm).regs() == old(vm).regs()
            && final(vm).run_flag() == old(vm).run_flag() && final(vm).plugins_view() == old(vm).plugins_view() && final(vm).io_view().key_pending() == old(vm).io_view().key_pending()
            && final(vm).io_view().pending_key() == old(vm).io_view().pending_key(),
        old(vm).quiet() ==> (r matches Ok(_) ==> final(vm).io_view().output() == old(vm).io_view().output().push(byte_char(old(vm).regs()[0]))),
        old(vm).quiet() && old(vm).io_view().write_succeeds() ==> r == Ok::<(), LC3Error>(()),
        old(vm).quiet() && old(vm).io_view().write_succeeds() ==> output_extended(
            old(vm).io_view(),
            final(vm).io_view(),
        ),
{
    let value = vm.reg_index_read(0)?;
    let byte = (value % 0x100) as u8;
    vm.putchar(byte as char)?;
    proof {
        if old(vm).quiet() {
            lemma_prefix_append(old(vm).io_view().output(), seq![byte_char(old(vm).regs()[0])]);
            assert(old(vm).io_view().output().push(byte_char(old(vm).regs()[0]))
                =~= old(vm).io_view().output() + seq![byte_char(old(vm).regs()[0])]);
        }
    }
    Ok(())
}

/// PUTS: write the zero-terminated string of one-character-per-word words
/// starting at the address in register 0. For a string that terminates
/// below the device registers the exact output is pinned down; a string
/// that never terminates within the address space is an internal error.
pub fn puts<IO: IOHandle, P: Plugin<IO>>(vm: &mut VM<IO, P>) -> (r: LC3Result<()>)
    ensures
        old(vm).quiet() ==> final(vm).regs() == old(vm).regs() && final(vm).run_flag() == old(vm).run_flag() && final(vm).plugins_view() == old(vm).plugins_view(),
        old(vm).quiet() && nul_index(old(vm).mem(), old(vm).regs()[0] as int) < KB_STATUS_POS ==>
            final(vm).mem() == old(vm).mem() && final(vm).io_view().key_pending() == old(vm).io_view().key_pending() && final(vm).io_view().pending_key() == old(vm).io_view().pending_key() && (r matches Ok(_) ==> final(vm).io_view().output() == old(vm).io_view().output() + puts_chars(old(vm).mem(), old(vm).regs()[0] as int)),
        old(vm).quiet() && nul_index(old(vm).mem(), old(vm).regs()[0] as int) < KB_STATUS_POS
            && old(vm).io_view().write_succeeds() ==> r == Ok::<(), LC3Error>(()),
        old(vm).quiet() && old(vm).io_view().write_succeeds() ==> output_extended(
            old(vm).io_view(),
            final(vm).io_view(),
        ),
{
    let start = vm.reg_index_read(0)?;
    let ghost base = start as int;
    let ghost nul = nul_index(old(vm).mem(), base);
    proof {
        lemma_nul_index(old(vm).mem(), base);
        lemma_prefix_refl(old(vm).io_view().output());
    }
    let mut offset: usize = 0;
    while offset < MEMORY_SIZE
        invariant
            old(vm).quiet() ==> vm.regs() == old(vm).regs() && vm.run_flag() == old(vm).run_flag()
                && vm.plugins_view() == old(vm).plugins_view() && start == old(vm).regs()[0],
            old(vm).quiet() && old(vm).io_view().write_succeeds() ==> old(
                vm,
            ).io_view().output().is_prefix_of(vm.io_view().output())
                && vm.io_view().write_succeeds(),
            old(vm).quiet() && nul < KB_STATUS_POS ==> vm.mem() == old(vm).mem()
                && vm.io_view().key_pending() == old(vm).io_view().key_pending()
                && vm.io_view().pending_key() == old(vm).io_view().pending_key()
                && vm.io_view().write_succeeds() == old(vm).io_view().write_succeeds() && base
                + offset <= nul && vm.io_view().output() + puts_chars(old(vm).mem(), base + offset)
                == old(vm).io_view().output() + puts_chars(old(vm).mem(), base),
            nul == nul_index(old(vm).mem(), base),
            base == start as int,
            start <= nul <= 0x10000,
            nul < 0x10000 ==> old(vm).mem()[nul] == 0,
            forall|j: int| base <= j < nul ==> old(vm).mem()[j] != 0,
        decreases MEMORY_SIZE - offset,
    {
        let addr = start.wrapping_add(offset as u16);
        let value = vm.mem_read(addr)?;
        if value == 0 {
            proof {
                if old(vm).quiet() && nul < KB_STATUS_POS {
                    assert(vm.io_view().output() + Seq::<char>::empty() =~= vm.io_view().output());
                }
            }
            return Ok(());
        }
        let byte = (value % 0x100) as u8;
        let ghost pre_out = vm.io_view().output();
        vm.putchar(byte as char)?;
        proof {
            if old(vm).quiet() && old(vm).io_view().write_succeeds() {
                lemma_prefix_push(old(vm).io_view().output(), pre_out, byte as char);
            }
            if old(vm).quiet() && nul < KB_STATUS_POS {
                assert(base + offset < nul);
                assert(pre_out.push(byte_char(old(vm).mem()[base + offset])) + puts_chars(
                    old(vm).mem(),
                    base + offset + 1,
                ) =~= pre_out + puts_chars(old(vm).mem(), base + offset));
            }
        }
        offset = offset + 1;
    }
    Err(LC3Error::Internal)
}

/// IN: write a prompt, read one character, echo it, and store it in
/// register 0; no flag update.
pub fn in_char<IO: IOHandle, P: Plugin<IO>>(vm: &mut VM<IO, P>) -> (r: LC3Result<()>)
    ensures
        old(vm).quiet() ==> final(vm).mem() == old(vm).mem() && final(vm).run_flag() == old(vm).run_flag() && final(vm).plugins_view() == old(vm).plugins_view(),
        old(vm).quiet() ==> (r matches Ok(_) ==> final(vm).regs() == old(vm).regs().update(
            0,
            char_word(old(vm).io_view().pending_key()),
        ) && final(vm).io_view().output() == old(vm).io_view().output() + prompt_chars() + seq![
            old(vm).io_view().pending_key(),
        ]),
        old(vm).quiet() ==> (r matches Err(_) ==> final(vm).regs() == old(vm).regs()),
        old(vm).quiet() && old(vm).io_view().write_succeeds() && old(vm).io_view().read_succeeds()
            ==> r == Ok::<(), LC3Error>(()),
        old(vm).quiet() && old(vm).io_view().write_succeeds() ==> output_extended(
            old(vm).io_view(),
            final(vm).io_view(),
        ),
{
    proof {
        lemma_prefix_refl(old(vm).io_view().output());
    }
    vm.putchar('E')?;
    vm.putchar('n')?;
    vm.putchar('t')?;
    vm.putchar('e')?;
    vm.putchar('r')?;
    vm.putchar(' ')?;
    vm.putchar('a')?;
    vm.putchar(' ')?;
    vm.putchar('c')?;
    vm.putchar('h')?;
    vm.putchar('a')?;
    vm.putchar('r')?;
    vm.putchar('a')?;
    vm.putchar('c')?;
    vm.putchar('t')?;
    vm.putchar('e')?;
    vm.putchar('r')?;
    vm.putchar(':')?;
    vm.putchar(' ')?;
    let ch = match vm.getchar() {
        Ok(c) => c,
        Err(e) => {
            proof {
                if old(vm).quiet() && old(vm).io_view().write_succeeds() {
                    assert(vm.io_view().output() =~= old(vm).io_view().output() + prompt_chars());
                    lemma_prefix_append(old(vm).io_view().output(), prompt_chars());
                }
            }
            return Err(e);
        },
    };
    vm.putchar(ch)?;
    let code = ch as u32;
    vm.reg_index_write(0, (code % 0x10000) as u16)?;
    proof {
        if old(vm).quiet() {
            assert(vm.io_view().output() =~= old(vm).io_view().output() + (prompt_chars() + seq![
                old(vm).io_view().pending_key(),
            ]));
            assert(vm.io_view().output() =~= old(vm).io_view().output() + prompt_chars() + seq![
                old(vm).io_view().pending_key(),
            ]);
            lemma_prefix_append(
                old(vm).io_view().output(),
                prompt_chars() + seq![old(vm).io_view().pending_key()],
            );
        }
    }
    Ok(())
}

/// PUTSP: write the zero-terminated packed string starting at the address
/// in register 0: each word's low-byte character, then its high-byte
/// character unless zero. For a string that terminates below the device
/// registers the exact output is pinned down; a string that never
/// terminates within the address space is an internal error.
pub fn putsp<IO: IOHandle, P: Plugin<IO>>(vm: &mut VM<IO, P>) -> (r: LC3Result<()>)
    ensures
        old(vm).quiet() ==> final(vm).regs() == old(vm).regs() && final(vm).run_flag() == old(vm).run_flag() && final(vm).plugins_view() == old(vm).plugins_view(),
        old(vm).quiet() && nul_index(old(vm).mem(), old(vm).regs()[0] as int) < KB_STATUS_POS ==>
            final(vm).mem() == old(vm).mem() && final(vm).io_view().key_pending() == old(vm).io_view().key_pending() && final(vm).io_view().pending_key() == old(vm).io_view().pending_key() && (r matches Ok(_) ==> final(vm).io_view().output() == old(vm).io_view().output() + putsp_chars(old(vm).mem(), old(vm).regs()[0] as int)),
        old(vm).quiet() && nul_index(old(vm).mem(), old(vm).regs()[0] as int) < KB_STATUS_POS
            && old(vm).io_view().write_succeeds() ==> r == Ok::<(), LC3Error>(()),
        old(vm).quiet() && old(vm).io_view().write_succeeds() ==> output_extended(
            old(vm).io_view(),
            final(vm).io_view(),
        ),
{
    let start = vm.reg_index_read(0)?;
    let ghost base = start as int;
    let ghost nul = nul_index(old(vm).mem(), base);
    proof {
        lemma_nul_index(old(vm).mem(), base);
        lemma_prefix_refl(old(vm).io_view().output());
    }
    let mut offset: usize = 0;
    while offset < MEMORY_SIZE
        invariant
            old(vm).quiet() ==> vm.regs() == old(vm).regs() && vm.run_flag() == old(vm).run_flag()
                && vm.plugins_view() == old(vm).plugins_view() && start == old(vm).regs()[0],
            old(vm).quiet() && old(vm).io_view().write_succeeds() ==> old(
                vm,
            ).io_view().output().is_prefix_of(vm.io_view().output())
                && vm.io_view().write_succeeds(),
            old(vm).quiet() && nul < KB_STATUS_POS ==> vm.mem() == old(vm).mem()
                && vm.io_view().key_pending() == old(vm).io_view().key_pending()
                && vm.io_view().pending_key() == old(vm).io_view().pending_key()
                && vm.io_view().write_succeeds() == old(vm).io_view().write_succeeds() && base
                + offset <= nul && vm.io_view().output() + putsp_chars(old(vm).mem(), base + offset)
                == old(vm).io_view().output() + putsp_chars(old(vm).mem(), base),
            nul == nul_index(old(vm).mem(), base),
            base == start as int,
            start <= nul <= 0x10000,
            nul < 0x10000 ==> old(vm).mem()[nul] == 0,
            forall|j: int| base <= j < nul ==> old(vm).mem()[j] != 0,
        decreases MEMORY_SIZE - offset,
    {
        let addr = start.wrapping_add(offset as u16);
        let value = vm.mem_read(addr)?;
        if value == 0 {
            proof {
                if old(vm).quiet() && nul < KB_STATUS_POS {
                    assert(vm.io_view().output() + Seq::<char>::empty() =~= vm.io_view().output());
                }
            }
            return Ok(());
        }
        let low = (value % 0x100) as u8;
        let high = (value / 0x100) as u8;
        let ghost pre_out = vm.io_view().output();
        vm.putchar(low as char)?;
        proof {
            if old(vm).quiet() && old(vm).io_view().write_succeeds() {
                lemma_prefix_push(old(vm).io_view().output(), pre_out, low as char);
            }
        }
        let ghost mid_out = vm.io_view().output();
        if high != 0 {
            vm.putchar(high as char)?;
        }
        proof {
            if old(vm).quiet() && old(vm).io_view().write_succeeds() && high != 0 {
                lemma_prefix_push(old(vm).io_view().output(), mid_out, high as char);
            }
            if old(vm).quiet() && nul < KB_STATUS_POS {
                assert(base + offset < nul);
                if high == 0 {
                    assert(pre_out.push(byte_char(old(vm).mem()[base + offset])) + putsp_chars(
                        old(vm).mem(),
                        base + offset + 1,
                    ) =~= pre_out + putsp_chars(old(vm).mem(), base + offset));
                } else {
                    assert(pre_out.push(byte_char(old(vm).mem()[base + offset])).push(
                        high_byte_char(old(vm).mem()[base + offset]),
                    ) + putsp_chars(old(vm).mem(), base + offset + 1) =~= pre_out + putsp_chars(
                        old(vm).mem(),
                        base + offset,
                    ));
                }
            }
        }
        offset = offset + 1;
    }
    Err(LC3Error::Internal)
}

/// HALT: clear the run flag; the fetch-execute loop stops before the next
/// instruction.
pub fn halt<IO: IOHandle, P: Plugin<IO>>(vm: &mut VM<IO, P>) -> (r: LC3Result<()>)
    ensures
        old(vm).quiet() ==> r == Ok::<(), LC3Error>(()) && final(vm).run_flag() == false
            && VM::frames_run(*old(vm), *final(vm)),
{
    vm.set_running(false)?;
    Ok(())
}

/// TRAP: dispatch on the low 8 bits of the instruction. A vector outside
/// the defined set is a programming error in the loaded binary and is
/// reported, leaving the machine untouched.
pub fn trap<IO: IOHandle, P: Plugin<IO>>(vm: &mut VM<IO, P>, command: &Command) -> (r: LC3Result<
    (),
>)
    ensures
        old(vm).quiet() ==> trap_effects(*old(vm), *final(vm), command.bytes_spec(), r),
        old(vm).quiet() ==> final(vm).run_flag() == (if trap_vector_of(command.bytes_spec())
            == 0x25 {
            false
        } else {
            old(vm).run_flag()
        }) && final(vm).plugins_view() == old(vm).plugins_view(),
        old(vm).quiet() && trap_vector_of(command.bytes_spec()) == 0x25 ==> r == Ok::<
            (),
            LC3Error,
        >(()) && final(vm).run_flag() == false && VM::frames_run(*old(vm), *final(vm)),
        !(trap_vector_of(command.bytes_spec()) == 0x20 || trap_vector_of(command.bytes_spec())
            == 0x21 || trap_vector_of(command.bytes_spec()) == 0x22 || trap_vector_of(
            command.bytes_spec(),
        ) == 0x23 || trap_vector_of(command.bytes_spec()) == 0x24 || trap_vector_of(
            command.bytes_spec(),
        ) == 0x25) ==> r == Err::<(), LC3Error>(
            LC3Error::UnknownTrapVector { vector: trap_vector_of(command.bytes_spec()) },
        ) && *final(vm) == *old(vm),
{
    proof {
        lemma_prefix_refl(old(vm).io_view().output());
    }
    let b = command.get_bytes();
    let vector = b % 0x100;
    if vector == 0x20 {
        getc(vm)
    } else if vector == 0x21 {
        out(vm)
    } else if vector == 0x22 {
        puts(vm)
    } else if vector == 0x23 {
        in_char(vm)
    } else if vector == 0x24 {
        putsp(vm)
    } else if vector == 0x25 {
        halt(vm)
    } else {
        Err(LC3Error::UnknownTrapVector { vector })
    }
}

} // verus!
