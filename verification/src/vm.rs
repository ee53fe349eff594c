//! The machine itself: 65,536 words of memory (two of them memory-mapped
//! keyboard registers), the register file, the run flag, the I/O capability,
//! and the plugin registry. Every accessor reports its access to the plugin
//! bus; accesses a plugin makes while handling an event are applied silently.
//!
//! The deterministic contracts below are stated for a machine that is
//! `quiet`: one with no plugins registered, or one whose plugin registry is
//! detached because a notification round is in progress. With plugins
//! attached a handler may rewrite any part of the state, so only the effects
//! applied after the notification are promised unconditionally.

use crate::command::Command;
use crate::command::op_code_of;
use crate::command::word_add;
use crate::command::trap_vector_of;
use crate::condition_flags::FL_NEG;
use crate::condition_flags::FL_POS;
use crate::condition_flags::FL_ZRO;
use crate::condition_flags::flag_of;
use crate::error::LC3Error;
use crate::error::LC3Result;
use crate::io::IOHandle;
use crate::handler;
use crate::op::Op;
use crate::plugin::Event;
use crate::plugin::Plugin;
use crate::register::NUM_REGISTERS;
use crate::register::PC_INDEX;
use crate::register::Register;
use crate::trap;
use vstd::prelude::*;

verus! {

pub const MEMORY_SIZE: usize = 65536;

/// The largest number of words a program may hold: the space between the
/// load address and the end of memory.
pub const MAX_PROGRAM_LEN: usize = MEMORY_SIZE - 0x3000;

/// The fixed start address programs are loaded to and execution begins at.
pub const PC_START: u16 = 0x3000;

/// Address of the memory-mapped keyboard status register.
pub const KB_STATUS_POS: u16 = 0xFE00;

/// Address of the memory-mapped keyboard data register.
pub const KB_DATA_POS: u16 = 0xFE02;

/// The value the keyboard status register holds when a key is ready:
/// bit 15 set.
pub const KB_READY: u16 = 0x8000;

/// The 16-bit word a character occupies in memory or in a register: its
/// code point, truncated to 16 bits.
pub open spec fn char_word(c: char) -> u16 {
    ((c as u32) % 0x10000) as u16
}

/// Memory after a read of `addr`: reading the keyboard status address polls
/// the I/O capability and synchronously fills the status register (and, when
/// a key is pending, the data register); every other address leaves memory
/// as it is.
pub open spec fn mem_after_read<IO: IOHandle>(mem: Seq<u16>, io: IO, addr: u16) -> Seq<u16> {
    if addr == KB_STATUS_POS {
        if io.key_pending() {
            mem.update(KB_STATUS_POS as int, KB_READY).update(
                KB_DATA_POS as int,
                char_word(io.pending_key()),
            )
        } else {
            mem.update(KB_STATUS_POS as int, 0u16)
        }
    } else {
        mem
    }
}

/// The value a read of `addr` returns: the addressed cell of the memory
/// after the read.
pub open spec fn read_value<IO: IOHandle>(mem: Seq<u16>, io: IO, addr: u16) -> u16 {
    mem_after_read(mem, io, addr)[addr as int]
}


/// The I/O capability advanced by output alone: everything written before
/// is still there, in order, and the capability still accepts writes.
pub open spec fn output_extended<IO: IOHandle>(pre: IO, post: IO) -> bool {
    &&& pre.output().is_prefix_of(post.output())
    &&& post.write_succeeds() == pre.write_succeeds()
}

pub proof fn lemma_prefix_refl(a: Seq<char>)
    ensures
        a.is_prefix_of(a),
{
    assert(a =~= a.subrange(0, a.len() as int));
}

pub proof fn lemma_prefix_trans(a: Seq<char>, b: Seq<char>, c: Seq<char>)
    requires
        a.is_prefix_of(b),
        b.is_prefix_of(c),
    ensures
        a.is_prefix_of(c),
{
    assert(a =~= b.subrange(0, a.len() as int));
    assert(b =~= c.subrange(0, b.len() as int));
    assert(a =~= c.subrange(0, a.len() as int));
}

pub proof fn lemma_prefix_push(a: Seq<char>, b: Seq<char>, c: char)
    requires
        a.is_prefix_of(b),
    ensures
        a.is_prefix_of(b.push(c)),
{
    assert(a =~= b.subrange(0, a.len() as int));
    assert(a =~= b.push(c).subrange(0, a.len() as int));
}

pub proof fn lemma_prefix_append(a: Seq<char>, t: Seq<char>)
    ensures
        a.is_prefix_of(a + t),
{
    assert(a =~= (a + t).subrange(0, a.len() as int));
}

/// A machine state as the fetch-execute loop sees it: memory, register
/// file, run flag, and the characters written so far. The rest of the I/O
/// capability and the plugin registry stand apart, since the step relation
/// below covers only instructions whose effect they determine.
#[verifier::ext_equal]
pub struct MachineState {
    pub mem: Seq<u16>,
    pub regs: Seq<u16>,
    pub running: bool,
    pub out: Seq<char>,
}

/// The state execution starts from: the given memory and registers with
/// PC set to the start address, running, with the output written so far.
pub open spec fn boot_state(mem: Seq<u16>, regs: Seq<u16>, out: Seq<char>) -> MachineState {
    MachineState { mem, regs: regs.update(PC_INDEX as int, PC_START), running: true, out }
}

/// Whether the next instruction's whole effect is determined by the
/// machine state: it performs no character input, reads neither the
/// keyboard status address nor an unterminated string, and reports no
/// error. Such a step touches only memory, registers, the run flag and
/// the output, and succeeds whenever the capability accepts writes.
pub open spec fn determinate_step(s: MachineState) -> bool {
    let pc = s.regs[PC_INDEX as int];
    let b = s.mem[pc as int];
    let regs1 = s.regs.update(PC_INDEX as int, word_add(pc, 1));
    let op = op_code_of(b);
    &&& pc != KB_STATUS_POS
    &&& (op == 0 || op == 1 || op == 3 || op == 4 || op == 5 || op == 7 || op == 9 || op == 12
        || op == 14 || (op == 2 && handler::pc_rel_addr(regs1, b) != KB_STATUS_POS) || (op == 6
        && handler::base_rel_addr(regs1, b) != KB_STATUS_POS) || (op == 10
        && handler::pc_rel_addr(regs1, b) != KB_STATUS_POS && s.mem[handler::pc_rel_addr(
        regs1,
        b,
    ) as int] != KB_STATUS_POS) || (op == 11 && handler::pc_rel_addr(regs1, b) != KB_STATUS_POS)
        || (op == 15 && trap_vector_of(b) == 0x21) || (op == 15 && trap_vector_of(b) == 0x22
        && crate::trap::nul_index(s.mem, regs1[0] as int) < KB_STATUS_POS) || (op == 15
        && trap_vector_of(b) == 0x24 && crate::trap::nul_index(s.mem, regs1[0] as int)
        < KB_STATUS_POS) || (op == 15 && trap_vector_of(b) == 0x25))
}

/// One fetch-increment-decode-execute step of a `determinate_step`
/// instruction: the word at PC is fetched, PC is incremented, and the
/// instruction's effect per the opcode table is applied.
pub open spec fn step_state(s: MachineState) -> MachineState {
    let pc = s.regs[PC_INDEX as int];
    let b = s.mem[pc as int];
    let regs1 = s.regs.update(PC_INDEX as int, word_add(pc, 1));
    let op = op_code_of(b);
    if op == 0 {
        MachineState {
            mem: s.mem,
            regs: if handler::branch_taken(regs1, b) {
                regs1.update(
                    PC_INDEX as int,
                    word_add(regs1[PC_INDEX as int], crate::command::offset9_of(b)),
                )
            } else {
                regs1
            },
            running: s.running,
            out: s.out,
        }
    } else if op == 1 {
        MachineState {
            mem: s.mem,
            regs: handler::regs_written(
                regs1,
                crate::command::dr_of(b) as int,
                handler::add_value(regs1, b),
            ),
            running: s.running,
            out: s.out,
        }
    } else if op == 2 {
        MachineState {
            mem: s.mem,
            regs: handler::regs_written(
                regs1,
                crate::command::dr_of(b) as int,
                s.mem[handler::pc_rel_addr(regs1, b) as int],
            ),
            running: s.running,
            out: s.out,
        }
    } else if op == 3 {
        MachineState {
            mem: s.mem.update(
                handler::pc_rel_addr(regs1, b) as int,
                regs1[crate::command::dr_of(b) as int],
            ),
            regs: regs1,
            running: s.running,
            out: s.out,
        }
    } else if op == 4 {
        MachineState {
            mem: s.mem,
            regs: regs1.update(7, regs1[PC_INDEX as int]).update(
                PC_INDEX as int,
                handler::jsr_target(regs1, b),
            ),
            running: s.running,
            out: s.out,
        }
    } else if op == 5 {
        MachineState {
            mem: s.mem,
            regs: handler::regs_written(
                regs1,
                crate::command::dr_of(b) as int,
                handler::and_value(regs1, b),
            ),
            running: s.running,
            out: s.out,
        }
    } else if op == 6 {
        MachineState {
            mem: s.mem,
            regs: handler::regs_written(
                regs1,
                crate::command::dr_of(b) as int,
                s.mem[handler::base_rel_addr(regs1, b) as int],
            ),
            running: s.running,
            out: s.out,
        }
    } else if op == 7 {
        MachineState {
            mem: s.mem.update(
                handler::base_rel_addr(regs1, b) as int,
                regs1[crate::command::dr_of(b) as int],
            ),
            regs: regs1,
            running: s.running,
            out: s.out,
        }
    } else if op == 9 {
        MachineState {
            mem: s.mem,
            regs: handler::regs_written(
                regs1,
                crate::command::dr_of(b) as int,
                handler::not_value(regs1, b),
            ),
            running: s.running,
            out: s.out,
        }
    } else if op == 10 {
        MachineState {
            mem: s.mem,
            regs: handler::regs_written(
                regs1,
                crate::command::dr_of(b) as int,
                s.mem[s.mem[handler::pc_rel_addr(regs1, b) as int] as int],
            ),
            running: s.running,
            out: s.out,
        }
    } else if op == 11 {
        MachineState {
            mem: s.mem.update(
                s.mem[handler::pc_rel_addr(regs1, b) as int] as int,
                regs1[crate::command::dr_of(b) as int],
            ),
            regs: regs1,
            running: s.running,
            out: s.out,
        }
    } else if op == 12 {
        MachineState {
            mem: s.mem,
            regs: regs1.update(PC_INDEX as int, regs1[crate::command::sr1_of(b) as int]),
            running: s.running,
            out: s.out,
        }
    } else if op == 14 {
        MachineState {
            mem: s.mem,
            regs: handler::regs_written(
                regs1,
                crate::command::dr_of(b) as int,
                handler::pc_rel_addr(regs1, b),
            ),
            running: s.running,
            out: s.out,
        }
    } else if op == 15 {
        if trap_vector_of(b) == 0x21 {
            MachineState {
                mem: s.mem,
                regs: regs1,
                running: s.running,
                out: s.out.push(crate::trap::byte_char(regs1[0])),
            }
        } else if trap_vector_of(b) == 0x22 {
            MachineState {
                mem: s.mem,
                regs: regs1,
                running: s.running,
                out: s.out + crate::trap::puts_chars(s.mem, regs1[0] as int),
            }
        } else if trap_vector_of(b) == 0x24 {
            MachineState {
                mem: s.mem,
                regs: regs1,
                running: s.running,
                out: s.out + crate::trap::putsp_chars(s.mem, regs1[0] as int),
            }
        } else {
            MachineState { mem: s.mem, regs: regs1, running: false, out: s.out }
        }
    } else {
        s
    }
}

/// Execution from `s` for at most `n` `determinate_step` instructions:
/// the halted state it reaches, or nothing if it does not halt within `n`
/// such steps (because it needs more steps, would read input or the
/// keyboard status address, or would report an error).
pub open spec fn run_result(s: MachineState, n: nat) -> Option<MachineState>
    decreases n,
{
    if !s.running {
        Some(s)
    } else if n == 0 {
        None
    } else if determinate_step(s) {
        run_result(step_state(s), (n - 1) as nat)
    } else {
        None
    }
}


/// From a state that can still reach a halted state within the step
/// budget, and is running, the next instruction must be a
/// `determinate_step`: every other instruction ends the spec-level
/// execution.
proof fn lemma_reachable_running_step(bs: MachineState, s: MachineState, fuel: nat)
    requires
        forall|n: nat|
            n + 1 < u64::MAX && (#[trigger] run_result(bs, n)) is Some ==> exists|m: nat|
                m + 1 <= fuel && (#[trigger] run_result(s, m)) == run_result(bs, n),
        s.running,
        exists|n: nat| n + 1 < u64::MAX && (#[trigger] run_result(bs, n)) is Some,
    ensures
        determinate_step(s),
{
    let n0 = choose|n: nat| n + 1 < u64::MAX && (#[trigger] run_result(bs, n)) is Some;
    let m0 = choose|m: nat|
        m + 1 <= fuel && (#[trigger] run_result(s, m)) == run_result(bs, n0);
}

/// Taking the one possible step preserves reachability of the halted
/// state, with one unit of the budget spent.
proof fn lemma_step_keeps_reachability(bs: MachineState, s: MachineState, t: MachineState, fuel: nat)
    requires
        forall|n: nat|
            n + 1 < u64::MAX && (#[trigger] run_result(bs, n)) is Some ==> exists|m: nat|
                m + 1 <= fuel && (#[trigger] run_result(s, m)) == run_result(bs, n),
        s.running,
        determinate_step(s),
        t == step_state(s),
        fuel >= 1,
    ensures
        forall|n: nat|
            n + 1 < u64::MAX && (#[trigger] run_result(bs, n)) is Some ==> exists|m: nat|
                m + 1 <= fuel - 1 && (#[trigger] run_result(t, m)) == run_result(bs, n),
{
    assert forall|n: nat|
        n + 1 < u64::MAX && (#[trigger] run_result(bs, n)) is Some implies (exists|m: nat|
        m + 1 <= fuel - 1 && (#[trigger] run_result(t, m)) == run_result(bs, n)) by {
        let m = choose|m: nat|
            m + 1 <= fuel && (#[trigger] run_result(s, m)) == run_result(bs, n);
        assert(m >= 1);
        assert(run_result(t, (m - 1) as nat) == run_result(bs, n));
    }
}

pub struct VM<IO: IOHandle, P: Plugin<IO>> {
    memory: [u16; MEMORY_SIZE],
    registers: [u16; NUM_REGISTERS],
    running: bool,
    io_handle: IO,
    plugins: Option<Vec<P>>,
}

impl<IO: IOHandle, P: Plugin<IO>> VM<IO, P> {
    /// The memory, one 16-bit word per address.
    pub closed spec fn mem(self) -> Seq<u16> {
        self.memory@
    }

    /// The register file: eight general registers, then PC, then flags.
    pub closed spec fn regs(self) -> Seq<u16> {
        self.registers@
    }

    /// The run flag: true between the start of execution and the HALT trap.
    pub closed spec fn run_flag(self) -> bool {
        self.running
    }

    /// The machine state the step relation speaks of: memory, registers,
    /// run flag, and the output written so far.
    pub open spec fn state(self) -> MachineState {
        MachineState {
            mem: self.mem(),
            regs: self.regs(),
            running: self.run_flag(),
            out: self.io_view().output(),
        }
    }

    /// The I/O capability's state.
    pub closed spec fn io_view(self) -> IO {
        self.io_handle
    }

    /// The plugin registry: `None` while a notification round is in
    /// progress, otherwise the registered plugins in registration order.
    pub closed spec fn plugins_view(self) -> Option<Seq<P>> {
        match self.plugins {
            Some(v) => Some(v@),
            None => None,
        }
    }

    /// No plugins registered: notifications are delivered to nobody.
    pub open spec fn inert(self) -> bool {
        self.plugins_view() == Some(Seq::<P>::empty())
    }

    /// The registry is detached: a notification round is in progress, and
    /// nested accesses are applied without any further notification.
    pub open spec fn detached(self) -> bool {
        self.plugins_view() is None
    }

    /// No notification reaches any plugin: nobody is registered, or the
    /// registry is detached for the round in progress.
    pub open spec fn quiet(self) -> bool {
        self.inert() || self.detached()
    }

    /// Everything except memory agrees between the two states.
    pub open spec fn frames_mem(pre: Self, post: Self) -> bool {
        &&& post.regs() == pre.regs()
        &&& post.run_flag() == pre.run_flag()
        &&& post.io_view() == pre.io_view()
        &&& post.plugins_view() == pre.plugins_view()
    }

    /// Everything except the register file agrees between the two states.
    pub open spec fn frames_regs(pre: Self, post: Self) -> bool {
        &&& post.mem() == pre.mem()
        &&& post.run_flag() == pre.run_flag()
        &&& post.io_view() == pre.io_view()
        &&& post.plugins_view() == pre.plugins_view()
    }

    /// Everything except the run flag agrees between the two states.
    pub open spec fn frames_run(pre: Self, post: Self) -> bool {
        &&& post.mem() == pre.mem()
        &&& post.regs() == pre.regs()
        &&& post.io_view() == pre.io_view()
        &&& post.plugins_view() == pre.plugins_view()
    }

    /// Everything except the I/O capability agrees between the two states.
    pub open spec fn frames_io(pre: Self, post: Self) -> bool {
        &&& post.mem() == pre.mem()
        &&& post.regs() == pre.regs()
        &&& post.run_flag() == pre.run_flag()
        &&& post.plugins_view() == pre.plugins_view()
    }

    /// A fresh machine around the given I/O capability: memory and registers
    /// all zero, not running, no plugins.
    pub fn new_with_io(io_handle: IO) -> (r: Self)
        ensures
            r.mem().len() == MEMORY_SIZE,
            forall|i: int| 0 <= i < MEMORY_SIZE ==> r.mem()[i] == 0u16,
            r.regs().len() == NUM_REGISTERS,
            forall|i: int| 0 <= i < NUM_REGISTERS ==> r.regs()[i] == 0u16,
            r.run_flag() == false,
            r.io_view() == io_handle,
            r.inert(),
    {
        let memory = [0u16; MEMORY_SIZE];
        let registers = [0u16; NUM_REGISTERS];
        VM { memory, registers, running: false, io_handle, plugins: Some(Vec::new()) }
    }

    /// Register one more plugin, at the end of the registration order. While
    /// the registry is detached the call is applied to nothing.
    pub fn add_plugin(&mut self, plugin: P)
        ensures
            old(self).plugins_view() is Some ==> final(self).plugins_view() == Some(
                old(self).plugins_view().unwrap().push(plugin),
            ),
            old(self).plugins_view() is None ==> *final(self) == *old(self),
            final(self).mem() == old(self).mem(),
            final(self).regs() == old(self).regs(),
            final(self).run_flag() == old(self).run_flag(),
            final(self).io_view() == old(self).io_view(),
    {
        match &mut self.plugins {
            Some(s) => s.push(plugin),
            None => {},
        }
    }

    /// Surrender the machine and hand back its I/O capability.
    pub fn into_io_handle(self) -> (r: IO)
        ensures
            r == self.io_view(),
    {
        self.io_handle
    }

    /// Deliver one event to every registered plugin, in registration order,
    /// with the registry detached for the duration of the round: an access a
    /// handler makes is applied, but reported to no plugin. During a round
    /// (registry detached) delivering is a no-op, which is what keeps a
    /// handler's own accesses from triggering further rounds. The first
    /// handler error ends the round and is propagated; the registry is
    /// reattached either way, so that it is never left absent outside a
    /// round.
    pub fn notify_plugins(&mut self, event: &Event) -> (r: LC3Result<()>)
        ensures
            old(self).quiet() ==> *final(self) == *old(self) && r == Ok::<(), LC3Error>(()),
            old(self).detached() ==> final(self).detached(),
            old(self).plugins_view() is Some ==> final(self).plugins_view() is Some && final(self).plugins_view().unwrap().len() == old(self).plugins_view().unwrap().len(),
    {
        if self.plugins.is_none() {
            // A notification round is already in progress: deliver nothing.
            return Ok(());
        }
        let plugins_option = self.plugins.take();
        let mut plugins = match plugins_option {
            Some(p) => p,
            None => { return Err(LC3Error::Internal); },
        };
        let num = plugins.len();
        let mut i: usize = 0;
        while i < num
            invariant
                plugins.len() == num,
                i <= num,
                old(self).plugins_view() is Some ==> num == old(self).plugins_view().unwrap().len(),
                old(self).quiet() ==> num == 0 && self.memory == old(self).memory
                    && self.registers == old(self).registers && self.running == old(self).running
                    && self.io_handle == old(self).io_handle && Some(plugins) == old(self).plugins,
            decreases num - i,
        {
            let mut plugin = plugins.remove(0);
            let res = plugin.handle_event(self, event);
            plugins.push(plugin);
            if let Err(e) = res {
                self.plugins = Some(plugins);
                return Err(e);
            }
            i += 1;
        }
        self.plugins = Some(plugins);
        Ok(())
    }

    /// Read one word of memory. Reading the keyboard status address first
    /// polls the I/O capability: a pending key fills the status register
    /// with `KB_READY` and the data register with the key, in that order;
    /// otherwise the status register is zeroed. The value read is reported
    /// to the plugins after the fetch.
    pub fn mem_read(&mut self, pos: u16) -> (r: LC3Result<u16>)
        ensures
            old(self).quiet() ==> final(self).regs() == old(self).regs()
                && final(self).run_flag() == old(self).run_flag()
                && final(self).plugins_view() == old(self).plugins_view(),
            old(self).quiet() && pos != KB_STATUS_POS ==> *final(self) == *old(self) && r == Ok::<
                u16,
                LC3Error,
            >(old(self).mem()[pos as int]),
            old(self).quiet() ==> (r matches Ok(v) ==> v == read_value(
                old(self).mem(),
                old(self).io_view(),
                pos,
            ) && final(self).mem() == mem_after_read(old(self).mem(), old(self).io_view(), pos)),
            old(self).quiet() && pos == KB_STATUS_POS && old(self).io_view().poll_succeeds() && (old(self).io_view().key_pending() ==> old(self).io_view().read_succeeds()) ==> r == Ok::<u16, LC3Error>(read_value(old(self).mem(), old(self).io_view(), pos)),
            old(self).quiet() ==> (r matches Err(e) ==> e == LC3Error::IO),
            old(self).quiet() && pos == KB_STATUS_POS ==> final(self).io_view().output() == old(self).io_view().output() && final(self).io_view().write_succeeds() == old(self).io_view().write_succeeds() && (!old(self).io_view().key_pending() ==> final(self).io_view().pending_key() == old(self).io_view().pending_key()),
            pos != KB_STATUS_POS ==> (r matches Ok(v) ==> v == old(self).mem()[pos as int]),
    {
        if pos == KB_STATUS_POS {
            let key_down = self.is_key_down()?;
            if key_down {
                // The status register is filled before the data register.
                // The final memory is the same either way; only a plugin
                // watching the two writes mid-round can tell the order.
                self.mem_write(KB_STATUS_POS, KB_READY)?;
                let ch = self.getchar()?;
                let code: u32 = ch as u32;
                self.mem_write(KB_DATA_POS, (code % 0x10000) as u16)?;
            } else {
                self.mem_write(KB_STATUS_POS, 0)?;
            }
        }
        let val = self.memory[pos as usize];
        self.notify_plugins(&Event::MemGet { location: pos, value: val })?;
        proof {
            if old(self).quiet() {
                assert(self.mem() =~= mem_after_read(old(self).mem(), old(self).io_view(), pos));
            }
        }
        Ok(val)
    }

    /// Write one word of memory. The pending write is reported to the
    /// plugins before it is applied, so the cell holds `val` afterwards no
    /// matter what a handler did.
    pub fn mem_write(&mut self, pos: u16, val: u16) -> (r: LC3Result<()>)
        ensures
            old(self).quiet() ==> r == Ok::<(), LC3Error>(()) && final(self).mem() == old(self).mem().update(pos as int, val) && Self::frames_mem(*old(self), *final(self)),
            r matches Ok(_) ==> final(self).mem()[pos as int] == val,
    {
        self.notify_plugins(&Event::MemSet { location: pos, value: val })?;
        self.memory[pos as usize] = val;
        proof {
            if old(self).quiet() {
                assert(self.mem() =~= old(self).mem().update(pos as int, val));
            }
        }
        Ok(())
    }

    /// Read a register by name.
    pub fn reg_read(&mut self, reg: Register) -> (r: LC3Result<u16>)
        ensures
            old(self).quiet() ==> *final(self) == *old(self) && r == Ok::<u16, LC3Error>(
                old(self).regs()[reg.index_spec() as int],
            ),
            r matches Ok(v) ==> v == old(self).regs()[reg.index_spec() as int],
    {
        self.reg_index_read(reg.to_u8())
    }

    /// Write a register by name.
    pub fn reg_write(&mut self, reg: Register, val: u16) -> (r: LC3Result<()>)
        ensures
            old(self).quiet() ==> r == Ok::<(), LC3Error>(()) && final(self).regs() == old(self).regs().update(reg.index_spec() as int, val) && Self::frames_regs(
                *old(self),
                *final(self),
            ),
            r matches Ok(_) ==> final(self).regs()[reg.index_spec() as int] == val,
    {
        self.reg_index_write(reg.to_u8(), val)?;
        Ok(())
    }

    /// Read a register by index. The value read is reported to the plugins
    /// after the fetch.
    pub fn reg_index_read(&mut self, index: u8) -> (r: LC3Result<u16>)
        requires
            index < NUM_REGISTERS,
        ensures
            old(self).quiet() ==> *final(self) == *old(self) && r == Ok::<u16, LC3Error>(
                old(self).regs()[index as int],
            ),
            r matches Ok(v) ==> v == old(self).regs()[index as int],
    {
        let value = self.registers[index as usize];
        self.notify_plugins(&Event::RegGet { index, value })?;
        Ok(value)
    }

    /// Write a register by index. The pending write is reported to the
    /// plugins before it is applied, so the register holds `val` afterwards
    /// no matter what a handler did.
    pub fn reg_index_write(&mut self, index: u8, val: u16) -> (r: LC3Result<()>)
        requires
            index < NUM_REGISTERS,
        ensures
            old(self).quiet() ==> r == Ok::<(), LC3Error>(()) && final(self).regs() == old(self).regs().update(index as int, val) && Self::frames_regs(*old(self), *final(self)),
            r matches Ok(_) ==> final(self).regs()[index as int] == val,
    {
        self.notify_plugins(&Event::RegSet { index, value: val })?;
        self.registers[index as usize] = val;
        proof {
            if old(self).quiet() {
                assert(self.regs() =~= old(self).regs().update(index as int, val));
            }
        }
        Ok(())
    }

    /// Write one character through the I/O capability, reporting it to the
    /// plugins first.
    pub fn putchar(&mut self, ch: char) -> (r: LC3Result<()>)
        ensures
            old(self).quiet() ==> Self::frames_io(*old(self), *final(self)) && final(self).io_view().key_pending() == old(self).io_view().key_pending() && final(self).io_view().pending_key() == old(self).io_view().pending_key() && (r matches Ok(_)
                ==> final(self).io_view().output() == old(self).io_view().output().push(ch)),
            old(self).quiet() && old(self).io_view().write_succeeds() ==> r == Ok::<(), LC3Error>(()),
            old(self).quiet() ==> (r matches Err(e) ==> e == LC3Error::IO),
            old(self).quiet() ==> final(self).io_view().write_succeeds() == old(self).io_view().write_succeeds() && final(self).io_view().read_succeeds() == old(self).io_view().read_succeeds(),
    {
        self.notify_plugins(&Event::CharPut { ch })?;
        self.io_handle.putchar(ch)?;
        Ok(())
    }

    /// Read one character through the I/O capability, blocking until one is
    /// available, and report it to the plugins afterwards.
    pub fn getchar(&mut self) -> (r: LC3Result<char>)
        ensures
            old(self).quiet() ==> final(self).mem() == old(self).mem() && final(self).regs() == old(self).regs() && final(self).run_flag() == old(self).run_flag() && final(self).plugins_view() == old(self).plugins_view() && final(self).io_view().output() == old(self).io_view().output() && (r matches Ok(c) ==> c == old(self).io_view().pending_key()),
            old(self).quiet() && old(self).io_view().read_succeeds() ==> r == Ok::<char, LC3Error>(old(self).io_view().pending_key()),
            r matches Ok(c) ==> c == old(self).io_view().pending_key(),
            old(self).quiet() ==> (r matches Err(e) ==> e == LC3Error::IO),
            old(self).quiet() ==> final(self).io_view().write_succeeds() == old(self).io_view().write_succeeds(),
    {
        let ch = self.io_handle.getchar()?;
        self.notify_plugins(&Event::CharGet { ch })?;
        Ok(ch)
    }

    /// Poll the I/O capability for key availability and report the answer
    /// to the plugins.
    pub fn is_key_down(&mut self) -> (r: LC3Result<bool>)
        ensures
            old(self).quiet() ==> final(self).mem() == old(self).mem() && final(self).regs() == old(self).regs() && final(self).run_flag() == old(self).run_flag() && final(self).plugins_view() == old(self).plugins_view() && final(self).io_view().pending_key()
                == old(self).io_view().pending_key() && final(self).io_view().output() == old(self).io_view().output() && (r matches Ok(b) ==> b == old(self).io_view().key_pending()),
            old(self).quiet() && old(self).io_view().poll_succeeds() ==> r == Ok::<bool, LC3Error>(old(self).io_view().key_pending()),
            r matches Ok(b) ==> b == old(self).io_view().key_pending(),
            old(self).quiet() ==> (r matches Err(e) ==> e == LC3Error::IO),
            old(self).quiet() ==> final(self).io_view().write_succeeds() == old(self).io_view().write_succeeds() && final(self).io_view().read_succeeds() == old(self).io_view().read_succeeds(),
    {
        let key_down = self.io_handle.is_key_down()?;
        self.notify_plugins(&Event::KeyDownGet { value: key_down })?;
        Ok(key_down)
    }

    /// Read the run flag, reporting the value to the plugins.
    pub fn get_running(&mut self) -> (r: LC3Result<bool>)
        ensures
            old(self).quiet() ==> *final(self) == *old(self) && r == Ok::<bool, LC3Error>(
                old(self).run_flag(),
            ),
            r matches Ok(v) ==> v == old(self).run_flag(),
    {
        let value = self.running;
        self.notify_plugins(&Event::RunningGet { value })?;
        Ok(value)
    }

    /// Write the run flag. The pending change is reported to the plugins
    /// before it is applied.
    pub fn set_running(&mut self, val: bool) -> (r: LC3Result<()>)
        ensures
            old(self).quiet() ==> r == Ok::<(), LC3Error>(()) && final(self).run_flag() == val
                && Self::frames_run(*old(self), *final(self)),
            r matches Ok(_) ==> final(self).run_flag() == val,
    {
        self.notify_plugins(&Event::RunningSet { value: val })?;
        self.running = val;
        Ok(())
    }

    /// Derive the condition flags from the value of the given register and
    /// store them in the flags register: exactly one of ZERO (value zero),
    /// NEGATIVE (bit 15 set), POSITIVE (anything else).
    pub fn update_flags(&mut self, register_index: usize) -> (r: LC3Result<()>)
        requires
            register_index < NUM_REGISTERS,
        ensures
            old(self).quiet() ==> r == Ok::<(), LC3Error>(()) && final(self).regs() == old(self).regs().update(
                Register::RCond.index_spec() as int,
                flag_of(old(self).regs()[register_index as int]),
            ) && Self::frames_regs(*old(self), *final(self)),
    {
        let mut cond_flag = FL_POS;
        let value = self.reg_index_read(register_index as u8)?;
        if value == 0 {
            cond_flag = FL_ZRO;
        } else if value >= 0x8000 {
            cond_flag = FL_NEG;
        }
        self.reg_write(Register::RCond, cond_flag)?;
        Ok(())
    }

    /// Decode and execute one fetched instruction: report it to the plugins,
    /// then dispatch on its opcode. The privileged opcodes and a TRAP with a
    /// vector outside the defined set are reported as errors and leave a
    /// quiet machine untouched.
    pub fn run_command(&mut self, command: &Command) -> (r: LC3Result<()>)
        ensures
            old(self).quiet() ==> final(self).plugins_view() == old(self).plugins_view(),
            old(self).quiet() && op_code_of(command.bytes_spec()) == 0 ==> r == Ok::<
                (),
                LC3Error,
            >(()) && (if handler::branch_taken(old(self).regs(), command.bytes_spec()) {
                final(self).regs() == old(self).regs().update(
                    PC_INDEX as int,
                    crate::command::word_add(
                        old(self).regs()[PC_INDEX as int],
                        crate::command::offset9_of(command.bytes_spec()),
                    ),
                ) && Self::frames_regs(*old(self), *final(self))
            } else {
                *final(self) == *old(self)
            }),
            old(self).quiet() && op_code_of(command.bytes_spec()) == 1 ==> r == Ok::<
                (),
                LC3Error,
            >(()) && final(self).regs() == handler::regs_written(
                old(self).regs(),
                crate::command::dr_of(command.bytes_spec()) as int,
                handler::add_value(old(self).regs(), command.bytes_spec()),
            ) && Self::frames_regs(*old(self), *final(self)),
            old(self).quiet() && op_code_of(command.bytes_spec()) == 2 ==> (r matches Ok(_)
                ==> final(self).regs() == handler::regs_written(
                old(self).regs(),
                crate::command::dr_of(command.bytes_spec()) as int,
                read_value(
                    old(self).mem(),
                    old(self).io_view(),
                    handler::pc_rel_addr(old(self).regs(), command.bytes_spec()),
                ),
            ) && final(self).mem() == mem_after_read(
                old(self).mem(),
                old(self).io_view(),
                handler::pc_rel_addr(old(self).regs(), command.bytes_spec()),
            )),
            old(self).quiet() && (op_code_of(command.bytes_spec()) == 2 || op_code_of(
                command.bytes_spec(),
            ) == 6) ==> final(self).run_flag() == old(self).run_flag(),
            old(self).quiet() && op_code_of(command.bytes_spec()) == 2 && handler::pc_rel_addr(
                old(self).regs(),
                command.bytes_spec(),
            ) != KB_STATUS_POS ==> r == Ok::<(), LC3Error>(()) && final(self).io_view() == old(self).io_view(),
            old(self).quiet() && op_code_of(command.bytes_spec()) == 3 ==> r == Ok::<
                (),
                LC3Error,
            >(()) && final(self).mem() == old(self).mem().update(
                handler::pc_rel_addr(old(self).regs(), command.bytes_spec()) as int,
                old(self).regs()[crate::command::dr_of(command.bytes_spec()) as int],
            ) && Self::frames_mem(*old(self), *final(self)),
            old(self).quiet() && op_code_of(command.bytes_spec()) == 4 ==> r == Ok::<
                (),
                LC3Error,
            >(()) && final(self).regs() == old(self).regs().update(
                7,
                old(self).regs()[PC_INDEX as int],
            ).update(
                PC_INDEX as int,
                handler::jsr_target(old(self).regs(), command.bytes_spec()),
            ) && Self::frames_regs(*old(self), *final(self)),
            old(self).quiet() && op_code_of(command.bytes_spec()) == 5 ==> r == Ok::<
                (),
                LC3Error,
            >(()) && final(self).regs() == handler::regs_written(
                old(self).regs(),
                crate::command::dr_of(command.bytes_spec()) as int,
                handler::and_value(old(self).regs(), command.bytes_spec()),
            ) && Self::frames_regs(*old(self), *final(self)),
            old(self).quiet() && op_code_of(command.bytes_spec()) == 6 ==> (r matches Ok(_)
                ==> final(self).regs() == handler::regs_written(
                old(self).regs(),
                crate::command::dr_of(command.bytes_spec()) as int,
                read_value(
                    old(self).mem(),
                    old(self).io_view(),
                    handler::base_rel_addr(old(self).regs(), command.bytes_spec()),
                ),
            ) && final(self).mem() == mem_after_read(
                old(self).mem(),
                old(self).io_view(),
                handler::base_rel_addr(old(self).regs(), command.bytes_spec()),
            )),
            old(self).quiet() && op_code_of(command.bytes_spec()) == 6 && handler::base_rel_addr(
                old(self).regs(),
                command.bytes_spec(),
            ) != KB_STATUS_POS ==> r == Ok::<(), LC3Error>(()) && final(self).io_view() == old(self).io_view(),
            old(self).quiet() && op_code_of(command.bytes_spec()) == 7 ==> r == Ok::<
                (),
                LC3Error,
            >(()) && final(self).mem() == old(self).mem().update(
                handler::base_rel_addr(old(self).regs(), command.bytes_spec()) as int,
                old(self).regs()[crate::command::dr_of(command.bytes_spec()) as int],
            ) && Self::frames_mem(*old(self), *final(self)),
            old(self).quiet() && op_code_of(command.bytes_spec()) == 9 ==> r == Ok::<
                (),
                LC3Error,
            >(()) && final(self).regs() == handler::regs_written(
                old(self).regs(),
                crate::command::dr_of(command.bytes_spec()) as int,
                handler::not_value(old(self).regs(), command.bytes_spec()),
            ) && Self::frames_regs(*old(self), *final(self)),
            old(self).quiet() && op_code_of(command.bytes_spec()) == 12 ==> r == Ok::<
                (),
                LC3Error,
            >(()) && final(self).regs() == old(self).regs().update(
                PC_INDEX as int,
                old(self).regs()[crate::command::sr1_of(command.bytes_spec()) as int],
            ) && Self::frames_regs(*old(self), *final(self)),
            old(self).quiet() && op_code_of(command.bytes_spec()) == 14 ==> r == Ok::<
                (),
                LC3Error,
            >(()) && final(self).regs() == handler::regs_written(
                old(self).regs(),
                crate::command::dr_of(command.bytes_spec()) as int,
                handler::pc_rel_addr(old(self).regs(), command.bytes_spec()),
            ) && Self::frames_regs(*old(self), *final(self)),
            old(self).quiet() && op_code_of(command.bytes_spec()) == 10 ==> final(self).run_flag()
                == old(self).run_flag(),
            old(self).quiet() && op_code_of(command.bytes_spec()) == 10 && handler::pc_rel_addr(
                old(self).regs(),
                command.bytes_spec(),
            ) != KB_STATUS_POS ==> (r matches Ok(_) ==> final(self).regs() == handler::regs_written(
                old(self).regs(),
                crate::command::dr_of(command.bytes_spec()) as int,
                read_value(
                    old(self).mem(),
                    old(self).io_view(),
                    old(self).mem()[handler::pc_rel_addr(old(self).regs(), command.bytes_spec()) as int],
                ),
            ) && final(self).mem() == mem_after_read(
                old(self).mem(),
                old(self).io_view(),
                old(self).mem()[handler::pc_rel_addr(old(self).regs(), command.bytes_spec()) as int],
            )),
            old(self).quiet() && op_code_of(command.bytes_spec()) == 10 && handler::pc_rel_addr(
                old(self).regs(),
                command.bytes_spec(),
            ) != KB_STATUS_POS && old(self).mem()[handler::pc_rel_addr(
                old(self).regs(),
                command.bytes_spec(),
            ) as int] != KB_STATUS_POS ==> r == Ok::<(), LC3Error>(()) && final(self).io_view()
                == old(self).io_view(),
            old(self).quiet() && op_code_of(command.bytes_spec()) == 11 ==> final(self).regs()
                == old(self).regs() && final(self).run_flag() == old(self).run_flag(),
            old(self).quiet() && op_code_of(command.bytes_spec()) == 11 && handler::pc_rel_addr(
                old(self).regs(),
                command.bytes_spec(),
            ) != KB_STATUS_POS ==> r == Ok::<(), LC3Error>(()) && final(self).mem() == old(self).mem().update(
                old(self).mem()[handler::pc_rel_addr(old(self).regs(), command.bytes_spec()) as int] as int,
                old(self).regs()[crate::command::dr_of(command.bytes_spec()) as int],
            ) && Self::frames_mem(*old(self), *final(self)),
            old(self).quiet() && old(self).io_view().write_succeeds() ==> output_extended(
                old(self).io_view(),
                final(self).io_view(),
            ),
            old(self).quiet() && op_code_of(command.bytes_spec()) == 15 ==> trap::trap_effects(
                *old(self),
                *final(self),
                command.bytes_spec(),
                r,
            ),
            old(self).quiet() && op_code_of(command.bytes_spec()) == 15 && trap_vector_of(
                command.bytes_spec(),
            ) == 0x25 ==> r == Ok::<(), LC3Error>(()) && final(self).run_flag() == false
                && Self::frames_run(*old(self), *final(self)),
            old(self).quiet() && (op_code_of(command.bytes_spec()) == 8 || op_code_of(
                command.bytes_spec(),
            ) == 13) ==> r == Err::<(), LC3Error>(
                LC3Error::UnimplementedOpcode { op_code: op_code_of(command.bytes_spec()) },
            ) && *final(self) == *old(self),
            old(self).quiet() && op_code_of(command.bytes_spec()) == 15 && !(trap_vector_of(
                command.bytes_spec(),
            ) == 0x20 || trap_vector_of(command.bytes_spec()) == 0x21 || trap_vector_of(
                command.bytes_spec(),
            ) == 0x22 || trap_vector_of(command.bytes_spec()) == 0x23 || trap_vector_of(
                command.bytes_spec(),
            ) == 0x24 || trap_vector_of(command.bytes_spec()) == 0x25) ==> r == Err::<
                (),
                LC3Error,
            >(LC3Error::UnknownTrapVector { vector: trap_vector_of(command.bytes_spec()) })
                && *final(self) == *old(self),
    {
        proof {
            lemma_prefix_refl(old(self).io_view().output());
        }
        let event = Event::Command { bytes: command.get_bytes() };
        self.notify_plugins(&event)?;

        let op = Op::from_int(command.op_code())?;
        match op {
            Op::Br => handler::branch(self, command),
            Op::Add => handler::add(self, command),
            Op::Ld => handler::load(self, command),
            Op::St => handler::store(self, command),
            Op::Jsr => handler::jump_register(self, command),
            Op::And => handler::and(self, command),
            Op::Ldr => handler::load_register(self, command),
            Op::Str => handler::store_register(self, command),
            Op::Rti => handler::rti(self, command),
            Op::Not => handler::not(self, command),
            Op::Ldi => handler::load_indirect(self, command),
            Op::Sti => handler::store_indirect(self, command),
            Op::Jmp => handler::jump(self, command),
            Op::Res => handler::reserved(self, command),
            Op::Lea => handler::load_effective_address(self, command),
            Op::Trap => trap::trap(self, command),
        }
    }

    /// Run to completion: set the run flag, set PC to the start address,
    /// then fetch, increment PC, decode and dispatch one instruction at a
    /// time until the run flag is cleared (the HALT trap) or an error
    /// aborts the run. The flag is re-checked once per full instruction. A
    /// run that is still going after every representable step count is
    /// reported as an internal error.
    /// Execute one full instruction: read PC, increment it, fetch the word
    /// at the pre-increment PC, decode, dispatch. For a quiet machine whose
    /// capability accepts writes and whose next instruction is a
    /// `determinate_step`, the effect is exactly one `step_state` step.
    #[verifier::rlimit(100)]
    fn step_once(&mut self) -> (r: LC3Result<()>)
        ensures
            old(self).quiet() ==> final(self).plugins_view() == old(self).plugins_view(),
            old(self).quiet() && old(self).io_view().write_succeeds() ==> output_extended(
                old(self).io_view(),
                final(self).io_view(),
            ),
            old(self).quiet() && old(self).run_flag() && determinate_step(old(self).state())
                && old(self).io_view().write_succeeds() ==> r == Ok::<(), LC3Error>(()) && final(self).state() == step_state(old(self).state()),
    {
        proof {
            lemma_prefix_refl(old(self).io_view().output());
        }
        let program_count = self.reg_read(Register::RPC)?;
        self.reg_write(Register::RPC, program_count.wrapping_add(1))?;

        let command = Command::new(self.mem_read(program_count)?);
        let ghost mid = *self;
        let step_result = self.run_command(&command);
        proof {
            if old(self).quiet() && old(self).io_view().write_succeeds() {
                assert(mid.io_view().output() == old(self).io_view().output());
                assert(output_extended(old(self).io_view(), self.io_view()));
            }
            if old(self).quiet() && old(self).run_flag() && determinate_step(old(self).state())
                && old(self).io_view().write_succeeds() {
                let s0 = old(self).state();
                let b = s0.mem[s0.regs[PC_INDEX as int] as int];
                let op = op_code_of(b);
                assert(mid.quiet());
                assert(command.bytes_spec() == b);
                assert(mid.mem() == s0.mem);
                assert(mid.regs() =~= s0.regs.update(
                    PC_INDEX as int,
                    word_add(s0.regs[PC_INDEX as int], 1),
                ));
                assert(mid.run_flag() == s0.running);
                if op == 0 || op == 1 || op == 4 || op == 5 || op == 9 || op == 12 || op == 14 {
                    assert(step_result == Ok::<(), LC3Error>(()) && self.state() =~= step_state(
                        s0,
                    ));
                } else if op == 2 || op == 6 || op == 10 {
                    assert(step_result == Ok::<(), LC3Error>(()) && self.state() =~= step_state(
                        s0,
                    ));
                } else if op == 3 || op == 7 || op == 11 {
                    assert(step_result == Ok::<(), LC3Error>(()) && self.state() =~= step_state(
                        s0,
                    ));
                } else {
                    assert(op == 15);
                    let v = trap_vector_of(b);
                    assert(mid.io_view().output() == s0.out);
                    if v == 0x21 {
                        assert(step_result == Ok::<(), LC3Error>(()) && self.state()
                            =~= step_state(s0));
                    } else if v == 0x22 {
                        assert(step_result == Ok::<(), LC3Error>(()) && self.state()
                            =~= step_state(s0));
                    } else if v == 0x24 {
                        assert(step_result == Ok::<(), LC3Error>(()) && self.state()
                            =~= step_state(s0));
                    } else {
                        assert(v == 0x25);
                        assert(step_result == Ok::<(), LC3Error>(()) && self.state()
                            =~= step_state(s0));
                    }
                }
            }
        }
        if let Err(e) = step_result {
            return Err(e);
        }
        Ok(())
    }

    #[verifier::rlimit(100)]
    pub fn run(&mut self) -> (r: LC3Result<()>)
        ensures
            old(self).quiet() ==> final(self).plugins_view() == old(self).plugins_view(),
            old(self).quiet() ==> (r matches Ok(_) ==> final(self).run_flag() == false),
            old(self).quiet() && old(self).io_view().write_succeeds() ==> output_extended(
                old(self).io_view(),
                final(self).io_view(),
            ),
            old(self).quiet() && old(self).io_view().write_succeeds() ==> (forall|n: nat|
                n + 1 < u64::MAX && (#[trigger] run_result(
                    boot_state(old(self).mem(), old(self).regs(), old(self).io_view().output()),
                    n,
                )) is Some ==> r == Ok::<(), LC3Error>(()) && final(self).mem() == run_result(
                    boot_state(old(self).mem(), old(self).regs(), old(self).io_view().output()),
                    n,
                ).unwrap().mem && final(self).regs() == run_result(
                    boot_state(old(self).mem(), old(self).regs(), old(self).io_view().output()),
                    n,
                ).unwrap().regs && final(self).io_view().output() == run_result(
                    boot_state(old(self).mem(), old(self).regs(), old(self).io_view().output()),
                    n,
                ).unwrap().out && final(self).run_flag() == false),
    {
        let ghost bs = boot_state(old(self).mem(), old(self).regs(), old(self).io_view().output());
        self.set_running(true)?;
        self.reg_write(Register::RPC, PC_START)?;

        let mut fuel: u64 = u64::MAX;
        proof {
            lemma_prefix_refl(old(self).io_view().output());
            if old(self).quiet() {
                assert(self.state() =~= bs);
                assert forall|n: nat|
                    n + 1 < u64::MAX && (#[trigger] run_result(bs, n)) is Some implies (exists|
                    m: nat,
                |
                    m + 1 <= fuel && (#[trigger] run_result(self.state(), m)) == run_result(
                        bs,
                        n,
                    )) by {
                    assert(run_result(self.state(), n) == run_result(bs, n) && n + 1 <= fuel);
                }
            }
        }
        while fuel > 0
            invariant
                old(self).quiet() ==> self.plugins_view() == old(self).plugins_view(),
                old(self).quiet() && old(self).io_view().write_succeeds() ==> output_extended(
                    old(self).io_view(),
                    self.io_view(),
                ),
                old(self).quiet() && old(self).io_view().write_succeeds() ==> (forall|n: nat|
                    n + 1 < u64::MAX && (#[trigger] run_result(bs, n)) is Some ==> (exists|m: nat|
                        m + 1 <= fuel && (#[trigger] run_result(self.state(), m)) == run_result(
                            bs,
                            n,
                        ))),
                bs == boot_state(old(self).mem(), old(self).regs(), old(self).io_view().output()),
            decreases fuel,
        {
            let ghost pre = *self;
            let running = self.get_running()?;
            if !running {
                proof {
                    if old(self).quiet() && old(self).io_view().write_succeeds() {
                        assert forall|n: nat|
                            n + 1 < u64::MAX && (#[trigger] run_result(bs, n)) is Some implies self.mem()
                            == run_result(bs, n).unwrap().mem && self.regs() == run_result(
                            bs,
                            n,
                        ).unwrap().regs && self.io_view().output() == run_result(
                            bs,
                            n,
                        ).unwrap().out by {
                            let m = choose|m: nat|
                                m + 1 <= fuel && (#[trigger] run_result(self.state(), m))
                                    == run_result(bs, n);
                            assert(run_result(self.state(), m) == Some(self.state()));
                        }
                    }
                }
                return Ok(());
            }
            proof {
                if old(self).quiet() && old(self).io_view().write_succeeds() {
                    if exists|n: nat| n + 1 < u64::MAX && (#[trigger] run_result(bs, n)) is Some {
                        lemma_reachable_running_step(bs, pre.state(), fuel as nat);
                    }
                }
            }
            let step_result = self.step_once();
            proof {
                if old(self).quiet() && old(self).io_view().write_succeeds() {
                    lemma_prefix_trans(
                        old(self).io_view().output(),
                        pre.io_view().output(),
                        self.io_view().output(),
                    );
                    if exists|n: nat| n + 1 < u64::MAX && (#[trigger] run_result(bs, n)) is Some {
                        assert(step_result == Ok::<(), LC3Error>(()));
                        lemma_step_keeps_reachability(bs, pre.state(), self.state(), fuel as nat);
                    }
                }
            }
            if let Err(e) = step_result {
                return Err(e);
            }
            fuel = fuel - 1;
        }
        Err(LC3Error::Internal)
    }

    /// Load a program at the start address, one word per cell. A program
    /// longer than the space up to the end of memory is rejected as a
    /// whole, before anything is written, and the machine is unchanged.
    pub fn load_program(&mut self, program: &Vec<u16>) -> (r: LC3Result<()>)
        ensures
            program@.len() > MAX_PROGRAM_LEN ==> r == Err::<(), LC3Error>(
                LC3Error::ProgramSize { len: program@.len() as usize, max_len: MAX_PROGRAM_LEN },
            ) && *final(self) == *old(self),
            program@.len() <= MAX_PROGRAM_LEN && old(self).quiet() ==> r == Ok::<(), LC3Error>(())
                && final(self).mem().len() == MEMORY_SIZE && (forall|i: int|
                0 <= i < MEMORY_SIZE ==> final(self).mem()[i] == (if PC_START <= i < PC_START
                    + program@.len() {
                    program@[i - PC_START]
                } else {
                    old(self).mem()[i]
                })) && Self::frames_mem(*old(self), *final(self)),
    {
        let max_len = MEMORY_SIZE - (PC_START as usize);
        if program.len() > max_len {
            let err = LC3Error::ProgramSize { len: program.len(), max_len };
            return Err(err);
        }

        let mut index: usize = 0;
        while index < program.len()
            invariant
                program@.len() <= MAX_PROGRAM_LEN,
                index <= program@.len(),
                old(self).quiet() ==> self.mem().len() == MEMORY_SIZE && (forall|i: int|
                    0 <= i < MEMORY_SIZE ==> self.mem()[i] == (if PC_START <= i < PC_START
                        + index {
                        program@[i - PC_START]
                    } else {
                        old(self).mem()[i]
                    })) && Self::frames_mem(*old(self), *self),
            decreases program@.len() - index,
        {
            self.mem_write(PC_START + (index as u16), program[index])?;
            index = index + 1;
        }
        Ok(())
    }
}

} // verus!
