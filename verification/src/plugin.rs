//! The event taxonomy and the observer capability: every register, memory,
//! run-state, and character access the machine performs is reported as one
//! `Event` to each registered plugin, in registration order.

use crate::error::LC3Result;
use crate::io::IOHandle;
use crate::vm::VM;
use vstd::prelude::*;

verus! {

/// One observable state access, carrying the relevant index, address or
/// value. Events are transient: created, dispatched, and discarded.
#[derive(Clone, Copy, PartialEq, Eq, Debug)]
pub enum Event {
    MemGet { location: u16, value: u16 },
    MemSet { location: u16, value: u16 },
    RegGet { index: u8, value: u16 },
    RegSet { index: u8, value: u16 },
    RunningGet { value: bool },
    RunningSet { value: bool },
    CharGet { ch: char },
    CharPut { ch: char },
    KeyDownGet { value: bool },
    Command { bytes: u16 },
}

/// An observer of machine-state accesses. The handler receives mutable
/// access to the machine and may itself read or write registers and memory;
/// accesses made during a notification round are applied but reported to no
/// plugin, so a handler can never trigger a further notification round.
pub trait Plugin<IO: IOHandle>: Sized {
    fn handle_event(&mut self, vm: &mut VM<IO, Self>, event: &Event) -> (r: LC3Result<()>);
}

/// The trivial observer: ignores every event. The plugin type of a machine
/// on which no plugin behavior is needed.
pub struct NoPlugin {}

impl<IO: IOHandle> Plugin<IO> for NoPlugin {
    fn handle_event(&mut self, _vm: &mut VM<IO, Self>, _event: &Event) -> (r: LC3Result<()>) {
        Ok(())
    }
}

} // verus!
