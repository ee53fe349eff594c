//! The character-I/O capability the machine consumes: blocking character
//! input, character output, and a non-blocking key-availability poll. The
//! core never implements a concrete terminal itself; `TestIOHandle` is a
//! scripted in-memory implementation for exercising the machine.

use crate::error::{LC3Error, LC3Result};
use vstd::prelude::*;

verus! {

/// The abstract I/O capability. Its specification state is the key the
/// environment will deliver next (`key_pending`, `pending_key`) and the
/// sequence of characters written so far (`output`).
pub trait IOHandle: Sized {
    /// Whether a key is available to be read without blocking.
    open spec fn key_pending(&self) -> bool {
        arbitrary()
    }

    /// The character the next successful `getchar` returns.
    open spec fn pending_key(&self) -> char {
        arbitrary()
    }

    /// Every character written so far, in order.
    open spec fn output(&self) -> Seq<char> {
        arbitrary()
    }

    /// Whether the capability accepts character writes: while it does,
    /// every write succeeds.
    open spec fn write_succeeds(&self) -> bool {
        arbitrary()
    }

    /// Whether the next blocking read succeeds.
    open spec fn read_succeeds(&self) -> bool {
        arbitrary()
    }

    /// Whether the next key-availability poll succeeds.
    open spec fn poll_succeeds(&self) -> bool {
        arbitrary()
    }

    /// Write one character. Writing does not disturb pending input, and a
    /// failure is reported as the I/O error.
    fn putchar(&mut self, ch: char) -> (r: LC3Result<()>)
        ensures
            old(self).write_succeeds() ==> r matches Ok(_),
            r matches Err(e) ==> e == LC3Error::IO,
            r matches Ok(_) ==> final(self).output() == old(self).output().push(ch),
            final(self).key_pending() == old(self).key_pending(),
            final(self).pending_key() == old(self).pending_key(),
            final(self).write_succeeds() == old(self).write_succeeds(),
            final(self).read_succeeds() == old(self).read_succeeds(),
    ;

    /// Read one character, blocking until one is available. Reading writes
    /// nothing, and a failure is reported as the I/O error.
    fn getchar(&mut self) -> (r: LC3Result<char>)
        ensures
            old(self).read_succeeds() ==> r == Ok::<char, LC3Error>(old(self).pending_key()),
            r matches Err(e) ==> e == LC3Error::IO,
            r matches Ok(c) ==> c == old(self).pending_key(),
            final(self).output() == old(self).output(),
            final(self).write_succeeds() == old(self).write_succeeds(),
    ;

    /// Poll for key availability without consuming the pending key and
    /// without writing anything; a failure is reported as the I/O error.
    fn is_key_down(&mut self) -> (r: LC3Result<bool>)
        ensures
            old(self).poll_succeeds() ==> r == Ok::<bool, LC3Error>(old(self).key_pending()),
            r matches Err(e) ==> e == LC3Error::IO,
            r matches Ok(b) ==> b == old(self).key_pending(),
            final(self).pending_key() == old(self).pending_key(),
            final(self).output() == old(self).output(),
            final(self).write_succeeds() == old(self).write_succeeds(),
            final(self).read_succeeds() == old(self).read_succeeds(),
    ;
}

/// A scripted I/O capability: queued key-availability answers, queued key
/// presses, and a record of every character written.
pub struct TestIOHandle {
    key_downs: Vec<bool>,
    keys: Vec<char>,
    outputs: Vec<char>,
}

impl TestIOHandle {
    pub closed spec fn key_downs_spec(self) -> Seq<bool> {
        self.key_downs@
    }

    pub closed spec fn keys_spec(self) -> Seq<char> {
        self.keys@
    }

    pub closed spec fn outputs_spec(self) -> Seq<char> {
        self.outputs@
    }

    pub fn new() -> (r: Self)
        ensures
            r.key_downs_spec() == Seq::<bool>::empty(),
            r.keys_spec() == Seq::<char>::empty(),
            r.outputs_spec() == Seq::<char>::empty(),
    {
        TestIOHandle { key_downs: Vec::new(), keys: Vec::new(), outputs: Vec::new() }
    }

    /// Queue the answer the next key-availability poll receives.
    pub fn add_keydown_response(&mut self, response: bool)
        ensures
            final(self).key_downs_spec() == old(self).key_downs_spec().push(response),
            final(self).keys_spec() == old(self).keys_spec(),
            final(self).outputs_spec() == old(self).outputs_spec(),
    {
        self.key_downs.push(response);
    }

    /// Queue a key press for the next blocking read.
    pub fn add_key_press(&mut self, ch: char)
        ensures
            final(self).keys_spec() == old(self).keys_spec().push(ch),
            final(self).key_downs_spec() == old(self).key_downs_spec(),
            final(self).outputs_spec() == old(self).outputs_spec(),
    {
        self.keys.push(ch);
    }

    /// Every character the machine has written, in order.
    pub fn get_test_outputs(&self) -> (r: &Vec<char>)
        ensures
            r@ == self.outputs_spec(),
    {
        &self.outputs
    }
}

impl IOHandle for TestIOHandle {
    open spec fn key_pending(&self) -> bool {
        self.key_downs_spec().len() > 0 && self.key_downs_spec()[0]
    }

    open spec fn pending_key(&self) -> char {
        if self.keys_spec().len() > 0 {
            self.keys_spec()[0]
        } else {
            ' '
        }
    }

    open spec fn output(&self) -> Seq<char> {
        self.outputs_spec()
    }

    open spec fn write_succeeds(&self) -> bool {
        true
    }

    open spec fn read_succeeds(&self) -> bool {
        self.keys_spec().len() > 0
    }

    open spec fn poll_succeeds(&self) -> bool {
        true
    }

    fn putchar(&mut self, ch: char) -> (r: LC3Result<()>) {
        self.outputs.push(ch);
        Ok(())
    }

    fn getchar(&mut self) -> (r: LC3Result<char>) {
        if self.keys.len() == 0 {
            Err(LC3Error::IO)
        } else {
            let ch = self.keys.remove(0);
            Ok(ch)
        }
    }

    fn is_key_down(&mut self) -> (r: LC3Result<bool>) {
        if self.key_downs.len() == 0 {
            Ok(false)
        } else {
            let b = self.key_downs.remove(0);
            Ok(b)
        }
    }
}

} // verus!
