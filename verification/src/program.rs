//! A program as the loader hands it to the processor.

use vstd::prelude::*;
use vstd::slice::slice_to_vec;

verus! {

/// The code of a program, the address at which it is loaded, the address at
/// which it is entered, and the initial value of the stack pointer.
#[derive(Debug)]
pub struct Program {
    text: Vec<u8>,
    start_addr: u32,
    entry_addr: u32,
    start_stack: u32,
}

impl Program {
    pub closed spec fn text(&self) -> Seq<u8> {
        self.text@
    }

    pub closed spec fn start_addr(&self) -> u32 {
        self.start_addr
    }

    pub closed spec fn entry_addr(&self) -> u32 {
        self.entry_addr
    }

    pub closed spec fn start_stack(&self) -> u32 {
        self.start_stack
    }

    /// A program that is entered where it is loaded.
    pub fn build(text: &[u8], start_addr: u32, start_stack: u32) -> (program: Program)
        ensures
            program.text() == text@,
            program.start_addr() == start_addr,
            program.entry_addr() == start_addr,
            program.start_stack() == start_stack,
    {
        Program { text: slice_to_vec(text), start_addr, entry_addr: start_addr, start_stack }
    }

    /// The same program, entered at `entry_addr`.
    pub fn with_entry(self, entry_addr: u32) -> (program: Program)
        ensures
            program.text() == self.text(),
            program.start_addr() == self.start_addr(),
            program.entry_addr() == entry_addr,
            program.start_stack() == self.start_stack(),
    {
        Program { text: self.text, start_addr: self.start_addr, entry_addr, start_stack: self.start_stack }
    }

    /// The code.
    pub fn get_text(&self) -> (text: &[u8])
        ensures
            text@ == self.text(),
    {
        self.text.as_slice()
    }

    /// The address at which the code is loaded.
    pub fn get_start_addr(&self) -> (addr: u32)
        ensures
            addr == self.start_addr(),
    {
        self.start_addr
    }

    /// The address of the first instruction to execute.
    pub fn get_entry_addr(&self) -> (addr: u32)
        ensures
            addr == self.entry_addr(),
    {
        self.entry_addr
    }

    /// The initial value of the stack pointer.
    pub fn get_start_stack(&self) -> (stack: u32)
        ensures
            stack == self.start_stack(),
    {
        self.start_stack
    }
}

} // verus!
