//! A command: an instruction name token and its argument tokens.
use vstd::prelude::*;
use crate::token::Token;

verus! {

#[derive(Debug)]
pub struct Command<'a> {
    pub name: &'a Token<'a>,
    pub args: Vec<&'a Token<'a>>,
}

impl<'a> Command<'a> {
    /// A command with no arguments yet.
    pub fn new(name: &'a Token<'a>) -> (r: Command<'a>)
        ensures
            r.name == name,
            r.args@.len() == 0,
    {
        Command { name, args: Vec::new() }
    }

    /// Adds an argument after the others.
    pub fn push_arg(&mut self, arg: &'a Token<'a>)
        ensures
            final(self).name == old(self).name,
            final(self).args@ == old(self).args@.push(arg),
    {
        self.args.push(arg);
    }

    pub fn num_args(&self) -> (r: usize)
        ensures
            r == self.args@.len(),
    {
        self.args.len()
    }

    /// The argument at position `i`.
    pub fn arg(&self, i: usize) -> (r: &Token<'a>)
        requires
            i < self.args@.len(),
        ensures
            r == self.args@[i as int],
    {
        self.args[i]
    }
}

} // verus!
