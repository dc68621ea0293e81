//! Applying input commands on the local machine (client side).

use crate::events::InputCommand;
use crate::input::InputError;
use vstd::prelude::*;

verus! {

/// Applies input commands on the local machine.
pub trait Injector {
    fn inject(&mut self, cmd: InputCommand) -> (r: Result<(), InputError>);
}

/// Discards every command. Useful when running headless purely to exercise the network path.
#[derive(Debug)]
pub struct NoopInjector;

impl Default for NoopInjector {
    fn default() -> (i: Self)
        ensures
            i == NoopInjector,
    {
        NoopInjector
    }
}

impl Injector for NoopInjector {
    fn inject(&mut self, _cmd: InputCommand) -> (r: Result<(), InputError>)
        ensures
            r is Ok,
    {
        Ok(())
    }
}

/// Records every command, so that one can assert exactly what would have been injected.
#[derive(Debug)]
pub struct MockInjector {
    log: Vec<InputCommand>,
}

impl View for MockInjector {
    type V = Seq<InputCommand>;

    closed spec fn view(&self) -> Seq<InputCommand> {
        self.log@
    }
}

impl Default for MockInjector {
    fn default() -> (i: Self)
        ensures
            i@ == Seq::<InputCommand>::empty(),
    {
        MockInjector { log: Vec::new() }
    }
}

impl MockInjector {
    pub fn new() -> (i: Self)
        ensures
            i@ == Seq::<InputCommand>::empty(),
    {
        Self::default()
    }

    /// The log itself.
    pub fn log(&self) -> (log: &Vec<InputCommand>)
        ensures
            log@ == self@,
    {
        &self.log
    }

    /// A copy of the log.
    pub fn recorded(&self) -> (log: Vec<InputCommand>)
        ensures
            log@ == self@,
    {
        let mut log: Vec<InputCommand> = Vec::new();
        log.extend_from_slice(self.log.as_slice());
        assert(log@ =~= self.log@);
        log
    }
}

impl Injector for MockInjector {
    fn inject(&mut self, cmd: InputCommand) -> (r: Result<(), InputError>)
        ensures
            r is Ok,
            final(self)@ == old(self)@.push(cmd),
    {
        self.log.push(cmd);
        Ok(())
    }
}

} // verus!
