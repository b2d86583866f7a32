//! Keeping a single instance of the bar: what to do once the lock on the
//! PID file has been tried.
use vstd::prelude::*;

use crate::digits::{parse_u32_radix, spec_parse_u32_radix, IntErrorKind};

verus! {

/// The subcommands given on the command line.
#[derive(Clone, Copy, Debug, PartialEq, Eq, Structural)]
pub enum Command {
    /// Stop the running instance.
    Quit,
    /// Any other subcommand.
    Other,
}

/// What came of trying to lock the PID file.
#[derive(Clone, Debug)]
pub enum LockOutcome {
    /// This process holds the lock.
    Acquired,
    /// Another process holds it; the file reads `pid_text`.
    HeldElsewhere { pid_text: String },
}

/// What the process does next.
#[derive(Clone, Copy, Debug, PartialEq, Eq, Structural)]
pub enum InstanceAction {
    /// Write this process's id into the PID file, keep the lock and run.
    WritePid,
    /// Fail: there is no running instance to stop.
    NoInstanceToTerminate,
    /// Run on without the lock.
    Proceed,
    /// Fail: the PID file does not hold a process id.
    InvalidPid,
    /// Fail: the process with this id is already running.
    AlreadyRunning(u32),
    /// Send the process with this id the termination signal, then exit.
    Terminate(u32),
}

/// The decision, over the text of the PID file and the subcommand.
pub open spec fn spec_decide_instance(locked: bool, pid_text: Seq<char>, command: Option<Command>) -> InstanceAction {
    if locked {
        match command {
            None => InstanceAction::WritePid,
            Some(Command::Quit) => InstanceAction::NoInstanceToTerminate,
            Some(Command::Other) => InstanceAction::Proceed,
        }
    } else {
        match spec_parse_u32_radix(pid_text, 10) {
            Err(_) => InstanceAction::InvalidPid,
            Ok(pid) => match command {
                None => InstanceAction::AlreadyRunning(pid),
                Some(Command::Quit) => InstanceAction::Terminate(pid),
                Some(Command::Other) => InstanceAction::Proceed,
            },
        }
    }
}

/// Decides what to do once the lock on the PID file has been tried.
/// Holding the lock, the process records itself and runs, unless it was
/// asked to quit an instance, which then does not exist. Without it, the
/// file must hold a decimal process id: that process is stopped on `quit`
/// and otherwise reported as already running.
pub fn decide_instance(outcome: &LockOutcome, command: Option<Command>) -> (a: InstanceAction)
    ensures
        match outcome {
            LockOutcome::Acquired => a == spec_decide_instance(true, Seq::empty(), command),
            LockOutcome::HeldElsewhere { pid_text } => a == spec_decide_instance(false, pid_text@, command),
        },
        match outcome {
            LockOutcome::Acquired => match command {
                None => a == InstanceAction::WritePid,
                Some(Command::Quit) => a == InstanceAction::NoInstanceToTerminate,
                Some(Command::Other) => a == InstanceAction::Proceed,
            },
            LockOutcome::HeldElsewhere { pid_text } => match spec_parse_u32_radix(pid_text@, 10) {
                Err(_) => a == InstanceAction::InvalidPid,
                Ok(p) => match command {
                    None => a == InstanceAction::AlreadyRunning(p),
                    Some(Command::Quit) => a == InstanceAction::Terminate(p),
                    Some(Command::Other) => a == InstanceAction::Proceed,
                },
            },
        },
{
    match outcome {
        LockOutcome::Acquired => match command {
            None => InstanceAction::WritePid,
            Some(Command::Quit) => InstanceAction::NoInstanceToTerminate,
            Some(Command::Other) => InstanceAction::Proceed,
        },
        LockOutcome::HeldElsewhere { pid_text } => match parse_u32_radix(pid_text.as_str(), 10) {
            Err(_) => InstanceAction::InvalidPid,
            Ok(pid) => match command {
                None => InstanceAction::AlreadyRunning(pid),
                Some(Command::Quit) => InstanceAction::Terminate(pid),
                Some(Command::Other) => InstanceAction::Proceed,
            },
        },
    }
}

/// The process id as the signal call takes it: the same bits as an `i32`.
pub fn raw_pid(pid: u32) -> (r: i32)
    ensures
        r == pid as i32,
{
    pid as i32
}

/// Without the lock, the pid that is reported or stopped is the number the
/// PID file holds in decimal, unchanged; with the lock, no pid is read.
pub proof fn lemma_decide_uses_parsed_pid(pid_text: Seq<char>, command: Option<Command>)
    ensures
        spec_parse_u32_radix(pid_text, 10) is Err ==> spec_decide_instance(false, pid_text, command)
            == InstanceAction::InvalidPid,
        forall|p: u32| spec_parse_u32_radix(pid_text, 10) == Ok::<u32, IntErrorKind>(p) ==> {
            &&& (command == Some(Command::Quit) ==> spec_decide_instance(false, pid_text, command)
                == InstanceAction::Terminate(p))
            &&& (command is None ==> spec_decide_instance(false, pid_text, command)
                == InstanceAction::AlreadyRunning(p))
            &&& (command == Some(Command::Other) ==> spec_decide_instance(false, pid_text, command)
                == InstanceAction::Proceed)
        },
        command is None ==> spec_decide_instance(true, pid_text, command) == InstanceAction::WritePid,
        command == Some(Command::Quit) ==> spec_decide_instance(true, pid_text, command)
            == InstanceAction::NoInstanceToTerminate,
        command == Some(Command::Other) ==> spec_decide_instance(true, pid_text, command) == InstanceAction::Proceed,
{
}

} // verus!
