use vstd::prelude::*;

use crate::time::Duration;

verus! {

/// How long tasks may take to end by themselves, in seconds.
pub const DEFAULT_GRACEFUL_SHUTDOWN_SECS: u64 = 5;

/// How long the runtime may take to stop, in seconds.
pub const RUNTIME_SHUTDOWN_SECS: u64 = 5;

/// How a runner ends a command.
#[derive(Clone, Copy, Debug, PartialEq, Eq, Structural)]
pub struct CliRunnerConfig {
    /// How long the tasks that a command started may take to end before they are stopped.
    pub graceful_shutdown_timeout: Duration,
}

impl Default for CliRunnerConfig {
    fn default() -> (made: CliRunnerConfig)
        ensures
            made.graceful_shutdown_timeout == (Duration {
                secs: DEFAULT_GRACEFUL_SHUTDOWN_SECS,
                nanos: 0,
            }),
    {
        CliRunnerConfig::new()
    }
}

/// What is done when a command is over.
#[derive(Clone, Copy, Debug, PartialEq, Eq, Structural)]
pub struct ShutdownPlan {
    /// How long tasks may take to end by themselves. Without it they are stopped.
    pub graceful: Option<Duration>,
    /// How long to wait for the runtime, which stops on a thread of its own.
    pub runtime: Duration,
}

impl CliRunnerConfig {
    /// The configuration where nothing is said.
    pub fn new() -> (made: CliRunnerConfig)
        ensures
            made.graceful_shutdown_timeout == (Duration {
                secs: DEFAULT_GRACEFUL_SHUTDOWN_SECS,
                nanos: 0,
            }),
    {
        CliRunnerConfig {
            graceful_shutdown_timeout: Duration { secs: DEFAULT_GRACEFUL_SHUTDOWN_SECS, nanos: 0 },
        }
    }

    /// Sets how long tasks may take to end.
    pub fn with_graceful_shutdown_timeout(self, timeout: Duration) -> (made: CliRunnerConfig)
        ensures
            made == (CliRunnerConfig { graceful_shutdown_timeout: timeout }),
    {
        CliRunnerConfig { graceful_shutdown_timeout: timeout }
    }

    /// What is done when a command has ended: where it ended well, its tasks get time to end too.
    pub fn shutdown_plan<E>(&self, command: &Result<(), E>) -> (plan: ShutdownPlan)
        ensures
            plan.graceful == (if command is Ok {
                Some(self.graceful_shutdown_timeout)
            } else {
                None
            }),
            plan.runtime == (Duration { secs: RUNTIME_SHUTDOWN_SECS, nanos: 0 }),
    {
        let graceful = match command {
            Ok(_) => Some(self.graceful_shutdown_timeout),
            Err(_) => None,
        };
        ShutdownPlan { graceful, runtime: Duration { secs: RUNTIME_SHUTDOWN_SECS, nanos: 0 } }
    }
}

/// What ended the wait for a command.
#[derive(Clone, Copy, Debug, PartialEq, Eq, Structural)]
pub enum Interrupt<E> {
    /// Someone pressed Ctrl-C.
    CtrlC,
    /// The process was asked to terminate.
    Sigterm,
    /// The command was done, or failed.
    Finished(Option<E>),
}

/// What a command that runs until a signal comes to: a signal is no error.
pub fn run_until_ctrl_c<E>(interrupt: Interrupt<E>) -> (r: Result<(), E>)
    ensures
        match interrupt {
            Interrupt::CtrlC => r is Ok,
            Interrupt::Sigterm => r is Ok,
            Interrupt::Finished(None) => r is Ok,
            Interrupt::Finished(Some(error)) => r == Err::<(), E>(error),
        },
{
    match interrupt {
        Interrupt::CtrlC => Ok(()),
        Interrupt::Sigterm => Ok(()),
        Interrupt::Finished(None) => Ok(()),
        Interrupt::Finished(Some(error)) => Err(error),
    }
}

/// Which of a command and the tasks that it started was over first.
#[derive(Clone, Copy, Debug, PartialEq, Eq, Structural)]
pub enum Completion<E, P> {
    /// The tasks: all are done, or one panicked that the node cannot do without.
    Tasks(Option<P>),
    /// The command: it was done, or failed.
    Command(Option<E>),
}

/// Why a command failed.
#[derive(Clone, Copy, Debug, PartialEq, Eq, Structural)]
pub enum RunError<E, P> {
    Command(E),
    Panicked(P),
}

/// What a command that runs until a task panics comes to.
pub fn run_to_completion_or_panic<E, P>(completion: Completion<E, P>) -> (r: Result<
    (),
    RunError<E, P>,
>)
    ensures
        match completion {
            Completion::Tasks(None) => r is Ok,
            Completion::Tasks(Some(panicked)) => r == Err::<(), RunError<E, P>>(
                RunError::Panicked(panicked),
            ),
            Completion::Command(None) => r is Ok,
            Completion::Command(Some(error)) => r == Err::<(), RunError<E, P>>(
                RunError::Command(error),
            ),
        },
{
    match completion {
        Completion::Tasks(None) => Ok(()),
        Completion::Tasks(Some(panicked)) => Err(RunError::Panicked(panicked)),
        Completion::Command(None) => Ok(()),
        Completion::Command(Some(error)) => Err(RunError::Command(error)),
    }
}

} // verus!
