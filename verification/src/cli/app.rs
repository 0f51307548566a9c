use vstd::prelude::*;

use crate::config::{join_path, path_below};

verus! {

/// What the program is asked to do.
#[derive(Clone, Copy, Debug, PartialEq, Eq, Structural)]
pub enum Commands {
    Node,
    Init,
    InitState,
    Import,
    ImportEra,
    ExportEra,
    DumpGenesis,
    Db,
    Download,
    Stage,
    P2P,
    Config,
    Prune,
    TestVectors,
    ReExecute,
    /// A command of whoever extends the program.
    Ext,
}

/// How a command is run.
#[derive(Clone, Copy, Debug, PartialEq, Eq, Structural)]
pub enum RunMode {
    /// Until it is done, a signal comes or a task panics; then its tasks get time to end.
    UntilExit,
    /// The same, on a thread that may block.
    BlockingUntilExit,
    /// Until it is done or a signal comes.
    UntilCtrlC,
    /// The same, on a thread that may block.
    BlockingUntilCtrlC,
    /// As it likes: it gets the runner.
    Own,
}

/// How each command is run. Those that run a node or its stages start tasks; those that work
/// through a database or a file block.
pub open spec fn run_mode(command: Commands) -> RunMode {
    match command {
        Commands::Node | Commands::Stage => RunMode::UntilExit,
        Commands::Db => RunMode::BlockingUntilExit,
        Commands::P2P
        | Commands::Config
        | Commands::Prune
        | Commands::TestVectors
        | Commands::ReExecute => RunMode::UntilCtrlC,
        Commands::Init
        | Commands::InitState
        | Commands::Import
        | Commands::ImportEra
        | Commands::ExportEra
        | Commands::DumpGenesis
        | Commands::Download => RunMode::BlockingUntilCtrlC,
        Commands::Ext => RunMode::Own,
    }
}

/// What came of checking the namespaces that a node is to serve over HTTP and over WebSocket, each
/// where some are named: no error, or one.
#[derive(Clone, Copy, Debug, PartialEq, Eq, Structural)]
pub struct RpcSelections<E> {
    pub http_api: Option<E>,
    pub ws_api: Option<E>,
}

/// How a command is run, or why it is not.
pub open spec fn how_run<E>(command: Commands, selections: RpcSelections<E>) -> Result<RunMode, E> {
    match (command, selections.http_api, selections.ws_api) {
        (Commands::Node, Some(error), _) => Err(error),
        (Commands::Node, None, Some(error)) => Err(error),
        _ => Ok(run_mode(command)),
    }
}

/// How a command is run. A node is not, where the namespaces that it is to serve are wrong; those
/// for HTTP count first.
pub fn run_commands_with<E>(command: Commands, selections: RpcSelections<E>) -> (r: Result<
    RunMode,
    E,
>)
    ensures
        r == (match (command, selections.http_api, selections.ws_api) {
            (Commands::Node, Some(error), _) => Err(error),
            (Commands::Node, None, Some(error)) => Err(error),
            _ => Ok(run_mode(command)),
        }),
        r == how_run(command, selections),
{
    match command {
        Commands::Node => {
            if let Some(error) = selections.http_api {
                return Err(error);
            }
            if let Some(error) = selections.ws_api {
                return Err(error);
            }
            Ok(RunMode::UntilExit)
        },
        Commands::Init => Ok(RunMode::BlockingUntilCtrlC),
        Commands::InitState => Ok(RunMode::BlockingUntilCtrlC),
        Commands::Import => Ok(RunMode::BlockingUntilCtrlC),
        Commands::ImportEra => Ok(RunMode::BlockingUntilCtrlC),
        Commands::ExportEra => Ok(RunMode::BlockingUntilCtrlC),
        Commands::DumpGenesis => Ok(RunMode::BlockingUntilCtrlC),
        Commands::Db => Ok(RunMode::BlockingUntilExit),
        Commands::Download => Ok(RunMode::BlockingUntilCtrlC),
        Commands::Stage => Ok(RunMode::UntilExit),
        Commands::P2P => Ok(RunMode::UntilCtrlC),
        Commands::Config => Ok(RunMode::UntilCtrlC),
        Commands::Prune => Ok(RunMode::UntilCtrlC),
        Commands::TestVectors => Ok(RunMode::UntilCtrlC),
        Commands::ReExecute => Ok(RunMode::UntilCtrlC),
        Commands::Ext => Ok(RunMode::Own),
    }
}

/// What was said on the command line.
#[derive(Debug)]
pub struct Cli {
    pub command: Commands,
    /// The directory of the log files.
    pub log_file_directory: String,
}

/// The program between its command line and its command.
#[derive(Debug)]
pub struct CliApp<Runner, Layers, Guard> {
    pub cli: Cli,
    /// What runs the command, where the caller chose it.
    pub runner: Option<Runner>,
    /// The layers of the logs, until they are used.
    pub layers: Option<Layers>,
    /// What keeps the log files going.
    pub guard: Option<Guard>,
}

/// The logs are already set up.
#[derive(Clone, Copy, Debug, PartialEq, Eq, Structural)]
pub struct TracingInitialized;

impl TracingInitialized {
    /// The error in words.
    pub fn message(&self) -> (text: &'static str)
        ensures
            text@ == "Tracing already initialized"@,
    {
        "Tracing already initialized"
    }
}

impl<Runner, Layers, Guard> CliApp<Runner, Layers, Guard> {
    /// The program with a command line and the layers of its logs, before anything is set up.
    pub fn new(cli: Cli, layers: Layers) -> (made: Self)
        ensures
            made.cli == cli,
            made.runner is None,
            made.layers == Some(layers),
            made.guard is None,
    {
        CliApp { cli, runner: None, layers: Some(layers), guard: None }
    }

    /// Chooses what runs the command, in place of any earlier choice.
    pub fn set_runner(&mut self, runner: Runner)
        ensures
            *final(self) == (CliApp {
                cli: old(self).cli,
                runner: Some(runner),
                layers: old(self).layers,
                guard: old(self).guard,
            }),
    {
        self.runner = Some(runner);
    }

    /// The layers of the logs, to change them. Once the logs are set up they are gone.
    pub fn access_tracing_layers(&mut self) -> (r: Result<&mut Layers, TracingInitialized>)
        ensures
            match r {
                Ok(layers) => {
                    &&& old(self).layers == Some(*layers)
                    &&& final(self).cli == old(self).cli
                    &&& final(self).runner == old(self).runner
                    &&& final(self).layers == Some(*final(layers))
                    &&& final(self).guard == old(self).guard
                },
                Err(_) => old(self).layers is None && *final(self) == *old(self),
            },
    {
        match &mut self.layers {
            Some(layers) => Ok(layers),
            None => Err(TracingInitialized),
        }
    }

    /// Takes what the logs are set up with: the layers, if they are still there. Where the logs are
    /// already set up there is nothing to do.
    pub fn begin_tracing(&mut self) -> (r: Option<Option<Layers>>)
        ensures
            old(self).guard is Some ==> r is None && *final(self) == *old(self),
            old(self).guard is None ==> r == Some(old(self).layers) && *final(self) == (CliApp {
                cli: old(self).cli,
                runner: old(self).runner,
                layers: None::<Layers>,
                guard: None::<Guard>,
            }),
    {
        match &self.guard {
            Some(_) => None,
            None => Some(self.layers.take()),
        }
    }

    /// Keeps what came of setting up the logs.
    pub fn finish_tracing(&mut self, guard: Option<Guard>)
        ensures
            *final(self) == (CliApp {
                cli: old(self).cli,
                runner: old(self).runner,
                layers: old(self).layers,
                guard,
            }),
    {
        self.guard = guard;
    }

    /// Makes ready for a command: takes the runner that was chosen, if any, and puts the log files
    /// into a directory of the chain, where the command has one.
    pub fn prepare(&mut self, chain: Option<&str>) -> (runner: Option<Runner>)
        ensures
            runner == old(self).runner,
            final(self).runner is None,
            final(self).layers == old(self).layers,
            final(self).guard == old(self).guard,
            final(self).cli.command == old(self).cli.command,
            final(self).cli.log_file_directory@ == (match chain {
                Some(chain) => path_below(old(self).cli.log_file_directory@, chain@),
                None => old(self).cli.log_file_directory@,
            }),
    {
        if let Some(chain) = chain {
            self.cli.log_file_directory = join_path(self.cli.log_file_directory.as_str(), chain);
        }
        self.runner.take()
    }
}

/// Which commands are run in which way: a node and its stages start tasks until they are told to
/// exit; a command on a database blocks until then; those that work through a file or a state block
/// until they are interrupted, and the others do not block; a command that was added runs itself.
pub proof fn lemma_run_modes(command: Commands)
    ensures
        run_mode(command) == RunMode::UntilExit <==> command == Commands::Node || command
            == Commands::Stage,
        run_mode(command) == RunMode::BlockingUntilExit <==> command == Commands::Db,
        run_mode(command) == RunMode::UntilCtrlC <==> command == Commands::P2P || command
            == Commands::Config || command == Commands::Prune || command == Commands::TestVectors
            || command == Commands::ReExecute,
        run_mode(command) == RunMode::BlockingUntilCtrlC <==> command == Commands::Init || command
            == Commands::InitState || command == Commands::Import || command
            == Commands::ImportEra || command == Commands::ExportEra || command
            == Commands::DumpGenesis || command == Commands::Download,
        run_mode(command) == RunMode::Own <==> command == Commands::Ext,
{
}

/// Only a node is refused, and exactly where some of the namespaces that it is to serve are wrong;
/// of two errors the one for HTTP is told. What is not refused is run in the way of its command.
pub proof fn lemma_refused_commands<E>(command: Commands, selections: RpcSelections<E>)
    ensures
        how_run(command, selections) is Err <==> command == Commands::Node && (
        selections.http_api is Some || selections.ws_api is Some),
        how_run(command, selections) matches Err(e) ==> (selections.http_api is Some
            ==> selections.http_api == Some(e)) && (selections.http_api is None
            ==> selections.ws_api == Some(e)),
        how_run(command, selections) matches Ok(mode) ==> mode == run_mode(command),
{
}

} // verus!
