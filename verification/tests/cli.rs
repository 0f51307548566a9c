use reth::cli::app::{
    run_commands_with, Cli, CliApp, Commands, RpcSelections, RunMode, TracingInitialized,
};
use reth::cli::runner::{
    run_to_completion_or_panic, run_until_ctrl_c, CliRunnerConfig, Completion, Interrupt,
    RunError, ShutdownPlan,
};
use reth::cli::stack_trace::{
    plan_stack_trace, signal_stack_size, Cycle, TracePlan, MAX_FRAMES,
};
use reth::time::Duration;

fn config_cli() -> Cli {
    Cli { command: Commands::Config, log_file_directory: String::from("/logs") }
}

fn configure(cli: Cli) -> CliApp<&'static str, Vec<u8>, u8> {
    CliApp::new(cli, Vec::new())
}

#[test]
fn test_cli_app_creation() {
    let app = configure(config_cli());

    assert!(app.runner.is_none());
    assert!(app.layers.is_some());
    assert!(app.guard.is_none());
}

#[test]
fn test_set_runner() {
    let mut app = configure(config_cli());

    app.set_runner("runner");
    assert!(app.runner.is_some());
}

#[test]
fn test_access_tracing_layers() {
    let mut app = configure(config_cli());

    assert!(app.access_tracing_layers().is_ok());

    app.layers = None;
    assert!(app.access_tracing_layers().is_err());
}

#[test]
fn tracing_is_set_up_once() {
    let mut app = configure(config_cli());
    app.access_tracing_layers().unwrap().push(7);
    assert_eq!(app.begin_tracing(), Some(Some(vec![7])));
    assert_eq!(app.access_tracing_layers(), Err(TracingInitialized));
    assert_eq!(TracingInitialized.message(), "Tracing already initialized");
    // Without a guard the logs are set up again, with layers as new.
    app.finish_tracing(None);
    assert_eq!(app.begin_tracing(), Some(None));
    app.finish_tracing(Some(1));
    assert_eq!(app.begin_tracing(), None);
}

#[test]
fn logs_go_below_the_chain() {
    let mut app = configure(config_cli());
    app.set_runner("runner");
    assert_eq!(app.prepare(Some("mainnet")), Some("runner"));
    assert_eq!(app.cli.log_file_directory, "/logs/mainnet");
    assert_eq!(app.prepare(None), None);
    assert_eq!(app.cli.log_file_directory, "/logs/mainnet");
}

#[test]
fn commands_are_run_each_in_its_way() {
    let fine = RpcSelections::<&str> { http_api: None, ws_api: None };
    let modes = vec![
        (Commands::Node, RunMode::UntilExit),
        (Commands::Stage, RunMode::UntilExit),
        (Commands::Db, RunMode::BlockingUntilExit),
        (Commands::P2P, RunMode::UntilCtrlC),
        (Commands::Config, RunMode::UntilCtrlC),
        (Commands::Prune, RunMode::UntilCtrlC),
        (Commands::TestVectors, RunMode::UntilCtrlC),
        (Commands::ReExecute, RunMode::UntilCtrlC),
        (Commands::Init, RunMode::BlockingUntilCtrlC),
        (Commands::InitState, RunMode::BlockingUntilCtrlC),
        (Commands::Import, RunMode::BlockingUntilCtrlC),
        (Commands::ImportEra, RunMode::BlockingUntilCtrlC),
        (Commands::ExportEra, RunMode::BlockingUntilCtrlC),
        (Commands::DumpGenesis, RunMode::BlockingUntilCtrlC),
        (Commands::Download, RunMode::BlockingUntilCtrlC),
        (Commands::Ext, RunMode::Own),
    ];
    for (command, mode) in modes {
        assert_eq!(run_commands_with(command, fine), Ok(mode));
    }
}

#[test]
fn nodes_need_known_namespaces() {
    let http = RpcSelections { http_api: Some("http"), ws_api: Some("ws") };
    let ws = RpcSelections { http_api: None, ws_api: Some("ws") };
    assert_eq!(run_commands_with(Commands::Node, http), Err("http"));
    assert_eq!(run_commands_with(Commands::Node, ws), Err("ws"));
    assert_eq!(run_commands_with(Commands::Db, http), Ok(RunMode::BlockingUntilExit));
}

#[test]
fn tasks_get_time_after_success() {
    let config = CliRunnerConfig::default();
    let five = Duration { secs: 5, nanos: 0 };
    assert_eq!(config.graceful_shutdown_timeout, five);
    assert_eq!(config, CliRunnerConfig::new());
    let two = Duration { secs: 2, nanos: 7 };
    let config = config.with_graceful_shutdown_timeout(two);
    assert_eq!(
        config.shutdown_plan(&Ok::<(), ()>(())),
        ShutdownPlan { graceful: Some(two), runtime: five }
    );
    assert_eq!(
        config.shutdown_plan(&Err::<(), ()>(())),
        ShutdownPlan { graceful: None, runtime: five }
    );
}

#[test]
fn signals_are_no_errors() {
    assert_eq!(run_until_ctrl_c(Interrupt::<u8>::CtrlC), Ok(()));
    assert_eq!(run_until_ctrl_c(Interrupt::<u8>::Sigterm), Ok(()));
    assert_eq!(run_until_ctrl_c(Interrupt::<u8>::Finished(None)), Ok(()));
    assert_eq!(run_until_ctrl_c(Interrupt::Finished(Some(7u8))), Err(7));
}

#[test]
fn panics_of_tasks_end_the_command() {
    assert_eq!(run_to_completion_or_panic(Completion::<u8, u8>::Tasks(None)), Ok(()));
    assert_eq!(run_to_completion_or_panic(Completion::<u8, u8>::Command(None)), Ok(()));
    assert_eq!(
        run_to_completion_or_panic(Completion::<u8, u8>::Tasks(Some(1))),
        Err(RunError::Panicked(1))
    );
    assert_eq!(
        run_to_completion_or_panic(Completion::<u8, u8>::Command(Some(1))),
        Err(RunError::Command(1))
    );
}

#[test]
fn recursion_is_written_once() {
    // Two frames, then three that come again and again.
    let mut stack = vec![1usize, 2];
    for _ in 0..40 {
        stack.extend_from_slice(&[10, 11, 12]);
    }
    assert_eq!(
        plan_stack_trace(&stack),
        Some(TracePlan {
            prefix: 2,
            cycle: Some(Cycle { period: 3, times: 40 }),
            rest_from: 122,
            overflowed: true,
            truncated: false,
            scrolled: false,
        })
    );
    let plain = plan_stack_trace(&[1, 2, 3, 4]).unwrap();
    assert_eq!(plain.cycle, None);
    assert_eq!(plain.rest_from, 0);
    assert!(!plain.overflowed);
    assert_eq!(plan_stack_trace(&[]), None);
}

#[test]
fn deep_stacks_have_overflowed() {
    let deep: Vec<usize> = (0..MAX_FRAMES).collect();
    let plan = plan_stack_trace(&deep).unwrap();
    assert!(plan.overflowed);
    assert!(plan.truncated);
    assert!(plan.scrolled);
    let shallow: Vec<usize> = (0..128).collect();
    assert!(!plan_stack_trace(&shallow).unwrap().overflowed);
}

#[test]
fn signal_stacks_have_room() {
    assert_eq!(signal_stack_size(2048, 0), 2048 + 64 * 1024);
    assert_eq!(signal_stack_size(2048, 4096), 4096 + 64 * 1024);
}
