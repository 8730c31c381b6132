use core_lib::run_args::{parse_run_args, RunArgs, RunArgsError};
use core_lib::sync_loop::{run_sync_loop, SyncLoopAction, SyncLoopEvent};
use core_lib::watch::{WatchError, WatchEvent};

fn args(items: &[&str]) -> Vec<String> {
    items.iter().map(|s| s.to_string()).collect()
}

#[test]
fn run_args_accept_a_script_path_and_flags_in_any_order() {
    assert_eq!(
        parse_run_args(&args(&["--open", "script.json", "--output", "out.json"])).unwrap(),
        RunArgs { script_path: "script.json".to_string(), output_path: Some("out.json".to_string()), open_gui: true }
    );
    assert_eq!(
        parse_run_args(&args(&["s.json"])).unwrap(),
        RunArgs { script_path: "s.json".to_string(), output_path: None, open_gui: false }
    );
}

#[test]
fn run_args_refusals() {
    assert_eq!(parse_run_args(&args(&["s.json", "--output"])).unwrap_err(), RunArgsError::MissingOutputPath);
    assert_eq!(
        parse_run_args(&args(&["a.json", "b.json"])).unwrap_err(),
        RunArgsError::UnexpectedArgument("b.json".to_string())
    );
    assert_eq!(parse_run_args(&args(&["--open"])).unwrap_err(), RunArgsError::MissingScriptPath);
    assert_eq!(parse_run_args(&args(&[])).unwrap_err(), RunArgsError::MissingScriptPath);
}

#[test]
fn output_flag_takes_the_next_argument_even_if_it_looks_like_a_flag() {
    assert_eq!(
        parse_run_args(&args(&["--output", "--open", "s.json"])).unwrap(),
        RunArgs { script_path: "s.json".to_string(), output_path: Some("--open".to_string()), open_gui: false }
    );
}

#[test]
fn sync_loop_resyncs_per_event_and_stops_at_the_first_error() {
    assert!(matches!(run_sync_loop::<String>(SyncLoopEvent::Started), SyncLoopAction::AwaitEvent));
    let event = WatchEvent { path: std::path::PathBuf::from("m.json") };
    assert!(matches!(run_sync_loop::<String>(SyncLoopEvent::Received(event)), SyncLoopAction::Resync));
    assert!(matches!(run_sync_loop::<String>(SyncLoopEvent::Resynced(Ok(()))), SyncLoopAction::AwaitEvent));
    assert!(matches!(
        run_sync_loop(SyncLoopEvent::Resynced(Err("bad json".to_string()))),
        SyncLoopAction::Finish(Err(e)) if e == "bad json"
    ));
    assert!(matches!(run_sync_loop::<String>(SyncLoopEvent::ChannelClosed), SyncLoopAction::Finish(Ok(()))));
}

#[test]
fn watch_values_carry_their_payload() {
    let event = WatchEvent { path: std::path::PathBuf::from("a/b.json") };
    let copy = event.clone();
    assert_eq!(copy.path, std::path::PathBuf::from("a/b.json"));
    assert_eq!(WatchError::SetupFailed("x".to_string()), WatchError::SetupFailed("x".to_string()));
}
