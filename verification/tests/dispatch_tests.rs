use rush_core::commands::{
    search_candidates, Builtin, BuiltinKind, CommandManager, Executable, Runnable, StatusCode,
};
use rush_core::environment::{EnvSnapshot, Environment};
use rush_core::errors::ShellError;
use rush_core::execution::{map_exit_status, NO_EXIT_CODE};
use rush_core::path::Path;
use rush_core::shell::Shell;

fn home() -> String {
    String::from("/home/user")
}

fn dir(abs: &str) -> Path {
    Path::new(String::from(abs), &home())
}

fn manager() -> CommandManager {
    let mut m = CommandManager::new();
    assert!(m.register(Builtin::new(
        "list",
        vec![String::from("ls")],
        BuiltinKind::ListFilesAndDirectories,
    )));
    assert!(m.register(Builtin::new(
        "working-directory",
        vec![String::from("pwd"), String::from("wd")],
        BuiltinKind::WorkingDirectory,
    )));
    m
}

#[test]
fn a_builtin_shadows_an_external_executable_of_the_same_name() {
    let m = manager();
    let external = Executable::new(dir("/usr/bin/list"));
    match m.dispatch("list", Some(external)) {
        Some(Runnable::Builtin(i)) => {
            assert_eq!(m.builtin_at(i).true_name.as_str(), "list");
            assert_eq!(m.builtin_at(i).kind, BuiltinKind::ListFilesAndDirectories);
        }
        _ => panic!("expected the builtin to win"),
    }
}

#[test]
fn an_alias_reaches_its_builtin() {
    let m = manager();
    match m.dispatch("pwd", None) {
        Some(Runnable::Builtin(i)) => {
            assert_eq!(m.builtin_at(i).true_name.as_str(), "working-directory");
        }
        _ => panic!("expected a builtin"),
    }
}

#[test]
fn an_unknown_token_is_not_found_rather_than_failed() {
    let m = manager();
    let r = m.dispatch("no-such-command", None);
    assert!(r.is_none());
    // "Not found" leaves the shell's success flag alone, unlike a failure.
    let mut shell = Shell::new(String::from("user"), dir("/home/user"));
    shell.record_outcome(None);
    assert!(shell.succeeded());
}

#[test]
fn a_resolved_external_runs_when_no_builtin_matches() {
    let m = manager();
    let external = Executable::new(dir("/usr/bin/grep"));
    match m.dispatch("grep", Some(external)) {
        Some(Runnable::External(e)) => {
            assert_eq!(e.path().absolute().as_str(), "/usr/bin/grep");
        }
        _ => panic!("expected the external executable"),
    }
}

#[test]
fn registration_rejects_a_duplicate_name() {
    let mut m = manager();
    assert!(!m.register(Builtin::new("list", vec![], BuiltinKind::Test)));
    assert_eq!(m.builtin_count(), 2);
}

#[test]
fn registration_rejects_an_alias_collision() {
    let mut m = manager();
    // "ls" is already an alias of "list".
    assert!(!m.register(Builtin::new(
        "list-short",
        vec![String::from("ls")],
        BuiltinKind::Test,
    )));
    // An alias may not shadow a canonical name either.
    assert!(!m.register(Builtin::new(
        "other",
        vec![String::from("list")],
        BuiltinKind::Test,
    )));
    assert!(m.register(Builtin::new("other", vec![], BuiltinKind::Test)));
}

#[test]
fn the_first_matching_builtin_wins() {
    let m = manager();
    match m.dispatch("ls", None) {
        Some(Runnable::Builtin(i)) => assert_eq!(i, 0),
        _ => panic!("expected a builtin"),
    }
}

#[test]
fn builtin_matches_its_name_and_aliases_only() {
    let b = Builtin::new("list", vec![String::from("ls")], BuiltinKind::Test);
    assert!(b.matches("list"));
    assert!(b.matches("ls"));
    assert!(!b.matches("lists"));
    assert!(b.aliases.contains("ls"));
    assert!(!b.aliases.contains("list"));
}

#[test]
fn search_candidates_walk_the_search_path_in_order() {
    let e = Environment::new(EnvSnapshot {
        user: Some(String::from("user")),
        home: Some(home()),
        cwd: Some(String::from("/home/user")),
        path: Some(String::from("/bin:/usr/bin")),
        cwd_resolved: Some(dir("/home/user")),
        path_dirs: vec![Some(dir("/bin")), Some(dir("/usr/bin"))],
    })
    .unwrap();
    let c = search_candidates(&e, "grep");
    let strs: Vec<&str> = c.iter().map(|s| s.as_str()).collect();
    assert_eq!(strs, vec!["/bin/grep", "/usr/bin/grep"]);
}

#[test]
fn exit_code_three_maps_to_execution_failed_three() {
    assert_eq!(
        map_exit_status(false, Some(3)).err().unwrap(),
        ShellError::ExecutionFailed(3)
    );
}

#[test]
fn a_signal_killed_process_maps_to_the_sentinel_code() {
    assert_eq!(
        map_exit_status(false, None).err().unwrap(),
        ShellError::ExecutionFailed(126)
    );
    assert_eq!(NO_EXIT_CODE, 126);
}

#[test]
fn a_successful_exit_maps_to_ok() {
    assert!(map_exit_status(true, Some(0)).is_ok());
}

#[test]
fn status_codes_report_success_only_for_zero() {
    assert!(StatusCode::success().is_success());
    assert!(!StatusCode::new(3).is_success());
    assert_eq!(StatusCode::new(3).code, 3);
}

#[test]
fn the_shell_tracks_the_last_outcome() {
    let mut shell = Shell::new(String::from("user"), dir("/home/user"));
    assert!(shell.succeeded());
    assert_eq!(shell.user_name().as_str(), "user");
    shell.record_outcome(Some(StatusCode::new(1)));
    assert!(!shell.succeeded());
    shell.record_outcome(None);
    assert!(!shell.succeeded());
    shell.record_outcome(Some(StatusCode::success()));
    assert!(shell.succeeded());
}

#[test]
fn the_prompt_directory_is_mutable_through_the_shell() {
    let mut shell = Shell::new(String::from("user"), dir("/home/user/work"));
    shell.working_directory().set_truncation(1);
    assert_eq!(shell.working_directory().short().as_str(), "~/w");
}

#[test]
fn every_error_renders_a_message() {
    let errors = vec![
        ShellError::PathResolutionError,
        ShellError::MissingEnvironmentVariable(rush_core::environment::EnvVariable::User),
        ShellError::DirectoryResolutionError,
        ShellError::NoPreviousDirectory,
        ShellError::NoNextDirectory,
        ShellError::EnvironmentSyncError(rush_core::environment::EnvVariable::Cwd),
        ShellError::SpawnError,
        ShellError::ExecutionFailed(126),
    ];
    for e in errors {
        assert!(!e.message().is_empty());
    }
}
