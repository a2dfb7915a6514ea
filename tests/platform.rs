use bootstrapper::argument_resolver::{
    expand_tilde, resolve_argument_with_home, resolve_path_argument, resolve_path_with_home,
    starts_with_home, ArgumentError,
};
use bootstrapper::execution_platform::{
    already_installed, construct_command, construct_execution_platform, execution_result, new,
    parse_environment_string, HostPlatform,
    prepare_operation, prepare_operation_with_home, ArgumentResolver, CommandExecutor, ExecutionError,
    Invocation, LinkExecutor,
    PrepareError, Step, UnixExecutionPlatform,
};
use bootstrapper::schema::{Argument, CommandConfig, Operation, PathStr};

fn tokens(inv: &Invocation) -> Vec<String> {
    let mut t = vec![inv.program.clone()];
    t.extend(inv.args.iter().cloned());
    t
}

fn lit(s: &str) -> Argument {
    Argument::String(s.to_string())
}

fn path(s: &str) -> Argument {
    Argument::Path { path: PathStr(s.to_string()) }
}

#[test]
fn tilde_prefix_expands_to_home() {
    assert_eq!(expand_tilde("~/x", "/home/alice"), "/home/alice/x");
    assert_eq!(expand_tilde("~/", "/home/alice"), "/home/alice/");
}

#[test]
fn absolute_path_is_unchanged() {
    assert_eq!(expand_tilde("/abs/x", "/home/alice"), "/abs/x");
    assert_eq!(resolve_path_argument(&PathStr("/abs/x".to_string())), Ok("/abs/x".to_string()));
}

#[test]
fn tilde_user_is_not_expanded() {
    assert_eq!(expand_tilde("~user/x", "/home/alice"), "~user/x");
    assert_eq!(expand_tilde("~", "/home/alice"), "~");
    assert!(!starts_with_home("~user/x"));
    assert!(starts_with_home("~/x"));
}

#[test]
fn literal_is_never_expanded() {
    let home = "/home/alice".to_string();
    assert_eq!(resolve_argument_with_home(&lit("~/x"), Some(&home)), Ok("~/x".to_string()));
    assert_eq!(resolve_argument_with_home(&path("~/x"), Some(&home)), Ok("/home/alice/x".to_string()));
}

#[test]
fn unknown_home_is_an_error_only_when_needed() {
    let p = PathStr("~/x".to_string());
    assert_eq!(resolve_path_with_home(&p, None), Err(ArgumentError::HomeDirectoryUnavailable));
    let q = PathStr("/etc/x".to_string());
    assert_eq!(resolve_path_with_home(&q, None), Ok("/etc/x".to_string()));
}

#[test]
fn unix_elevated_command_starts_with_sudo() {
    let config = CommandConfig {
        command: lit("apt-get"),
        as_root: Some(true),
        args: Some(vec![lit("install"), lit("-y"), lit("git")]),
    };
    let inv = UnixExecutionPlatform.build_command(&config, None).unwrap();
    assert_eq!(tokens(&inv), vec!["sudo", "apt-get", "install", "-y", "git"]);
}

#[test]
fn unix_plain_command_runs_directly() {
    for as_root in [None, Some(false)] {
        let config = CommandConfig {
            command: lit("curl"),
            as_root,
            args: Some(vec![lit("--version")]),
        };
        let inv = construct_command(&UnixExecutionPlatform, &config).unwrap();
        assert_eq!(tokens(&inv), vec!["curl", "--version"]);
    }
}

#[test]
fn unix_command_resolves_path_arguments() {
    let home = "/home/bob".to_string();
    let config = CommandConfig {
        command: path("~/bin/tool"),
        as_root: Some(true),
        args: Some(vec![path("~/cfg"), path("/etc/cfg"), lit("~/lit")]),
    };
    let inv = UnixExecutionPlatform.build_command(&config, Some(&home)).unwrap();
    assert_eq!(
        tokens(&inv),
        vec!["sudo", "/home/bob/bin/tool", "/home/bob/cfg", "/etc/cfg", "~/lit"]
    );
    assert_eq!(
        UnixExecutionPlatform.build_command(&config, None).err(),
        Some(ArgumentError::HomeDirectoryUnavailable)
    );
}

#[test]
fn windows_command_goes_through_start_process() {
    let config = CommandConfig {
        command: lit("winget"),
        as_root: None,
        args: Some(vec![lit("install"), lit("it's")]),
    };
    let inv = new().build_command(&config, None).unwrap();
    assert_eq!(
        tokens(&inv),
        vec![
            "powershell.exe",
            "-NoProfile",
            "-Command",
            "$p = Start-Process -FilePath 'winget' -ArgumentList 'install','it''s' -Wait -PassThru; exit $p.ExitCode",
        ]
    );
}

#[test]
fn windows_elevated_command_differs_only_by_verb() {
    let config = CommandConfig { command: lit("choco"), as_root: Some(true), args: None };
    let inv = new().build_command(&config, None).unwrap();
    assert_eq!(
        tokens(&inv),
        vec![
            "powershell.exe",
            "-NoProfile",
            "-Command",
            "$p = Start-Process -FilePath 'choco' -Wait -PassThru -Verb RunAs; exit $p.ExitCode",
        ]
    );
}

#[test]
fn windows_link_uses_nested_elevated_shell() {
    let inv = new()
        .link_invocation(&"C:\\dot\\gitconfig".to_string(), &"C:\\Users\\a\\.gitconfig".to_string())
        .unwrap();
    assert_eq!(
        tokens(&inv),
        vec![
            "powershell.exe",
            "-NoProfile",
            "-Command",
            "$p = Start-Process -FilePath 'powershell.exe' -ArgumentList '-NoProfile','-Command','New-Item -ItemType SymbolicLink -Path ''C:\\Users\\a\\.gitconfig'' -Value ''C:\\dot\\gitconfig''' -Wait -PassThru -Verb RunAs; exit $p.ExitCode",
        ]
    );
}

#[test]
fn unix_link_is_native() {
    assert!(UnixExecutionPlatform.link_invocation(&"a".to_string(), &"b".to_string()).is_none());
    let op = Operation::Link {
        original: PathStr("/src/gitconfig".to_string()),
        link: PathStr("/dst/.gitconfig".to_string()),
    };
    match prepare_operation(&UnixExecutionPlatform, &op) {
        Ok(Step::Link { original, link, via }) => {
            assert_eq!(original, "/src/gitconfig");
            assert_eq!(link, "/dst/.gitconfig");
            assert!(via.is_none());
        }
        _ => panic!("expected a link step"),
    }
}

#[test]
fn link_paths_are_resolved_with_home() {
    let home = "/home/carol".to_string();
    let op = Operation::Link {
        original: PathStr("~/dotfiles/gitconfig".to_string()),
        link: PathStr("~/.gitconfig".to_string()),
    };
    match prepare_operation_with_home(&UnixExecutionPlatform, &op, Some(&home)) {
        Ok(Step::Link { original, link, .. }) => {
            assert_eq!(original, "/home/carol/dotfiles/gitconfig");
            assert_eq!(link, "/home/carol/.gitconfig");
        }
        _ => panic!("expected a link step"),
    }
    assert!(matches!(
        prepare_operation_with_home(&UnixExecutionPlatform, &op, None),
        Err(PrepareError::Argument(ArgumentError::HomeDirectoryUnavailable))
    ));
}

#[test]
fn unexpanded_package_install_cannot_be_prepared() {
    let op = Operation::PackageInstall { package_name: "git".to_string() };
    assert!(matches!(
        prepare_operation(&UnixExecutionPlatform, &op),
        Err(PrepareError::UnexpandedPackageInstall)
    ));
}

#[test]
fn exit_code_zero_is_success() {
    assert_eq!(execution_result(Some(0)), Ok(()));
    assert_eq!(execution_result(Some(1)), Err(ExecutionError::ExecutionFailed(Some(1))));
    assert_eq!(execution_result(None), Err(ExecutionError::ExecutionFailed(None)));
}

#[test]
fn installed_check_reads_exit_code() {
    assert!(already_installed(Some(0)));
    assert!(!already_installed(Some(1)));
    assert!(!already_installed(None));
}

#[test]
fn environment_entry_splits_on_single_equals() {
    assert_eq!(
        parse_environment_string("PATH=/usr/bin:/bin".to_string()),
        Some(("PATH".to_string(), "/usr/bin:/bin".to_string()))
    );
    assert_eq!(parse_environment_string("EMPTY=".to_string()), Some(("EMPTY".to_string(), String::new())));
    assert_eq!(parse_environment_string("A=B=C".to_string()), None);
    assert_eq!(parse_environment_string("=C:=C:\\".to_string()), None);
    assert_eq!(parse_environment_string("NOVALUE".to_string()), None);
    assert_eq!(parse_environment_string("ÄÖ=ü".to_string()), Some(("ÄÖ".to_string(), "ü".to_string())));
}

#[test]
fn platform_resolver_keeps_literals_and_plain_paths() {
    assert_eq!(UnixExecutionPlatform.resolve_argument(&lit("~/x")), Ok("~/x".to_string()));
    assert_eq!(
        new().resolve_path_argument(&PathStr("C:\\tools".to_string())),
        Ok("C:\\tools".to_string())
    );
}

#[test]
fn chosen_platform_dispatches_to_its_strategy() {
    let config = CommandConfig { command: lit("true"), as_root: Some(true), args: None };
    let unix = construct_execution_platform(false);
    assert!(matches!(unix, HostPlatform::Unix(_)));
    assert_eq!(tokens(&unix.build_command(&config, None).unwrap()), vec!["sudo", "true"]);
    assert!(unix.link_invocation(&"a".to_string(), &"b".to_string()).is_none());
    let windows = construct_execution_platform(true);
    assert!(matches!(windows, HostPlatform::Windows(_)));
    assert_eq!(tokens(&windows.build_command(&config, None).unwrap())[0], "powershell.exe");
    assert!(windows.link_invocation(&"a".to_string(), &"b".to_string()).is_some());
}
