use bootstrapper::expand::ExpansionError;
use bootstrapper::schema::{
    Application, Argument, CommandConfig, ConcretePlatformConfig, ConcreteRecipe, Operation,
    PathStr, PlatformConfig, PlatformSpecificRecipe, Schema,
};

fn lit(s: &str) -> Argument {
    Argument::String(s.to_string())
}

fn command(cmd: &str, as_root: Option<bool>, args: &[&str]) -> Operation {
    Operation::Command(CommandConfig {
        command: lit(cmd),
        as_root,
        args: Some(args.iter().map(|a| lit(a)).collect()),
    })
}

fn install(name: &str) -> Operation {
    Operation::PackageInstall { package_name: name.to_string() }
}

fn concrete(ops: Vec<Operation>) -> PlatformSpecificRecipe {
    PlatformSpecificRecipe::ConcreteRecipe(ConcreteRecipe { skip_if: None, operations: ops })
}

fn apt_config() -> PlatformConfig {
    PlatformConfig::ConcretePlatformConfig(ConcretePlatformConfig {
        package_install: vec![command("apt-get", Some(true), &["install", "-y", "${package}"])],
    })
}

fn literal_args(op: &Operation) -> Vec<String> {
    match op {
        Operation::Command(c) => c
            .args
            .as_ref()
            .unwrap()
            .iter()
            .map(|a| match a {
                Argument::String(s) => s.clone(),
                Argument::Path { path } => format!("path:{}", path.0),
            })
            .collect(),
        _ => panic!("not a command"),
    }
}

fn operations_of<'a>(schema: &'a Schema, app: usize, platform: &str) -> &'a Vec<Operation> {
    let a = &schema.application()[app];
    match a.resolve_recipe(&platform.to_string()) {
        Ok(Some(r)) => &r.operations,
        _ => panic!("no recipe"),
    }
}

#[test]
fn package_install_expands_against_linux_template() {
    let app = Application::new(
        "git".to_string(),
        vec![("linux".to_string(), concrete(vec![install("git")]))],
    )
    .unwrap();
    let mut schema = Schema::new(vec![("linux".to_string(), apt_config())], vec![app]).unwrap();
    assert_eq!(schema.expand(), Ok(()));
    let ops = operations_of(&schema, 0, "linux");
    assert_eq!(ops.len(), 1);
    match &ops[0] {
        Operation::Command(c) => {
            assert!(matches!(&c.command, Argument::String(s) if s == "apt-get"));
            assert_eq!(c.as_root, Some(true));
        }
        _ => panic!("expected a command"),
    }
    assert_eq!(literal_args(&ops[0]), vec!["install", "-y", "git"]);
}

#[test]
fn expansion_keeps_order_and_replaces_in_place() {
    let template = PlatformConfig::ConcretePlatformConfig(ConcretePlatformConfig {
        package_install: vec![
            command("pkg", None, &["update"]),
            command("pkg", Some(true), &["add", "${package}", "foo-${package}"]),
        ],
    });
    let ops = vec![
        command("echo", None, &["first"]),
        install("vim"),
        Operation::Link {
            original: PathStr("~/dotfiles/vimrc".to_string()),
            link: PathStr("~/.vimrc".to_string()),
        },
        install("git"),
        command("echo", None, &["last"]),
    ];
    let app =
        Application::new("tools".to_string(), vec![("bsd".to_string(), concrete(ops))]).unwrap();
    let mut schema = Schema::new(vec![("bsd".to_string(), template)], vec![app]).unwrap();
    assert_eq!(schema.expand(), Ok(()));
    let ops = operations_of(&schema, 0, "bsd");
    assert_eq!(ops.len(), 7);
    assert_eq!(literal_args(&ops[0]), vec!["first"]);
    assert_eq!(literal_args(&ops[1]), vec!["update"]);
    assert_eq!(literal_args(&ops[2]), vec!["add", "vim", "foo-${package}"]);
    assert!(matches!(&ops[3], Operation::Link { original, .. } if original.0 == "~/dotfiles/vimrc"));
    assert_eq!(literal_args(&ops[4]), vec!["update"]);
    assert_eq!(literal_args(&ops[5]), vec!["add", "git", "foo-${package}"]);
    assert_eq!(literal_args(&ops[6]), vec!["last"]);
}

#[test]
fn placeholder_in_path_argument_is_not_replaced() {
    let template = PlatformConfig::ConcretePlatformConfig(ConcretePlatformConfig {
        package_install: vec![Operation::Command(CommandConfig {
            command: lit("installer"),
            as_root: None,
            args: Some(vec![Argument::Path { path: PathStr("${package}".to_string()) }]),
        })],
    });
    let t = match &template {
        PlatformConfig::ConcretePlatformConfig(c) => c,
        _ => unreachable!(),
    };
    let ops = t.construct_package_install_operations(&"curl".to_string());
    assert_eq!(literal_args(&ops[0]), vec!["path:${package}"]);
}

#[test]
fn template_through_platform_alias() {
    let app = Application::new(
        "git".to_string(),
        vec![("ubuntu".to_string(), concrete(vec![install("git")]))],
    )
    .unwrap();
    let mut schema = Schema::new(
        vec![
            ("ubuntu".to_string(), PlatformConfig::SameWith { same_with: "linux".to_string() }),
            ("linux".to_string(), apt_config()),
        ],
        vec![app],
    )
    .unwrap();
    assert_eq!(schema.expand(), Ok(()));
    let ops = operations_of(&schema, 0, "ubuntu");
    assert_eq!(literal_args(&ops[0]), vec!["install", "-y", "git"]);
}

#[test]
fn missing_template_fails_without_partial_expansion() {
    let first = Application::new(
        "git".to_string(),
        vec![("linux".to_string(), concrete(vec![install("git")]))],
    )
    .unwrap();
    let second = Application::new(
        "brew-only".to_string(),
        vec![("mac".to_string(), concrete(vec![install("wget")]))],
    )
    .unwrap();
    let mut schema =
        Schema::new(vec![("linux".to_string(), apt_config())], vec![first, second]).unwrap();
    assert_eq!(schema.expand(), Err(ExpansionError::PlatformConfigNotFound));
    let ops = operations_of(&schema, 0, "linux");
    assert!(matches!(&ops[0], Operation::PackageInstall { package_name } if package_name == "git"));
}

#[test]
fn cyclic_template_alias_fails_expansion() {
    let app = Application::new(
        "git".to_string(),
        vec![("a".to_string(), concrete(vec![install("git")]))],
    )
    .unwrap();
    let mut schema = Schema::new(
        vec![
            ("a".to_string(), PlatformConfig::SameWith { same_with: "b".to_string() }),
            ("b".to_string(), PlatformConfig::SameWith { same_with: "a".to_string() }),
        ],
        vec![app],
    )
    .unwrap();
    assert_eq!(schema.expand(), Err(ExpansionError::PlatformConfigNotFound));
}

#[test]
fn recipe_without_package_install_needs_no_template() {
    let app = Application::new(
        "curl".to_string(),
        vec![("mac".to_string(), concrete(vec![command("curl", None, &["--version"])]))],
    )
    .unwrap();
    let mut schema = Schema::new(vec![], vec![app]).unwrap();
    assert_eq!(schema.expand(), Ok(()));
    let ops = operations_of(&schema, 0, "mac");
    assert_eq!(literal_args(&ops[0]), vec!["--version"]);
}

#[test]
fn find_expandee_lists_positions_in_order() {
    let recipe = ConcreteRecipe {
        skip_if: None,
        operations: vec![install("a"), command("x", None, &[]), install("b")],
    };
    let found = recipe.find_expandee();
    assert_eq!(found, vec![(0, "a".to_string()), (2, "b".to_string())]);
}

#[test]
fn duplicate_keys_are_refused() {
    assert!(Application::new(
        "x".to_string(),
        vec![
            ("linux".to_string(), concrete(vec![])),
            ("linux".to_string(), concrete(vec![])),
        ],
    )
    .is_none());
    assert!(Schema::new(
        vec![("linux".to_string(), apt_config()), ("linux".to_string(), apt_config())],
        vec![],
    )
    .is_none());
}
