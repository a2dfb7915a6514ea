use bootstrapper::alias::CycleDetected;
use bootstrapper::schema::{
    Application, Argument, CommandConfig, ConcreteRecipe, Operation, PlatformSpecificRecipe, Schema,
};

fn concrete(marker: &str) -> PlatformSpecificRecipe {
    PlatformSpecificRecipe::ConcreteRecipe(ConcreteRecipe {
        skip_if: None,
        operations: vec![Operation::Command(CommandConfig {
            command: Argument::String(marker.to_string()),
            as_root: None,
            args: None,
        })],
    })
}

fn alias(target: &str) -> PlatformSpecificRecipe {
    PlatformSpecificRecipe::SameWith { same_with: target.to_string() }
}

fn marker_of(recipe: &ConcreteRecipe) -> String {
    match &recipe.operations[0] {
        Operation::Command(c) => match &c.command {
            Argument::String(s) => s.clone(),
            _ => panic!(),
        },
        _ => panic!(),
    }
}

fn app(entries: Vec<(&str, PlatformSpecificRecipe)>) -> Application {
    Application::new(
        "app".to_string(),
        entries.into_iter().map(|(k, v)| (k.to_string(), v)).collect(),
    )
    .unwrap()
}

#[test]
fn direct_recipe_resolves() {
    let a = app(vec![("linux", concrete("L")), ("mac", concrete("M"))]);
    let r = a.resolve_recipe(&"mac".to_string()).unwrap().unwrap();
    assert_eq!(marker_of(r), "M");
}

#[test]
fn alias_chain_resolves_to_concrete_end() {
    let a = app(vec![
        ("ubuntu", alias("debian")),
        ("debian", alias("linux")),
        ("linux", concrete("L")),
    ]);
    let r = a.resolve_recipe(&"ubuntu".to_string()).unwrap().unwrap();
    assert_eq!(marker_of(r), "L");
}

#[test]
fn missing_platform_is_absent() {
    let a = app(vec![("linux", concrete("L"))]);
    assert!(matches!(a.resolve_recipe(&"windows".to_string()), Ok(None)));
}

#[test]
fn alias_to_missing_platform_is_absent() {
    let a = app(vec![("ubuntu", alias("linux"))]);
    assert!(matches!(a.resolve_recipe(&"ubuntu".to_string()), Ok(None)));
}

#[test]
fn self_alias_is_a_cycle() {
    let a = app(vec![("linux", alias("linux"))]);
    assert!(matches!(a.resolve_recipe(&"linux".to_string()), Err(CycleDetected)));
}

#[test]
fn mutual_alias_is_a_cycle() {
    let a = app(vec![("a", alias("b")), ("b", alias("c")), ("c", alias("a")), ("d", concrete("D"))]);
    assert!(matches!(a.resolve_recipe(&"a".to_string()), Err(CycleDetected)));
    assert!(matches!(a.resolve_recipe(&"b".to_string()), Err(CycleDetected)));
    let r = a.resolve_recipe(&"d".to_string()).unwrap().unwrap();
    assert_eq!(marker_of(r), "D");
}

#[test]
fn chain_into_a_cycle_is_a_cycle() {
    let a = app(vec![("start", alias("x")), ("x", alias("y")), ("y", alias("x"))]);
    assert!(matches!(a.resolve_recipe(&"start".to_string()), Err(CycleDetected)));
}

#[test]
fn check_recipes_reports_cycles_before_running() {
    let good = app(vec![("linux", concrete("L"))]);
    let bad = app(vec![("linux", alias("linux"))]);
    let schema = Schema::new(vec![], vec![good]).unwrap();
    assert_eq!(schema.check_recipes(&"linux".to_string()), Ok(()));
    let schema = Schema::new(vec![], vec![app(vec![("linux", concrete("L"))]), bad]).unwrap();
    assert_eq!(schema.check_recipes(&"linux".to_string()), Err(CycleDetected));
    assert_eq!(schema.check_recipes(&"mac".to_string()), Ok(()));
}

#[test]
fn application_name_is_kept() {
    let a = Application::new("gitconfig".to_string(), vec![]).unwrap();
    assert_eq!(a.name(), "gitconfig");
}
