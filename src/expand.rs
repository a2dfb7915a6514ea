//! Package-install expansion: every `PackageInstall` step of a concrete
//! recipe is replaced, in place, by its platform's package-install template
//! with the package name substituted for the `${package}` placeholder.
use vstd::prelude::*;

use crate::alias::{lemma_found, resolution, resolve_alias, Resolution};
use crate::schema::{
    entries_view, lemma_config_graph, operations_view, config_graph, Application, ApplicationView,
    Argument, ArgumentView, CommandConfig, CommandView, ConcretePlatformConfig, ConcreteRecipe,
    Operation, OperationView, PlatformConfig, PlatformConfigView, PlatformRecipeView,
    PlatformSpecificRecipe, RecipeView, Schema, SchemaView, arguments_view, keys_distinct,
};

verus! {

/// The literal argument that stands for the package's name in a template.
pub open spec fn package_placeholder() -> Seq<char> {
    "${package}"@
}

/// Why expansion failed.
#[derive(Debug, PartialEq, Eq, Structural)]
pub enum ExpansionError {
    /// A recipe installs a package on a platform whose package-install
    /// template cannot be resolved (missing or cyclic alias chain).
    PlatformConfigNotFound,
}

// ---------------------------------------------------------------------------
// Specification
// ---------------------------------------------------------------------------

/// An argument with the placeholder replaced; only an exact literal match is replaced.
pub open spec fn substitute_argument(a: ArgumentView, package: Seq<char>) -> ArgumentView {
    match a {
        ArgumentView::Literal(s) => if s == package_placeholder() {
            ArgumentView::Literal(package)
        } else {
            a
        },
        ArgumentView::Path(_) => a,
    }
}

pub open spec fn substitute_arguments(args: Seq<ArgumentView>, package: Seq<char>) -> Seq<
    ArgumentView,
> {
    args.map_values(|a: ArgumentView| substitute_argument(a, package))
}

/// A template operation for one package: the arguments of a command are substituted.
pub open spec fn instantiate_operation(op: OperationView, package: Seq<char>) -> OperationView {
    match op {
        OperationView::Command(c) => OperationView::Command(
            CommandView {
                command: c.command,
                as_root: c.as_root,
                args: match c.args {
                    Some(a) => Some(substitute_arguments(a, package)),
                    None => None,
                },
            },
        ),
        _ => op,
    }
}

pub open spec fn instantiate_template(template: Seq<OperationView>, package: Seq<char>) -> Seq<
    OperationView,
> {
    template.map_values(|op: OperationView| instantiate_operation(op, package))
}

/// What one operation becomes: a package install becomes the instantiated
/// template, anything else stays as it is.
pub open spec fn expand_operation(op: OperationView, template: Seq<OperationView>) -> Seq<
    OperationView,
> {
    match op {
        OperationView::PackageInstall { package_name } => instantiate_template(
            template,
            package_name,
        ),
        _ => seq![op],
    }
}

/// The operations with each one replaced, in order, by what it becomes.
pub open spec fn expanded_operations(ops: Seq<OperationView>, template: Seq<OperationView>) -> Seq<
    OperationView,
>
    decreases ops.len(),
{
    if ops.len() == 0 {
        seq![]
    } else {
        expanded_operations(ops.drop_last(), template) + expand_operation(ops.last(), template)
    }
}

pub open spec fn has_package_install(ops: Seq<OperationView>) -> bool {
    exists|i: int| 0 <= i < ops.len() && ops[i] is PackageInstall
}

/// The positions and package names of the package installs, in order.
pub open spec fn package_positions(ops: Seq<OperationView>) -> Seq<(int, Seq<char>)>
    decreases ops.len(),
{
    if ops.len() == 0 {
        seq![]
    } else {
        package_positions(ops.drop_last()) + match ops.last() {
            OperationView::PackageInstall { package_name } => seq![
                ((ops.len() - 1) as int, package_name),
            ],
            _ => seq![],
        }
    }
}

/// The package-install template that the alias chain from `platform` ends at.
pub open spec fn platform_template(
    config: Seq<(Seq<char>, PlatformConfigView)>,
    platform: Seq<char>,
) -> Option<Seq<OperationView>> {
    match resolution(config_graph(config), platform) {
        Resolution::Found(i) => match config[i].1 {
            PlatformConfigView::Concrete(t) => Some(t),
            PlatformConfigView::SameWith(_) => None,
        },
        _ => None,
    }
}

/// The expansion of the recipe stored under `platform`; `None` when it
/// installs packages and the platform has no resolvable template.
pub open spec fn expand_recipe(
    config: Seq<(Seq<char>, PlatformConfigView)>,
    platform: Seq<char>,
    recipe: PlatformRecipeView,
) -> Option<PlatformRecipeView> {
    match recipe {
        PlatformRecipeView::SameWith(_) => Some(recipe),
        PlatformRecipeView::Concrete(c) => if !has_package_install(c.operations) {
            Some(recipe)
        } else {
            match platform_template(config, platform) {
                Some(t) => Some(
                    PlatformRecipeView::Concrete(
                        RecipeView {
                            skip_if: c.skip_if,
                            operations: expanded_operations(c.operations, t),
                        },
                    ),
                ),
                None => None,
            }
        },
    }
}

pub open spec fn application_expands(
    config: Seq<(Seq<char>, PlatformConfigView)>,
    app: ApplicationView,
) -> bool {
    forall|i: int|
        0 <= i < app.recipe.len() ==> (#[trigger] expand_recipe(
            config,
            app.recipe[i].0,
            app.recipe[i].1,
        )) is Some
}

pub open spec fn expanded_entry(
    config: Seq<(Seq<char>, PlatformConfigView)>,
    entry: (Seq<char>, PlatformRecipeView),
) -> (Seq<char>, PlatformRecipeView) {
    match expand_recipe(config, entry.0, entry.1) {
        Some(r) => (entry.0, r),
        None => entry,
    }
}

pub open spec fn expanded_application(
    config: Seq<(Seq<char>, PlatformConfigView)>,
    app: ApplicationView,
) -> ApplicationView {
    ApplicationView {
        name: app.name,
        recipe: app.recipe.map_values(
            |e: (Seq<char>, PlatformRecipeView)| expanded_entry(config, e),
        ),
    }
}

/// Every recipe of every application can be expanded.
pub open spec fn schema_expands(s: SchemaView) -> bool {
    forall|i: int|
        0 <= i < s.application.len() ==> application_expands(
            s.platform_config,
            #[trigger] s.application[i],
        )
}

pub open spec fn expanded_schema(s: SchemaView) -> SchemaView {
    SchemaView {
        platform_config: s.platform_config,
        application: s.application.map_values(
            |a: ApplicationView| expanded_application(s.platform_config, a),
        ),
    }
}

// ---------------------------------------------------------------------------
// Laws
// ---------------------------------------------------------------------------

/// Expanding a concatenation expands each part.
pub proof fn lemma_expansion_concat(a: Seq<OperationView>, b: Seq<OperationView>, template: Seq<OperationView>)
    ensures
        expanded_operations(a + b, template) == expanded_operations(a, template) + expanded_operations(b, template),
    decreases b.len(),
{
    if b.len() == 0 {
        assert(a + b == a);
        assert(expanded_operations(a, template) + Seq::empty() == expanded_operations(a, template));
    } else {
        lemma_expansion_concat(a, b.drop_last(), template);
        assert((a + b).drop_last() == a + b.drop_last());
        assert((a + b).last() == b.last());
    }
}

/// Expansion is a local substitution that keeps the order of operations:
/// the expansion of `ops` is the expansion of the operations before any
/// position, then what the operation at that position becomes, then the
/// expansion of the operations after it. An operation other than a package
/// install becomes itself; a package install becomes the template for its
/// package.
pub proof fn lemma_expansion_in_place(ops: Seq<OperationView>, template: Seq<OperationView>, i: int)
    requires
        0 <= i < ops.len(),
    ensures
        expanded_operations(ops, template) == expanded_operations(ops.take(i), template)
            + expand_operation(ops[i], template) + expanded_operations(ops.skip(i + 1), template),
        !(ops[i] is PackageInstall) ==> expand_operation(ops[i], template) == seq![ops[i]],
        ops[i] matches OperationView::PackageInstall { package_name } ==> expand_operation(
            ops[i],
            template,
        ) == instantiate_template(template, package_name),
{
    assert(ops == ops.take(i) + seq![ops[i]] + ops.skip(i + 1));
    lemma_expansion_concat(ops.take(i) + seq![ops[i]], ops.skip(i + 1), template);
    lemma_expansion_concat(ops.take(i), seq![ops[i]], template);
    let single = seq![ops[i]];
    assert(single.drop_last() =~= Seq::<OperationView>::empty());
    assert(expanded_operations(single.drop_last(), template) =~= Seq::<OperationView>::empty());
    assert(expanded_operations(single, template) =~= expand_operation(ops[i], template));
}

/// Only an argument that is exactly the placeholder literal is replaced, by
/// the package name; any other literal (one that merely contains the
/// placeholder, say) and every path stay as they are.
pub proof fn lemma_substitution_exact(a: ArgumentView, package: Seq<char>)
    ensures
        a == ArgumentView::Literal(package_placeholder()) ==> substitute_argument(a, package)
            == ArgumentView::Literal(package),
        a != ArgumentView::Literal(package_placeholder()) ==> substitute_argument(a, package) == a,
{
}

// ---------------------------------------------------------------------------
// Implementation
// ---------------------------------------------------------------------------

fn substitute_package(args: &Vec<Argument>, package_name: &String) -> (r: Vec<Argument>)
    ensures
        arguments_view(r@) == substitute_arguments(arguments_view(args@), package_name@),
{
    let placeholder = String::from_str("${package}");
    let mut new_args: Vec<Argument> = Vec::new();
    let mut i: usize = 0;
    while i < args.len()
        invariant
            i <= args.len(),
            placeholder@ == package_placeholder(),
            new_args.len() == i,
            forall|j: int|
                0 <= j < i ==> (#[trigger] new_args@[j])@ == substitute_argument(
                    args@[j]@,
                    package_name@,
                ),
        decreases args.len() - i,
    {
        let new_arg = match &args[i] {
            Argument::String(s) => if *s == placeholder {
                Argument::String(package_name.clone())
            } else {
                Argument::String(s.clone())
            },
            Argument::Path { path } => Argument::Path { path: path.clone() },
        };
        new_args.push(new_arg);
        i += 1;
    }
    assert(arguments_view(new_args@) =~= substitute_arguments(
        arguments_view(args@),
        package_name@,
    ));
    new_args
}

impl ConcretePlatformConfig {
    /// The template's operations for `package_name`.
    pub fn construct_package_install_operations(&self, package_name: &String) -> (r: Vec<
        Operation,
    >)
        ensures
            operations_view(r@) == instantiate_template(self@, package_name@),
    {
        let mut operations: Vec<Operation> = Vec::new();
        let mut i: usize = 0;
        while i < self.package_install.len()
            invariant
                i <= self.package_install.len(),
                operations.len() == i,
                forall|j: int|
                    0 <= j < i ==> (#[trigger] operations@[j])@ == instantiate_operation(
                        self.package_install@[j]@,
                        package_name@,
                    ),
            decreases self.package_install.len() - i,
        {
            let operation = match &self.package_install[i] {
                Operation::Command(c) => {
                    let args = match &c.args {
                        Some(a) => Some(substitute_package(a, package_name)),
                        None => None,
                    };
                    Operation::Command(
                        CommandConfig { command: c.command.clone(), as_root: c.as_root, args },
                    )
                },
                other => other.clone(),
            };
            operations.push(operation);
            i += 1;
        }
        assert(operations_view(operations@) =~= instantiate_template(self@, package_name@));
        operations
    }
}

proof fn lemma_positions_empty(ops: Seq<OperationView>)
    ensures
        package_positions(ops).len() == 0 <==> !has_package_install(ops),
    decreases ops.len(),
{
    if ops.len() > 0 {
        lemma_positions_empty(ops.drop_last());
        if has_package_install(ops.drop_last()) {
            let i = choose|i: int|
                0 <= i < ops.drop_last().len() && ops.drop_last()[i] is PackageInstall;
            assert(ops[i] is PackageInstall);
        }
        if has_package_install(ops) && !(ops.last() is PackageInstall) {
            let i = choose|i: int| 0 <= i < ops.len() && ops[i] is PackageInstall;
            assert(ops.drop_last()[i] is PackageInstall);
        }
    }
}

impl ConcreteRecipe {
    /// The positions and package names of the package installs, in order.
    pub fn find_expandee(&self) -> (r: Vec<(usize, String)>)
        ensures
            r@.map_values(|p: (usize, String)| (p.0 as int, p.1@)) == package_positions(
                operations_view(self.operations@),
            ),
    {
        let ghost ops = operations_view(self.operations@);
        let mut expandee: Vec<(usize, String)> = Vec::new();
        let mut i: usize = 0;
        while i < self.operations.len()
            invariant
                ops == operations_view(self.operations@),
                i <= self.operations.len(),
                expandee@.map_values(|p: (usize, String)| (p.0 as int, p.1@)) == package_positions(
                    ops.take(i as int),
                ),
            decreases self.operations.len() - i,
        {
            let ghost before = expandee@;
            assert(ops.take(i + 1).drop_last() == ops.take(i as int));
            if let Operation::PackageInstall { package_name } = &self.operations[i] {
                expandee.push((i, package_name.clone()));
                assert(expandee@.map_values(|p: (usize, String)| (p.0 as int, p.1@)) =~= before.map_values(
                    |p: (usize, String)| (p.0 as int, p.1@),
                ).push((i as int, package_name@)));
            }
            i += 1;
        }
        assert(ops.take(self.operations.len() as int) == ops);
        expandee
    }
}

/// The operations with every package install replaced by `template`'s
/// operations for that package.
fn expand_package_installs(ops: &Vec<Operation>, template: &ConcretePlatformConfig) -> (r: Vec<
    Operation,
>)
    ensures
        operations_view(r@) == expanded_operations(operations_view(ops@), template@),
{
    let ghost v = operations_view(ops@);
    let mut expanded: Vec<Operation> = Vec::new();
    let mut i: usize = 0;
    while i < ops.len()
        invariant
            v == operations_view(ops@),
            i <= ops.len(),
            operations_view(expanded@) == expanded_operations(v.take(i as int), template@),
        decreases ops.len() - i,
    {
        let ghost before = expanded@;
        assert(v.take(i + 1).drop_last() == v.take(i as int));
        assert(v.take(i + 1).last() == ops@[i as int]@);
        match &ops[i] {
            Operation::PackageInstall { package_name } => {
                let mut operations = template.construct_package_install_operations(package_name);
                expanded.append(&mut operations);
                assert(operations_view(expanded@) =~= operations_view(before) + instantiate_template(
                    template@,
                    package_name@,
                ));
            },
            other => {
                expanded.push(other.clone());
                assert(operations_view(expanded@) =~= operations_view(before) + seq![ops@[i as int]@]);
            },
        }
        i += 1;
    }
    assert(v.take(ops.len() as int) == v);
    expanded
}

impl Schema {
    /// The package-install template that the alias chain from `platform`
    /// ends at; `None` when the chain is cyclic or reaches a missing platform.
    fn resolve_platform_config<'a>(
        platform_config: &'a Vec<(String, PlatformConfig)>,
        platform: &String,
    ) -> (r: Option<&'a ConcretePlatformConfig>)
        ensures
            match platform_template(entries_view(platform_config@), platform@) {
                Some(t) => r matches Some(c) && c@ == t,
                None => r is None,
            },
    {
        let ghost config = entries_view(platform_config@);
        proof {
            lemma_config_graph(platform_config@);
            lemma_found(config_graph(config), platform@);
        }
        match resolve_alias(platform_config, platform) {
            Ok(Some(i)) => match &platform_config[i].1 {
                PlatformConfig::ConcretePlatformConfig(c) => Some(c),
                PlatformConfig::SameWith { .. } => None,
            },
            _ => None,
        }
    }
}

fn expand_platform_recipe(
    platform_config: &Vec<(String, PlatformConfig)>,
    platform: &String,
    recipe: &PlatformSpecificRecipe,
) -> (r: Result<PlatformSpecificRecipe, ExpansionError>)
    ensures
        match expand_recipe(entries_view(platform_config@), platform@, recipe@) {
            Some(e) => r matches Ok(n) && n@ == e,
            None => r == Err::<PlatformSpecificRecipe, ExpansionError>(
                ExpansionError::PlatformConfigNotFound,
            ),
        },
{
    match recipe {
        PlatformSpecificRecipe::SameWith { .. } => Ok(recipe.clone()),
        PlatformSpecificRecipe::ConcreteRecipe(concrete_recipe) => {
            let expandee = concrete_recipe.find_expandee();
            proof {
                lemma_positions_empty(operations_view(concrete_recipe.operations@));
            }
            if expandee.len() == 0 {
                return Ok(recipe.clone());
            }
            match Schema::resolve_platform_config(platform_config, platform) {
                None => Err(ExpansionError::PlatformConfigNotFound),
                Some(template) => {
                    let skip_if = match &concrete_recipe.skip_if {
                        Some(c) => Some(c.clone()),
                        None => None,
                    };
                    let operations = expand_package_installs(&concrete_recipe.operations, template);
                    Ok(
                        PlatformSpecificRecipe::ConcreteRecipe(
                            ConcreteRecipe { skip_if, operations },
                        ),
                    )
                },
            }
        },
    }
}

fn expand_application(platform_config: &Vec<(String, PlatformConfig)>, app: &Application) -> (r:
    Result<Application, ExpansionError>)
    ensures
        application_expands(entries_view(platform_config@), app@) <==> r is Ok,
        r matches Ok(a) ==> a@ == expanded_application(entries_view(platform_config@), app@),
        r is Err ==> r == Err::<Application, ExpansionError>(ExpansionError::PlatformConfigNotFound),
{
    let ghost config = entries_view(platform_config@);
    proof {
        use_type_invariant(app);
    }
    let mut recipe: Vec<(String, PlatformSpecificRecipe)> = Vec::new();
    let mut i: usize = 0;
    while i < app.recipe.len()
        invariant
            config == entries_view(platform_config@),
            keys_distinct(app.recipe@),
            i <= app.recipe.len(),
            recipe.len() == i,
            forall|j: int|
                0 <= j < i ==> expand_recipe(config, app@.recipe[j].0, app@.recipe[j].1) is Some,
            forall|j: int|
                0 <= j < i ==> ((#[trigger] recipe@[j]).0@, recipe@[j].1@) == expanded_entry(
                    config,
                    app@.recipe[j],
                ),
            forall|j: int| 0 <= j < i ==> (#[trigger] recipe@[j]).0@ == app.recipe@[j].0@,
        decreases app.recipe.len() - i,
    {
        let entry = &app.recipe[i];
        assert(app@.recipe[i as int] == (entry.0@, entry.1@));
        match expand_platform_recipe(platform_config, &entry.0, &entry.1) {
            Err(e) => {
                assert(!application_expands(config, app@)) by {
                    assert(expand_recipe(config, app@.recipe[i as int].0, app@.recipe[i as int].1) is None);
                }
                return Err(e);
            },
            Ok(expanded) => {
                recipe.push((entry.0.clone(), expanded));
            },
        }
        i += 1;
    }
    assert(entries_view(recipe@) =~= expanded_application(config, app@).recipe);
    assert(keys_distinct(recipe@)) by {
        assert forall|a: int, b: int|
            0 <= a < recipe.len() && 0 <= b < recipe.len() && a != b implies (#[trigger] recipe@[a]).0@
                != (#[trigger] recipe@[b]).0@ by {
            assert(app.recipe@[a].0@ != app.recipe@[b].0@);
        }
    }
    Ok(Application { name: app.name.clone(), recipe })
}

impl Schema {
    /// Replaces every package install of every concrete recipe by its
    /// platform's template for that package. Fails, leaving the
    /// configuration unchanged, when some recipe installs a package on a
    /// platform without a resolvable template.
    pub fn expand(&mut self) -> (r: Result<(), ExpansionError>)
        ensures
            r is Ok <==> schema_expands(old(self)@),
            r is Ok ==> final(self)@ == expanded_schema(old(self)@),
            r is Err ==> final(self)@ == old(self)@ && r == Err::<(), ExpansionError>(
                ExpansionError::PlatformConfigNotFound,
            ),
    {
        let ghost s = self@;
        let mut application: Vec<Application> = Vec::new();
        let mut i: usize = 0;
        while i < self.application.len()
            invariant
                s == self@,
                i <= self.application.len(),
                application.len() == i,
                forall|j: int|
                    0 <= j < i ==> application_expands(s.platform_config, #[trigger] s.application[j]),
                forall|j: int|
                    0 <= j < i ==> (#[trigger] application@[j])@ == expanded_application(
                        s.platform_config,
                        s.application[j],
                    ),
            decreases self.application.len() - i,
        {
            assert(s.application[i as int] == self.application@[i as int]@);
            match expand_application(&self.platform_config, &self.application[i]) {
                Err(e) => {
                    return Err(e);
                },
                Ok(a) => {
                    application.push(a);
                },
            }
            i += 1;
        }
        self.replace_application(application);
        assert(self@.application =~= expanded_schema(s).application);
        Ok(())
    }
}

} // verus!
