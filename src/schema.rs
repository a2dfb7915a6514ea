//! The configuration model: applications, their per-platform recipes, and the
//! global per-platform package-install templates.
use vstd::prelude::*;

use crate::alias::{graph_of, lemma_found, resolution, resolve_alias, AliasEntry, AliasGraph, CycleDetected, Resolution};

verus! {

/// A filesystem path as written in a recipe; a leading `~/` stands for the home directory.
pub struct PathStr(pub String);

/// A value handed to a command: a path (subject to home-directory expansion) or a literal.
pub enum Argument {
    Path { path: PathStr },
    String(String),
}

/// One step of a recipe.
pub enum Operation {
    Command(CommandConfig),
    Link { original: PathStr, link: PathStr },
    PackageInstall { package_name: String },
}

/// A command to run, optionally with elevated privileges.
pub struct CommandConfig {
    pub command: Argument,
    pub as_root: Option<bool>,
    pub args: Option<Vec<Argument>>,
}

/// The steps that install an application on one platform.
pub struct ConcreteRecipe {
    pub skip_if: Option<CommandConfig>,
    pub operations: Vec<Operation>,
}

/// A recipe entry: concrete, or deferring to the entry of another platform.
pub enum PlatformSpecificRecipe {
    SameWith { same_with: String },
    ConcreteRecipe(ConcreteRecipe),
}

/// The operations that install a package on one platform; a literal argument
/// `${package}` stands for the package's name.
pub struct ConcretePlatformConfig {
    pub package_install: Vec<Operation>,
}

/// A platform configuration entry: concrete, or deferring to another platform's entry.
pub enum PlatformConfig {
    SameWith { same_with: String },
    ConcretePlatformConfig(ConcretePlatformConfig),
}

/// An application with its recipes keyed by platform id (keys are distinct).
pub struct Application {
    pub(crate) name: String,
    pub(crate) recipe: Vec<(String, PlatformSpecificRecipe)>,
}

/// The whole configuration: package-install templates keyed by platform id
/// (keys are distinct) and the applications in declared order.
pub struct Schema {
    pub(crate) platform_config: Vec<(String, PlatformConfig)>,
    pub(crate) application: Vec<Application>,
}

// ---------------------------------------------------------------------------
// Mathematical models
// ---------------------------------------------------------------------------

pub enum ArgumentView {
    Path(Seq<char>),
    Literal(Seq<char>),
}

pub struct CommandView {
    pub command: ArgumentView,
    pub as_root: Option<bool>,
    pub args: Option<Seq<ArgumentView>>,
}

pub enum OperationView {
    Command(CommandView),
    Link { original: Seq<char>, link: Seq<char> },
    PackageInstall { package_name: Seq<char> },
}

pub struct RecipeView {
    pub skip_if: Option<CommandView>,
    pub operations: Seq<OperationView>,
}

pub enum PlatformRecipeView {
    SameWith(Seq<char>),
    Concrete(RecipeView),
}

pub enum PlatformConfigView {
    SameWith(Seq<char>),
    Concrete(Seq<OperationView>),
}

pub struct ApplicationView {
    pub name: Seq<char>,
    pub recipe: Seq<(Seq<char>, PlatformRecipeView)>,
}

pub struct SchemaView {
    pub platform_config: Seq<(Seq<char>, PlatformConfigView)>,
    pub application: Seq<ApplicationView>,
}

impl View for PathStr {
    type V = Seq<char>;

    open spec fn view(&self) -> Seq<char> {
        self.0@
    }
}

impl View for Argument {
    type V = ArgumentView;

    open spec fn view(&self) -> ArgumentView {
        match self {
            Argument::Path { path } => ArgumentView::Path(path@),
            Argument::String(s) => ArgumentView::Literal(s@),
        }
    }
}

pub open spec fn arguments_view(args: Seq<Argument>) -> Seq<ArgumentView> {
    args.map_values(|a: Argument| a@)
}

impl View for CommandConfig {
    type V = CommandView;

    open spec fn view(&self) -> CommandView {
        CommandView {
            command: self.command@,
            as_root: self.as_root,
            args: match self.args {
                Some(a) => Some(arguments_view(a@)),
                None => None,
            },
        }
    }
}

impl CommandConfig {
    /// Whether the command runs elevated; an absent flag means `false`.
    pub open spec fn runs_as_root(self) -> bool {
        self.as_root == Some(true)
    }

    pub fn is_elevated(&self) -> (r: bool)
        ensures
            r == self.runs_as_root(),
    {
        match self.as_root {
            Some(b) => b,
            None => false,
        }
    }
}

impl View for Operation {
    type V = OperationView;

    open spec fn view(&self) -> OperationView {
        match self {
            Operation::Command(c) => OperationView::Command(c@),
            Operation::Link { original, link } => OperationView::Link {
                original: original@,
                link: link@,
            },
            Operation::PackageInstall { package_name } => OperationView::PackageInstall {
                package_name: package_name@,
            },
        }
    }
}

pub open spec fn operations_view(ops: Seq<Operation>) -> Seq<OperationView> {
    ops.map_values(|o: Operation| o@)
}

impl View for ConcreteRecipe {
    type V = RecipeView;

    open spec fn view(&self) -> RecipeView {
        RecipeView {
            skip_if: match self.skip_if {
                Some(c) => Some(c@),
                None => None,
            },
            operations: operations_view(self.operations@),
        }
    }
}

impl View for PlatformSpecificRecipe {
    type V = PlatformRecipeView;

    open spec fn view(&self) -> PlatformRecipeView {
        match self {
            PlatformSpecificRecipe::SameWith { same_with } => PlatformRecipeView::SameWith(
                same_with@,
            ),
            PlatformSpecificRecipe::ConcreteRecipe(c) => PlatformRecipeView::Concrete(c@),
        }
    }
}

impl View for ConcretePlatformConfig {
    type V = Seq<OperationView>;

    open spec fn view(&self) -> Seq<OperationView> {
        operations_view(self.package_install@)
    }
}

impl View for PlatformConfig {
    type V = PlatformConfigView;

    open spec fn view(&self) -> PlatformConfigView {
        match self {
            PlatformConfig::SameWith { same_with } => PlatformConfigView::SameWith(same_with@),
            PlatformConfig::ConcretePlatformConfig(c) => PlatformConfigView::Concrete(c@),
        }
    }
}

pub open spec fn entries_view<E: View>(entries: Seq<(String, E)>) -> Seq<(Seq<char>, E::V)> {
    entries.map_values(|p: (String, E)| (p.0@, p.1@))
}

/// No two entries share a key.
pub open spec fn keys_distinct<E>(entries: Seq<(String, E)>) -> bool {
    forall|i: int, j: int|
        0 <= i < entries.len() && 0 <= j < entries.len() && i != j ==> (#[trigger] entries[i]).0@
            != (#[trigger] entries[j]).0@
}

impl View for Application {
    type V = ApplicationView;

    open(crate) spec fn view(&self) -> ApplicationView {
        ApplicationView { name: self.name@, recipe: entries_view(self.recipe@) }
    }
}

impl View for Schema {
    type V = SchemaView;

    open(crate) spec fn view(&self) -> SchemaView {
        SchemaView {
            platform_config: entries_view(self.platform_config@),
            application: self.application@.map_values(|a: Application| a@),
        }
    }
}

// ---------------------------------------------------------------------------
// Alias structure
// ---------------------------------------------------------------------------

impl PlatformRecipeView {
    pub open spec fn alias_target(self) -> Option<Seq<char>> {
        match self {
            PlatformRecipeView::SameWith(t) => Some(t),
            PlatformRecipeView::Concrete(_) => None,
        }
    }
}

impl PlatformConfigView {
    pub open spec fn alias_target(self) -> Option<Seq<char>> {
        match self {
            PlatformConfigView::SameWith(t) => Some(t),
            PlatformConfigView::Concrete(_) => None,
        }
    }
}

/// The alias structure of an application's recipe table.
pub open spec fn recipe_graph(recipe: Seq<(Seq<char>, PlatformRecipeView)>) -> AliasGraph {
    recipe.map_values(|e: (Seq<char>, PlatformRecipeView)| (e.0, e.1.alias_target()))
}

/// The alias structure of the platform configuration table.
pub open spec fn config_graph(config: Seq<(Seq<char>, PlatformConfigView)>) -> AliasGraph {
    config.map_values(|e: (Seq<char>, PlatformConfigView)| (e.0, e.1.alias_target()))
}

impl AliasEntry for PlatformSpecificRecipe {
    open spec fn alias_target(&self) -> Option<Seq<char>> {
        self@.alias_target()
    }

    fn same_with(&self) -> (r: Option<&String>) {
        match self {
            PlatformSpecificRecipe::SameWith { same_with } => Some(same_with),
            PlatformSpecificRecipe::ConcreteRecipe(_) => None,
        }
    }
}

impl AliasEntry for PlatformConfig {
    open spec fn alias_target(&self) -> Option<Seq<char>> {
        self@.alias_target()
    }

    fn same_with(&self) -> (r: Option<&String>) {
        match self {
            PlatformConfig::SameWith { same_with } => Some(same_with),
            PlatformConfig::ConcretePlatformConfig(_) => None,
        }
    }
}

pub proof fn lemma_recipe_graph(entries: Seq<(String, PlatformSpecificRecipe)>)
    ensures
        graph_of(entries) == recipe_graph(entries_view(entries)),
{
    assert(graph_of(entries) =~= recipe_graph(entries_view(entries)));
}

pub proof fn lemma_config_graph(entries: Seq<(String, PlatformConfig)>)
    ensures
        graph_of(entries) == config_graph(entries_view(entries)),
{
    assert(graph_of(entries) =~= config_graph(entries_view(entries)));
}

// ---------------------------------------------------------------------------
// Copies
// ---------------------------------------------------------------------------

impl Clone for PathStr {
    fn clone(&self) -> (r: Self)
        ensures
            r@ == self@,
    {
        PathStr(self.0.clone())
    }
}

impl Clone for Argument {
    fn clone(&self) -> (r: Self)
        ensures
            r@ == self@,
    {
        match self {
            Argument::Path { path } => Argument::Path { path: path.clone() },
            Argument::String(s) => Argument::String(s.clone()),
        }
    }
}

pub fn clone_arguments(args: &Vec<Argument>) -> (r: Vec<Argument>)
    ensures
        arguments_view(r@) == arguments_view(args@),
{
    let mut r: Vec<Argument> = Vec::new();
    let mut i: usize = 0;
    while i < args.len()
        invariant
            i <= args.len(),
            r.len() == i,
            forall|j: int| 0 <= j < i ==> (#[trigger] r@[j])@ == args@[j]@,
        decreases args.len() - i,
    {
        r.push(args[i].clone());
        i += 1;
    }
    assert(arguments_view(r@) =~= arguments_view(args@));
    r
}

impl Clone for CommandConfig {
    fn clone(&self) -> (r: Self)
        ensures
            r@ == self@,
    {
        let args = match &self.args {
            Some(a) => Some(clone_arguments(a)),
            None => None,
        };
        CommandConfig { command: self.command.clone(), as_root: self.as_root, args }
    }
}

impl Clone for Operation {
    fn clone(&self) -> (r: Self)
        ensures
            r@ == self@,
    {
        match self {
            Operation::Command(c) => Operation::Command(c.clone()),
            Operation::Link { original, link } => Operation::Link {
                original: original.clone(),
                link: link.clone(),
            },
            Operation::PackageInstall { package_name } => Operation::PackageInstall {
                package_name: package_name.clone(),
            },
        }
    }
}

pub fn clone_operations(ops: &Vec<Operation>) -> (r: Vec<Operation>)
    ensures
        operations_view(r@) == operations_view(ops@),
{
    let mut r: Vec<Operation> = Vec::new();
    let mut i: usize = 0;
    while i < ops.len()
        invariant
            i <= ops.len(),
            r.len() == i,
            forall|j: int| 0 <= j < i ==> (#[trigger] r@[j])@ == ops@[j]@,
        decreases ops.len() - i,
    {
        r.push(ops[i].clone());
        i += 1;
    }
    assert(operations_view(r@) =~= operations_view(ops@));
    r
}

impl Clone for ConcreteRecipe {
    fn clone(&self) -> (r: Self)
        ensures
            r@ == self@,
    {
        let skip_if = match &self.skip_if {
            Some(c) => Some(c.clone()),
            None => None,
        };
        ConcreteRecipe { skip_if, operations: clone_operations(&self.operations) }
    }
}

impl Clone for PlatformSpecificRecipe {
    fn clone(&self) -> (r: Self)
        ensures
            r@ == self@,
    {
        match self {
            PlatformSpecificRecipe::SameWith { same_with } => PlatformSpecificRecipe::SameWith {
                same_with: same_with.clone(),
            },
            PlatformSpecificRecipe::ConcreteRecipe(c) => PlatformSpecificRecipe::ConcreteRecipe(
                c.clone(),
            ),
        }
    }
}

impl Clone for ConcretePlatformConfig {
    fn clone(&self) -> (r: Self)
        ensures
            r@ == self@,
    {
        ConcretePlatformConfig { package_install: clone_operations(&self.package_install) }
    }
}

impl Clone for PlatformConfig {
    fn clone(&self) -> (r: Self)
        ensures
            r@ == self@,
    {
        match self {
            PlatformConfig::SameWith { same_with } => PlatformConfig::SameWith {
                same_with: same_with.clone(),
            },
            PlatformConfig::ConcretePlatformConfig(c) => PlatformConfig::ConcretePlatformConfig(
                c.clone(),
            ),
        }
    }
}

// ---------------------------------------------------------------------------
// Keyed tables
// ---------------------------------------------------------------------------

/// Whether the keys of `entries` are pairwise distinct.
fn distinct_keys<E>(entries: &Vec<(String, E)>) -> (r: bool)
    ensures
        r == keys_distinct(entries@),
{
    let mut i: usize = 0;
    while i < entries.len()
        invariant
            i <= entries.len(),
            forall|a: int, b: int|
                0 <= a < i && 0 <= b < entries.len() && a != b ==> (#[trigger] entries@[a]).0@
                    != (#[trigger] entries@[b]).0@,
        decreases entries.len() - i,
    {
        let mut j: usize = 0;
        while j < entries.len()
            invariant
                i < entries.len(),
                j <= entries.len(),
                forall|a: int, b: int|
                    0 <= a < i && 0 <= b < entries.len() && a != b ==> (#[trigger] entries@[a]).0@
                        != (#[trigger] entries@[b]).0@,
                forall|b: int|
                    0 <= b < j && b != i ==> entries@[i as int].0@ != (#[trigger] entries@[b]).0@,
            decreases entries.len() - j,
        {
            if j != i && entries[i].0 == entries[j].0 {
                return false;
            }
            j += 1;
        }
        i += 1;
    }
    true
}

impl Application {
    #[verifier::type_invariant]
    pub(crate) open spec fn recipe_keys_distinct(self) -> bool {
        keys_distinct(self.recipe@)
    }

    /// An application with the given recipe table; `None` when two entries share a platform id.
    pub fn new(name: String, recipe: Vec<(String, PlatformSpecificRecipe)>) -> (r: Option<
        Application,
    >)
        ensures
            r is Some <==> keys_distinct(recipe@),
            r matches Some(a) ==> a@ == (ApplicationView {
                name: name@,
                recipe: entries_view(recipe@),
            }),
    {
        if distinct_keys(&recipe) {
            Some(Application { name, recipe })
        } else {
            None
        }
    }

    pub fn name(&self) -> (r: &String)
        ensures
            r@ == self@.name,
    {
        &self.name
    }

    pub fn recipe(&self) -> (r: &Vec<(String, PlatformSpecificRecipe)>)
        ensures
            entries_view(r@) == self@.recipe,
    {
        &self.recipe
    }

    /// The concrete recipe that the alias chain from `platform` ends at;
    /// `None` when the chain reaches a platform that has no entry; an error
    /// when the chain is cyclic.
    pub fn resolve_recipe(&self, platform: &String) -> (r: Result<
        Option<&ConcreteRecipe>,
        CycleDetected,
    >)
        ensures
            match resolution(recipe_graph(self@.recipe), platform@) {
                Resolution::Found(i) => r matches Ok(Some(c)) && self@.recipe[i].1
                    == PlatformRecipeView::Concrete(c@),
                Resolution::Missing => r matches Ok(None),
                Resolution::Cyclic => r is Err,
            },
    {
        proof {
            lemma_recipe_graph(self.recipe@);
            lemma_found(recipe_graph(self@.recipe), platform@);
        }
        match resolve_alias(&self.recipe, platform) {
            Err(e) => Err(e),
            Ok(None) => Ok(None),
            Ok(Some(i)) => {
                assert(recipe_graph(self@.recipe)[i as int].1 is None);
                match &self.recipe[i].1 {
                    PlatformSpecificRecipe::ConcreteRecipe(c) => Ok(Some(c)),
                    PlatformSpecificRecipe::SameWith { .. } => Ok(None),
                }
            },
        }
    }
}

impl Schema {
    #[verifier::type_invariant]
    pub(crate) open spec fn config_keys_distinct(self) -> bool {
        keys_distinct(self.platform_config@)
    }

    /// A configuration; `None` when two platform configuration entries share a platform id.
    pub fn new(platform_config: Vec<(String, PlatformConfig)>, application: Vec<Application>) -> (r:
        Option<Schema>)
        ensures
            r is Some <==> keys_distinct(platform_config@),
            r matches Some(s) ==> s@ == (SchemaView {
                platform_config: entries_view(platform_config@),
                application: application@.map_values(|a: Application| a@),
            }),
    {
        if distinct_keys(&platform_config) {
            Some(Schema { platform_config, application })
        } else {
            None
        }
    }

    pub fn platform_config(&self) -> (r: &Vec<(String, PlatformConfig)>)
        ensures
            entries_view(r@) == self@.platform_config,
    {
        &self.platform_config
    }

    pub(crate) fn replace_application(&mut self, application: Vec<Application>)
        ensures
            final(self)@ == (SchemaView {
                platform_config: old(self)@.platform_config,
                application: application@.map_values(|a: Application| a@),
            }),
    {
        proof {
            use_type_invariant(&*self);
        }
        self.application = application;
    }

    pub fn application(&self) -> (r: &Vec<Application>)
        ensures
            r@.map_values(|a: Application| a@) == self@.application,
    {
        &self.application
    }
}

} // verus!
