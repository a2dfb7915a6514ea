//! The operating-system strategy: how a command configuration becomes a
//! process invocation, how a link is made, and how exit statuses are read.
//!
//! Two strategies implement [`ExecutionPlatform`]: Unix runs commands
//! directly (behind `sudo` when elevated) and creates symbolic links
//! natively; Windows routes every command through PowerShell's
//! `Start-Process` (with the `RunAs` verb when elevated) and creates links
//! through an elevated PowerShell that runs `New-Item`.
//!
//! Windows links: the outer process reports the exit status of the inner
//! PowerShell. A failure inside `New-Item` that does not change that status
//! goes undetected; this is a known open issue.
use vstd::prelude::*;

use crate::argument_resolver::{
    expand_home, has_home_prefix, home_dir_if, home_view, needs_home, resolve_argument_with_home,
    resolve_path_with_home, resolved_argument, starts_with_home, ArgumentError,
};
use crate::schema::{
    arguments_view, Argument, ArgumentView, CommandConfig, CommandView, Operation, OperationView,
    PathStr,
};

verus! {

/// A process to start: a program and its arguments.
pub struct Invocation {
    pub program: String,
    pub args: Vec<String>,
}

pub open spec fn strings_view(v: Seq<String>) -> Seq<Seq<char>> {
    v.map_values(|s: String| s@)
}

impl Invocation {
    /// The program followed by its arguments.
    pub open spec fn tokens(&self) -> Seq<Seq<char>> {
        seq![self.program@] + strings_view(self.args@)
    }
}

/// The resolved argument list of a command (empty when it has none).
pub open spec fn resolved_arguments(args: Option<Seq<ArgumentView>>, home: Seq<char>) -> Seq<
    Seq<char>,
> {
    match args {
        Some(a) => a.map_values(|x: ArgumentView| resolved_argument(x, home)),
        None => Seq::empty(),
    }
}

/// Resolving the command or one of its arguments needs the home directory.
pub open spec fn command_needs_home(c: CommandView) -> bool {
    ||| needs_home(c.command)
    ||| (c.args matches Some(a) && exists|i: int| 0 <= i < a.len() && needs_home(#[trigger] a[i]))
}

/// The tokens of a Unix invocation: the elevation wrapper first when the
/// command runs as root, then the resolved command and its arguments.
pub open spec fn unix_command_tokens(c: CommandView, home: Seq<char>) -> Seq<Seq<char>> {
    let command = resolved_argument(c.command, home);
    let args = resolved_arguments(c.args, home);
    if c.as_root == Some(true) {
        seq!["sudo"@, command] + args
    } else {
        seq![command] + args
    }
}

/// A PowerShell single-quoted string body: each `'` is doubled.
pub open spec fn ps_escape(s: Seq<char>) -> Seq<char>
    decreases s.len(),
{
    if s.len() == 0 {
        Seq::empty()
    } else {
        ps_escape(s.drop_last()) + if s.last() == '\'' {
            "''"@
        } else {
            seq![s.last()]
        }
    }
}

/// A PowerShell single-quoted string literal.
pub open spec fn ps_quote(s: Seq<char>) -> Seq<char> {
    "'"@ + ps_escape(s) + "'"@
}

/// A PowerShell array of single-quoted strings, comma separated.
pub open spec fn ps_list(items: Seq<Seq<char>>) -> Seq<char>
    decreases items.len(),
{
    if items.len() == 0 {
        Seq::empty()
    } else if items.len() == 1 {
        ps_quote(items[0])
    } else {
        ps_list(items.drop_last()) + ","@ + ps_quote(items.last())
    }
}

/// The PowerShell script that starts `command` with `args` through
/// `Start-Process`, waits for it, and exits with its exit code; elevated
/// runs add the `RunAs` verb and nothing else.
pub open spec fn start_process_script(command: Seq<char>, args: Seq<Seq<char>>, elevated: bool) -> Seq<
    char,
> {
    "$p = Start-Process -FilePath "@ + ps_quote(command) + (if args.len() > 0 {
        " -ArgumentList "@ + ps_list(args)
    } else {
        Seq::empty()
    }) + " -Wait -PassThru"@ + (if elevated {
        " -Verb RunAs"@
    } else {
        Seq::empty()
    }) + "; exit $p.ExitCode"@
}

/// The tokens of a PowerShell invocation that runs `script`.
pub open spec fn powershell_tokens(script: Seq<char>) -> Seq<Seq<char>> {
    seq!["powershell.exe"@, "-NoProfile"@, "-Command"@, script]
}

pub open spec fn windows_command_tokens(c: CommandView, home: Seq<char>) -> Seq<Seq<char>> {
    powershell_tokens(
        start_process_script(
            resolved_argument(c.command, home),
            resolved_arguments(c.args, home),
            c.as_root == Some(true),
        ),
    )
}

/// The inner command that creates the symbolic link `link` pointing at `original`.
pub open spec fn new_item_command(original: Seq<char>, link: Seq<char>) -> Seq<char> {
    "New-Item -ItemType SymbolicLink -Path "@ + ps_quote(link) + " -Value "@ + ps_quote(original)
}

/// The outer script: an elevated PowerShell runs the inner command, and the
/// outer process exits with the inner one's exit code.
pub open spec fn windows_link_script(original: Seq<char>, link: Seq<char>) -> Seq<char> {
    "$p = Start-Process -FilePath 'powershell.exe' -ArgumentList '-NoProfile','-Command',"@
        + ps_quote(new_item_command(original, link))
        + " -Wait -PassThru -Verb RunAs; exit $p.ExitCode"@
}

/// A step ready to be carried out.
pub enum Step {
    /// Start a process and wait for it.
    Run(Invocation),
    /// Check that `original` can be read, then create `link` pointing at it:
    /// natively when `via` is `None`, otherwise by running `via`.
    Link { original: String, link: String, via: Option<Invocation> },
}

/// Why an operation could not be prepared.
#[derive(Debug, PartialEq, Eq, Structural)]
pub enum PrepareError {
    /// A path argument could not be resolved.
    Argument(ArgumentError),
    /// A package install that expansion should have replaced.
    UnexpandedPackageInstall,
}

/// A process that ran and did not exit with status 0 (`None`: no exit code,
/// for instance when a signal ended it).
#[derive(Debug, PartialEq, Eq, Structural)]
pub enum ExecutionError {
    ExecutionFailed(Option<i32>),
}

/// Resolving the operation's paths or arguments needs the home directory.
pub open spec fn operation_needs_home(op: OperationView) -> bool {
    match op {
        OperationView::Command(c) => command_needs_home(c),
        OperationView::Link { original, link } => has_home_prefix(original) || has_home_prefix(
            link,
        ),
        OperationView::PackageInstall { .. } => false,
    }
}

/// Resolves recipe arguments into process arguments, looking up the home
/// directory when a path needs it.
pub trait ArgumentResolver {
    fn resolve_argument(&self, argument: &Argument) -> (r: Result<String, ArgumentError>)
        ensures
            !needs_home(argument@) ==> (r matches Ok(s) && s@ == resolved_argument(
                argument@,
                Seq::empty(),
            )),
            r matches Ok(s) ==> exists|home: Seq<char>| s@ == resolved_argument(argument@, home),
            r is Err ==> needs_home(argument@),
    {
        crate::argument_resolver::resolve_argument(argument)
    }

    fn resolve_path_argument(&self, path: &PathStr) -> (r: Result<String, ArgumentError>)
        ensures
            !has_home_prefix(path@) ==> (r matches Ok(s) && s@ == path@),
            r matches Ok(s) ==> exists|home: Seq<char>| s@ == expand_home(path@, home),
            r is Err ==> has_home_prefix(path@),
    {
        crate::argument_resolver::resolve_path_argument(path)
    }
}

/// Turns a command configuration into a process invocation.
pub trait CommandExecutor: ArgumentResolver {
    /// The tokens of the invocation that runs a command.
    spec fn command_tokens(&self, c: CommandView, home: Seq<char>) -> Seq<Seq<char>>;

    /// The invocation for `config`, given the home directory if known.
    fn build_command(&self, config: &CommandConfig, home: Option<&String>) -> (r: Result<
        Invocation,
        ArgumentError,
    >)
        ensures
            r is Err <==> command_needs_home(config@) && home is None,
            r matches Ok(inv) ==> inv.tokens() == self.command_tokens(config@, home_view(home)),
    ;
}

/// Says how a symbolic link is created.
pub trait LinkExecutor: ArgumentResolver {
    /// The tokens of the invocation that creates a link, or `None` when the
    /// link is created natively.
    spec fn link_tokens(&self, original: Seq<char>, link: Seq<char>) -> Option<Seq<Seq<char>>>;

    /// The invocation that creates `link` pointing at `original`, if links
    /// are not created natively.
    fn link_invocation(&self, original: &String, link: &String) -> (r: Option<Invocation>)
        ensures
            match self.link_tokens(original@, link@) {
                Some(t) => r matches Some(inv) && inv.tokens() == t,
                None => r is None,
            },
    ;
}

/// The operating-system strategy: one is chosen when the process starts,
/// and the orchestration never asks which.
pub trait ExecutionPlatform: CommandExecutor + LinkExecutor {}

/// The step for an operation matches what the platform prescribes.
pub open spec fn step_for<P: ExecutionPlatform>(
    platform: P,
    op: OperationView,
    home: Seq<char>,
    step: Step,
) -> bool {
    match op {
        OperationView::Command(c) => step matches Step::Run(inv) && inv.tokens()
            == platform.command_tokens(c, home),
        OperationView::Link { original, link } => step matches Step::Link {
            original: o,
            link: l,
            via,
        } && o@ == expand_home(original, home) && l@ == expand_home(link, home) && match platform.link_tokens(o@, l@) {
            Some(t) => via matches Some(inv) && inv.tokens() == t,
            None => via is None,
        },
        OperationView::PackageInstall { .. } => false,
    }
}

/// Whether the command or one of its arguments needs the home directory.
pub fn config_needs_home(config: &CommandConfig) -> (r: bool)
    ensures
        r == command_needs_home(config@),
{
    if argument_needs_home(&config.command) {
        return true;
    }
    match &config.args {
        None => false,
        Some(args) => {
            let ghost a = config@.args->Some_0;
            let mut i: usize = 0;
            while i < args.len()
                invariant
                    a == arguments_view(args@),
                    config@.args == Some(a),
                    !needs_home(config@.command),
                    i <= args.len(),
                    forall|j: int| 0 <= j < i ==> !needs_home(#[trigger] a[j]),
                decreases args.len() - i,
            {
                assert(a[i as int] == args@[i as int]@);
                if argument_needs_home(&args[i]) {
                    assert(needs_home(a[i as int]));
                    assert(0 <= i < a.len());
                    assert(config@.args matches Some(b) && b == a);
                    return true;
                }
                i += 1;
            }
            false
        },
    }
}

fn argument_needs_home(argument: &Argument) -> (r: bool)
    ensures
        r == needs_home(argument@),
{
    match argument {
        Argument::Path { path } => starts_with_home(path.0.as_str()),
        Argument::String(_) => false,
    }
}

/// The resolved arguments of `config`, given the home directory if known.
fn resolve_arguments(config: &CommandConfig, home: Option<&String>) -> (r: Result<
    Vec<String>,
    ArgumentError,
>)
    ensures
        r is Err <==> (config@.args matches Some(a) && exists|i: int|
            0 <= i < a.len() && needs_home(#[trigger] a[i])) && home is None,
        r is Err ==> r == Err::<Vec<String>, ArgumentError>(ArgumentError::HomeDirectoryUnavailable),
        r matches Ok(v) ==> strings_view(v@) == resolved_arguments(config@.args, home_view(home)),
{
    let mut resolved: Vec<String> = Vec::new();
    match &config.args {
        None => {
            assert(strings_view(resolved@) =~= resolved_arguments(config@.args, home_view(home)));
            Ok(resolved)
        },
        Some(args) => {
            let ghost a = config@.args->Some_0;
            let mut i: usize = 0;
            while i < args.len()
                invariant
                    a == arguments_view(args@),
                    config@.args == Some(a),
                    i <= args.len(),
                    resolved.len() == i,
                    forall|j: int|
                        0 <= j < i ==> (#[trigger] resolved@[j])@ == resolved_argument(
                            a[j],
                            home_view(home),
                        ),
                    forall|j: int| 0 <= j < i ==> !(needs_home(#[trigger] a[j]) && home is None),
                decreases args.len() - i,
            {
                assert(a[i as int] == args@[i as int]@);
                match resolve_argument_with_home(&args[i], home) {
                    Err(e) => {
                        assert(needs_home(a[i as int]) && home is None);
                        assert(0 <= i < a.len());
                        assert(config@.args matches Some(b) && b == a);
                        return Err(e);
                    },
                    Ok(s) => {
                        resolved.push(s);
                    },
                }
                i += 1;
            }
            assert(strings_view(resolved@) =~= resolved_arguments(config@.args, home_view(home)));
            Ok(resolved)
        },
    }
}

/// Prepares an operation given the home directory if known.
pub fn prepare_operation_with_home<P: ExecutionPlatform>(
    platform: &P,
    operation: &Operation,
    home: Option<&String>,
) -> (r: Result<Step, PrepareError>)
    ensures
        operation@ is PackageInstall ==> r == Err::<Step, PrepareError>(
            PrepareError::UnexpandedPackageInstall,
        ),
        !(operation@ is PackageInstall) ==> (r is Err <==> operation_needs_home(operation@)
            && home is None),
        !(operation@ is PackageInstall) && r is Err ==> r == Err::<Step, PrepareError>(
            PrepareError::Argument(ArgumentError::HomeDirectoryUnavailable),
        ),
        r matches Ok(step) ==> step_for(*platform, operation@, home_view(home), step),
{
    match operation {
        Operation::Command(config) => match platform.build_command(config, home) {
            Ok(inv) => Ok(Step::Run(inv)),
            Err(e) => Err(PrepareError::Argument(e)),
        },
        Operation::Link { original, link } => {
            let o = match resolve_path_with_home(original, home) {
                Ok(o) => o,
                Err(e) => {
                    return Err(PrepareError::Argument(e));
                },
            };
            let l = match resolve_path_with_home(link, home) {
                Ok(l) => l,
                Err(e) => {
                    return Err(PrepareError::Argument(e));
                },
            };
            let via = platform.link_invocation(&o, &l);
            Ok(Step::Link { original: o, link: l, via })
        },
        Operation::PackageInstall { .. } => Err(PrepareError::UnexpandedPackageInstall),
    }
}

/// Whether resolving the operation needs the home directory.
fn operation_needs_home_exec(operation: &Operation) -> (r: bool)
    ensures
        r == operation_needs_home(operation@),
{
    match operation {
        Operation::Command(config) => config_needs_home(config),
        Operation::Link { original, link } => starts_with_home(original.0.as_str())
            || starts_with_home(link.0.as_str()),
        Operation::PackageInstall { .. } => false,
    }
}

/// Prepares an operation, looking up the home directory when it is needed.
pub fn prepare_operation<P: ExecutionPlatform>(platform: &P, operation: &Operation) -> (r: Result<
    Step,
    PrepareError,
>)
    ensures
        operation@ is PackageInstall ==> r == Err::<Step, PrepareError>(
            PrepareError::UnexpandedPackageInstall,
        ),
        !(operation@ is PackageInstall) && !operation_needs_home(operation@) ==> (r matches Ok(
            step,
        ) && step_for(*platform, operation@, Seq::empty(), step)),
        r matches Ok(step) ==> exists|home: Seq<char>| step_for(*platform, operation@, home, step),
        !(operation@ is PackageInstall) && r is Err ==> operation_needs_home(operation@) && r
            == Err::<Step, PrepareError>(
            PrepareError::Argument(ArgumentError::HomeDirectoryUnavailable),
        ),
{
    let home = home_dir_if(operation_needs_home_exec(operation));
    let known = home.as_ref();
    let r = prepare_operation_with_home(platform, operation, known);
    assert(r matches Ok(step) ==> step_for(*platform, operation@, home_view(known), step));
    r
}

/// Builds the invocation for a command, looking up the home directory when
/// it is needed.
pub fn construct_command<P: ExecutionPlatform>(platform: &P, config: &CommandConfig) -> (r: Result<
    Invocation,
    ArgumentError,
>)
    ensures
        !command_needs_home(config@) ==> (r matches Ok(inv) && inv.tokens()
            == platform.command_tokens(config@, Seq::empty())),
        r matches Ok(inv) ==> exists|home: Seq<char>| inv.tokens() == platform.command_tokens(
            config@,
            home,
        ),
        r is Err ==> command_needs_home(config@) && r == Err::<Invocation, ArgumentError>(
            ArgumentError::HomeDirectoryUnavailable,
        ),
{
    let home = home_dir_if(config_needs_home(config));
    let known = home.as_ref();
    let r = platform.build_command(config, known);
    assert(r matches Ok(inv) ==> inv.tokens() == platform.command_tokens(config@, home_view(known)));
    match r {
        Ok(inv) => Ok(inv),
        Err(_) => Err(ArgumentError::HomeDirectoryUnavailable),
    }
}

/// The outcome of a process from its exit code: success exactly when it is 0.
pub fn execution_result(exit_code: Option<i32>) -> (r: Result<(), ExecutionError>)
    ensures
        exit_code == Some(0i32) ==> r is Ok,
        exit_code != Some(0i32) ==> r == Err::<(), ExecutionError>(
            ExecutionError::ExecutionFailed(exit_code),
        ),
{
    match exit_code {
        Some(0) => Ok(()),
        _ => Err(ExecutionError::ExecutionFailed(exit_code)),
    }
}

/// Whether an installed-check predicate reports the application as
/// installed: exactly when it exits with status 0.
pub fn already_installed(exit_code: Option<i32>) -> (r: bool)
    ensures
        r == (exit_code == Some(0i32)),
{
    match exit_code {
        Some(0) => true,
        _ => false,
    }
}

/// An elevated Unix command starts with the elevation wrapper, followed by
/// the resolved command.
pub proof fn lemma_unix_elevation(c: CommandView, home: Seq<char>)
    requires
        c.as_root == Some(true),
    ensures
        unix_command_tokens(c, home).len() >= 2,
        unix_command_tokens(c, home)[0] == "sudo"@,
        unix_command_tokens(c, home)[1] == resolved_argument(c.command, home),
{
}

// ---------------------------------------------------------------------------
// Unix
// ---------------------------------------------------------------------------

/// Runs commands directly, behind `sudo` when elevated; creates symbolic links natively.
pub struct UnixExecutionPlatform;

impl ArgumentResolver for UnixExecutionPlatform {}

impl ExecutionPlatform for UnixExecutionPlatform {}

impl CommandExecutor for UnixExecutionPlatform {
    open spec fn command_tokens(&self, c: CommandView, home: Seq<char>) -> Seq<Seq<char>> {
        unix_command_tokens(c, home)
    }

    fn build_command(&self, config: &CommandConfig, home: Option<&String>) -> (r: Result<
        Invocation,
        ArgumentError,
    >) {
        let command = match resolve_argument_with_home(&config.command, home) {
            Ok(c) => c,
            Err(e) => {
                return Err(e);
            },
        };
        let mut args = match resolve_arguments(config, home) {
            Ok(a) => a,
            Err(e) => {
                return Err(e);
            },
        };
        if config.is_elevated() {
            let mut all: Vec<String> = Vec::new();
            all.push(command);
            all.append(&mut args);
            let inv = Invocation { program: String::from_str("sudo"), args: all };
            assert(inv.tokens() =~= unix_command_tokens(config@, home_view(home)));
            Ok(inv)
        } else {
            let inv = Invocation { program: command, args };
            assert(inv.tokens() =~= unix_command_tokens(config@, home_view(home)));
            Ok(inv)
        }
    }
}

impl LinkExecutor for UnixExecutionPlatform {
    open spec fn link_tokens(&self, original: Seq<char>, link: Seq<char>) -> Option<
        Seq<Seq<char>>,
    > {
        None
    }

    fn link_invocation(&self, original: &String, link: &String) -> (r: Option<Invocation>) {
        None
    }
}

// ---------------------------------------------------------------------------
// Windows
// ---------------------------------------------------------------------------

/// Runs commands through PowerShell's `Start-Process` (with the `RunAs` verb
/// when elevated); creates links through an elevated PowerShell.
pub struct WindowsExecutionPlatform;

pub fn new() -> (r: WindowsExecutionPlatform) {
    WindowsExecutionPlatform
}

/// `s` as a PowerShell single-quoted string literal.
fn quote(s: &str) -> (r: String)
    ensures
        r@ == ps_quote(s@),
{
    let n = s.unicode_len();
    let mut escaped = String::new();
    let mut i: usize = 0;
    while i < n
        invariant
            n == s@.len(),
            i <= n,
            escaped@ == ps_escape(s@.take(i as int)),
        decreases n - i,
    {
        let c = s.get_char(i);
        let piece = s.substring_char(i, i + 1);
        assert(s@.take(i + 1).drop_last() == s@.take(i as int));
        if c == '\'' {
            escaped.append("''");
        } else {
            escaped.append(piece);
            assert(piece@ == seq![c]);
        }
        i += 1;
    }
    assert(s@.take(n as int) == s@);
    let mut quoted = String::from_str("'");
    quoted.append(escaped.as_str());
    quoted.append("'");
    quoted
}

/// `items` as a PowerShell array of single-quoted strings.
fn quote_list(items: &Vec<String>) -> (r: String)
    ensures
        r@ == ps_list(strings_view(items@)),
{
    let ghost v = strings_view(items@);
    let mut list = String::new();
    let mut i: usize = 0;
    while i < items.len()
        invariant
            v == strings_view(items@),
            i <= items.len(),
            list@ == ps_list(v.take(i as int)),
        decreases items.len() - i,
    {
        assert(v.take(i + 1).drop_last() == v.take(i as int));
        if i > 0 {
            list.append(",");
        } else {
            assert(v.take(1) == seq![v[0]]);
        }
        let q = quote(items[i].as_str());
        list.append(q.as_str());
        i += 1;
    }
    assert(v.take(items.len() as int) == v);
    list
}

/// An invocation of PowerShell that runs `script`.
fn powershell(script: String) -> (r: Invocation)
    ensures
        r.tokens() == powershell_tokens(script@),
{
    let mut args: Vec<String> = Vec::new();
    args.push(String::from_str("-NoProfile"));
    args.push(String::from_str("-Command"));
    args.push(script);
    let inv = Invocation { program: String::from_str("powershell.exe"), args };
    assert(inv.tokens() =~= powershell_tokens(script@));
    inv
}

impl ArgumentResolver for WindowsExecutionPlatform {}

impl ExecutionPlatform for WindowsExecutionPlatform {}

impl CommandExecutor for WindowsExecutionPlatform {
    open spec fn command_tokens(&self, c: CommandView, home: Seq<char>) -> Seq<Seq<char>> {
        windows_command_tokens(c, home)
    }

    fn build_command(&self, config: &CommandConfig, home: Option<&String>) -> (r: Result<
        Invocation,
        ArgumentError,
    >) {
        let command = match resolve_argument_with_home(&config.command, home) {
            Ok(c) => c,
            Err(e) => {
                return Err(e);
            },
        };
        let args = match resolve_arguments(config, home) {
            Ok(a) => a,
            Err(e) => {
                return Err(e);
            },
        };
        let ghost arg_view = strings_view(args@);
        let mut script = String::from_str("$p = Start-Process -FilePath ");
        let q = quote(command.as_str());
        script.append(q.as_str());
        let ghost after_command = script@;
        if args.len() > 0 {
            script.append(" -ArgumentList ");
            let list = quote_list(&args);
            script.append(list.as_str());
        }
        assert(script@ == after_command + (if arg_view.len() > 0 {
            " -ArgumentList "@ + ps_list(arg_view)
        } else {
            Seq::<char>::empty()
        }));
        script.append(" -Wait -PassThru");
        let ghost after_wait = script@;
        let elevated = config.is_elevated();
        if elevated {
            script.append(" -Verb RunAs");
        }
        assert(script@ == after_wait + (if elevated {
            " -Verb RunAs"@
        } else {
            Seq::<char>::empty()
        }));
        script.append("; exit $p.ExitCode");
        assert(script@ =~= start_process_script(command@, arg_view, elevated));
        Ok(powershell(script))
    }
}

impl LinkExecutor for WindowsExecutionPlatform {
    open spec fn link_tokens(&self, original: Seq<char>, link: Seq<char>) -> Option<
        Seq<Seq<char>>,
    > {
        Some(powershell_tokens(windows_link_script(original, link)))
    }

    fn link_invocation(&self, original: &String, link: &String) -> (r: Option<Invocation>) {
        let mut inner = String::from_str("New-Item -ItemType SymbolicLink -Path ");
        let ql = quote(link.as_str());
        inner.append(ql.as_str());
        inner.append(" -Value ");
        let qo = quote(original.as_str());
        inner.append(qo.as_str());
        assert(inner@ =~= new_item_command(original@, link@));
        let mut script = String::from_str(
            "$p = Start-Process -FilePath 'powershell.exe' -ArgumentList '-NoProfile','-Command',",
        );
        let qi = quote(inner.as_str());
        script.append(qi.as_str());
        script.append(" -Wait -PassThru -Verb RunAs; exit $p.ExitCode");
        assert(script@ =~= windows_link_script(original@, link@));
        Some(powershell(script))
    }
}

// ---------------------------------------------------------------------------
// Choosing a strategy
// ---------------------------------------------------------------------------

/// The strategy of the running operating system.
pub enum HostPlatform {
    Unix(UnixExecutionPlatform),
    Windows(WindowsExecutionPlatform),
}

/// The strategy to use, chosen once when the process starts: Windows when
/// `windows` holds, Unix otherwise.
pub fn construct_execution_platform(windows: bool) -> (r: HostPlatform)
    ensures
        r is Windows <==> windows,
{
    if windows {
        HostPlatform::Windows(new())
    } else {
        HostPlatform::Unix(UnixExecutionPlatform)
    }
}

impl ArgumentResolver for HostPlatform {}

impl ExecutionPlatform for HostPlatform {}

impl CommandExecutor for HostPlatform {
    open spec fn command_tokens(&self, c: CommandView, home: Seq<char>) -> Seq<Seq<char>> {
        match self {
            HostPlatform::Unix(p) => p.command_tokens(c, home),
            HostPlatform::Windows(p) => p.command_tokens(c, home),
        }
    }

    fn build_command(&self, config: &CommandConfig, home: Option<&String>) -> (r: Result<
        Invocation,
        ArgumentError,
    >) {
        match self {
            HostPlatform::Unix(p) => p.build_command(config, home),
            HostPlatform::Windows(p) => p.build_command(config, home),
        }
    }
}

impl LinkExecutor for HostPlatform {
    open spec fn link_tokens(&self, original: Seq<char>, link: Seq<char>) -> Option<
        Seq<Seq<char>>,
    > {
        match self {
            HostPlatform::Unix(p) => p.link_tokens(original, link),
            HostPlatform::Windows(p) => p.link_tokens(original, link),
        }
    }

    fn link_invocation(&self, original: &String, link: &String) -> (r: Option<Invocation>) {
        match self {
            HostPlatform::Unix(p) => p.link_invocation(original, link),
            HostPlatform::Windows(p) => p.link_invocation(original, link),
        }
    }
}

// ---------------------------------------------------------------------------
// Environment entries
// ---------------------------------------------------------------------------

/// The number of occurrences of `c` in `s`.
pub open spec fn count_char(s: Seq<char>, c: char) -> nat
    decreases s.len(),
{
    if s.len() == 0 {
        0
    } else {
        count_char(s.drop_last(), c) + if s.last() == c {
            1nat
        } else {
            0nat
        }
    }
}

proof fn lemma_count_concat(a: Seq<char>, b: Seq<char>, c: char)
    ensures
        count_char(a + b, c) == count_char(a, c) + count_char(b, c),
    decreases b.len(),
{
    if b.len() == 0 {
        assert(a + b == a);
    } else {
        lemma_count_concat(a, b.drop_last(), c);
        assert((a + b).drop_last() == a + b.drop_last());
    }
}

proof fn lemma_count_zero(s: Seq<char>, c: char)
    ensures
        count_char(s, c) == 0 <==> !s.contains(c),
    decreases s.len(),
{
    if s.len() > 0 {
        lemma_count_zero(s.drop_last(), c);
        if s.drop_last().contains(c) {
            let i = choose|i: int| 0 <= i < s.drop_last().len() && s.drop_last()[i] == c;
            assert(s[i] == c);
        }
        if s.contains(c) && s.last() != c {
            let i = choose|i: int| 0 <= i < s.len() && s[i] == c;
            assert(s.drop_last()[i] == c);
        }
    }
}

/// Splits an environment entry `NAME=VALUE` into its name and value; `None`
/// unless the entry holds exactly one `=`.
pub fn parse_environment_string(entry: String) -> (r: Option<(String, String)>)
    ensures
        r is Some <==> count_char(entry@, '=') == 1,
        r matches Some((name, value)) ==> entry@ == name@ + seq!['='] + value@ && !name@.contains(
            '=',
        ) && !value@.contains('='),
{
    let n = entry.as_str().unicode_len();
    let mut count: usize = 0;
    let mut position: usize = 0;
    let mut i: usize = 0;
    while i < n
        invariant
            n == entry@.len(),
            i <= n,
            count == count_char(entry@.take(i as int), '='),
            count <= i,
            count >= 1 ==> position < i && entry@[position as int] == '=' && count_char(
                entry@.take(position as int),
                '=',
            ) == 0,
        decreases n - i,
    {
        assert(entry@.take(i + 1).drop_last() == entry@.take(i as int));
        if entry.as_str().get_char(i) == '=' {
            if count == 0 {
                position = i;
            }
            count += 1;
        }
        i += 1;
    }
    assert(entry@.take(n as int) == entry@);
    if count != 1 {
        return None;
    }
    let name = String::from_str(entry.as_str().substring_char(0, position));
    let value = String::from_str(entry.as_str().substring_char(position + 1, n));
    proof {
        let e = entry@;
        let p = position as int;
        assert(e =~= e.take(p) + seq!['='] + e.skip(p + 1));
        assert(e.take(p + 1) =~= e.take(p) + seq!['=']);
        lemma_count_concat(e.take(p + 1), e.skip(p + 1), '=');
        assert(e.take(p + 1) + e.skip(p + 1) =~= e);
        lemma_count_concat(e.take(p), seq!['='], '=');
        assert(count_char(seq!['='], '=') == 1) by {
            assert(seq!['='].drop_last() =~= Seq::<char>::empty());
        }
        lemma_count_zero(e.take(p), '=');
        lemma_count_zero(e.skip(p + 1), '=');
    }
    Some((name, value))
}

} // verus!
