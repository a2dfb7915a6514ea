//! Turning recipe arguments into the strings handed to a process.
//!
//! A literal is used as it is. A path whose text begins with exactly `~/`
//! has that prefix replaced by the home directory followed by `/`; any other
//! path (including `~user/...`) is used as it is.
use vstd::prelude::*;

use crate::schema::{Argument, ArgumentView, PathStr};

verus! {

/// Why an argument could not be resolved.
#[derive(Debug, PartialEq, Eq, Structural)]
pub enum ArgumentError {
    /// A path starts with `~/` and the home directory cannot be determined.
    HomeDirectoryUnavailable,
}

/// The path begins with the two characters `~/`.
pub open spec fn has_home_prefix(p: Seq<char>) -> bool {
    p.len() >= 2 && p[0] == '~' && p[1] == '/'
}

/// The path with a leading `~/` replaced by `home` and a separator.
pub open spec fn expand_home(p: Seq<char>, home: Seq<char>) -> Seq<char> {
    if has_home_prefix(p) {
        home + seq!['/'] + p.skip(2)
    } else {
        p
    }
}

/// The string an argument resolves to, given the home directory.
pub open spec fn resolved_argument(a: ArgumentView, home: Seq<char>) -> Seq<char> {
    match a {
        ArgumentView::Path(p) => expand_home(p, home),
        ArgumentView::Literal(s) => s,
    }
}

/// Resolving the argument needs the home directory.
pub open spec fn needs_home(a: ArgumentView) -> bool {
    a matches ArgumentView::Path(p) && has_home_prefix(p)
}

/// The home directory as handed to a resolver (the empty text when absent).
pub open spec fn home_view(home: Option<&String>) -> Seq<char> {
    match home {
        Some(h) => h@,
        None => Seq::empty(),
    }
}

/// Relies on dirs::home_dir: the current user's home directory, if one can
/// be determined. It depends on the environment, so nothing is promised of it.
#[verifier::external_body]
fn home_dir() -> (r: Option<String>) {
    match dirs::home_dir() {
        Some(path) => Some(path.to_string_lossy().into_owned()),
        None => None,
    }
}

/// The home directory, looked up only when `needed`.
pub(crate) fn home_dir_if(needed: bool) -> (r: Option<String>)
    ensures
        !needed ==> r is None,
{
    if needed {
        home_dir()
    } else {
        None
    }
}

/// Whether the path begins with `~/`.
pub fn starts_with_home(path: &str) -> (r: bool)
    ensures
        r == has_home_prefix(path@),
{
    let n = path.unicode_len();
    n >= 2 && path.get_char(0) == '~' && path.get_char(1) == '/'
}

/// `path` with a leading `~/` replaced by `home` and a separator.
pub fn expand_tilde(path: &str, home: &str) -> (r: String)
    ensures
        r@ == expand_home(path@, home@),
{
    if starts_with_home(path) {
        let rest = path.substring_char(2, path.unicode_len());
        let mut expanded = String::from_str(home);
        proof {
            reveal_strlit("/");
        }
        expanded.append("/");
        expanded.append(rest);
        assert(expanded@ =~= home@ + seq!['/'] + path@.skip(2));
        expanded
    } else {
        String::from_str(path)
    }
}

/// Resolves a path given the home directory, if known.
pub fn resolve_path_with_home(path: &PathStr, home: Option<&String>) -> (r: Result<
    String,
    ArgumentError,
>)
    ensures
        r is Err <==> has_home_prefix(path@) && home is None,
        r is Err ==> r == Err::<String, ArgumentError>(ArgumentError::HomeDirectoryUnavailable),
        r matches Ok(s) ==> s@ == expand_home(path@, home_view(home)),
{
    if starts_with_home(path.0.as_str()) {
        match home {
            Some(h) => Ok(expand_tilde(path.0.as_str(), h.as_str())),
            None => Err(ArgumentError::HomeDirectoryUnavailable),
        }
    } else {
        Ok(path.0.clone())
    }
}

/// Resolves an argument given the home directory, if known.
pub fn resolve_argument_with_home(argument: &Argument, home: Option<&String>) -> (r: Result<
    String,
    ArgumentError,
>)
    ensures
        r is Err <==> needs_home(argument@) && home is None,
        r is Err ==> r == Err::<String, ArgumentError>(ArgumentError::HomeDirectoryUnavailable),
        r matches Ok(s) ==> s@ == resolved_argument(argument@, home_view(home)),
{
    match argument {
        Argument::Path { path } => resolve_path_with_home(path, home),
        Argument::String(s) => Ok(s.clone()),
    }
}

/// Resolves a path, looking up the home directory when the path needs it.
pub fn resolve_path_argument(path: &PathStr) -> (r: Result<String, ArgumentError>)
    ensures
        !has_home_prefix(path@) ==> (r matches Ok(s) && s@ == path@),
        r matches Ok(s) ==> exists|home: Seq<char>| s@ == expand_home(path@, home),
        r is Err ==> has_home_prefix(path@) && r == Err::<String, ArgumentError>(
            ArgumentError::HomeDirectoryUnavailable,
        ),
{
    let home = home_dir_if(starts_with_home(path.0.as_str()));
    let known = home.as_ref();
    let r = resolve_path_with_home(path, known);
    assert(r matches Ok(s) ==> s@ == expand_home(path@, home_view(known)));
    r
}

/// Resolves an argument, looking up the home directory when it needs it.
pub fn resolve_argument(argument: &Argument) -> (r: Result<String, ArgumentError>)
    ensures
        !needs_home(argument@) ==> (r matches Ok(s) && s@ == resolved_argument(
            argument@,
            Seq::empty(),
        )),
        r matches Ok(s) ==> exists|home: Seq<char>| s@ == resolved_argument(argument@, home),
        r is Err ==> needs_home(argument@) && r == Err::<String, ArgumentError>(
            ArgumentError::HomeDirectoryUnavailable,
        ),
{
    match argument {
        Argument::Path { path } => {
            let r = resolve_path_argument(path);
            proof {
                if r is Ok {
                    let s = r->Ok_0;
                    let home = choose|home: Seq<char>| s@ == expand_home(path@, home);
                    assert(s@ == resolved_argument(argument@, home));
                }
            }
            r
        },
        Argument::String(s) => Ok(s.clone()),
    }
}

} // verus!
