//! The user's standard directories, as the `dirs` crate finds them, and the
//! shell expansion of configured paths by `shellexpand`. Both depend on the
//! environment of the running process.
use vstd::prelude::*;

verus! {

/// `dirs::home_dir`, as text. Nothing is stated of the result: it depends on
/// the environment and the user database.
#[verifier::external_body]
pub(crate) fn home_dir() -> Option<String> {
    dirs::home_dir().map(|p| p.to_string_lossy().into_owned())
}

/// `dirs::data_local_dir`, as text. Nothing is stated of the result: it
/// depends on the environment.
#[verifier::external_body]
pub(crate) fn data_local_dir() -> Option<String> {
    dirs::data_local_dir().map(|p| p.to_string_lossy().into_owned())
}

/// `dirs::data_dir`, as text. Nothing is stated of the result: it depends on
/// the environment.
#[verifier::external_body]
pub(crate) fn data_dir() -> Option<String> {
    dirs::data_dir().map(|p| p.to_string_lossy().into_owned())
}

/// `dirs::cache_dir`, as text. Nothing is stated of the result: it depends on
/// the environment.
#[verifier::external_body]
pub(crate) fn cache_dir() -> Option<String> {
    dirs::cache_dir().map(|p| p.to_string_lossy().into_owned())
}

/// `dirs::config_dir`, as text. Nothing is stated of the result: it depends on
/// the environment.
#[verifier::external_body]
pub(crate) fn config_dir() -> Option<String> {
    dirs::config_dir().map(|p| p.to_string_lossy().into_owned())
}

/// `dirs::download_dir`, as text. Nothing is stated of the result: it depends
/// on the environment and the user's directory settings.
#[verifier::external_body]
pub(crate) fn download_dir() -> Option<String> {
    dirs::download_dir().map(|p| p.to_string_lossy().into_owned())
}

/// Text that `shellexpand::full` returns unchanged: it has no `$` and does not
/// start with `~`.
pub open spec fn expansion_free(s: Seq<char>) -> bool {
    !s.contains('$') && !(s.len() > 0 && s[0] == '~')
}

/// `shellexpand::full`: expands `~` and environment variables in `s`. On a
/// failed variable lookup the error's variable name is returned. What the
/// expansion gives depends on the environment; the source shows only that text
/// without `$` that does not start with `~` comes back unchanged.
#[verifier::external_body]
pub(crate) fn shell_expand(s: &str) -> (r: Result<String, String>)
    ensures
        expansion_free(s@) ==> r is Ok && r->Ok_0@ == s@,
{
    match shellexpand::full(s) {
        Ok(t) => Ok(t.into_owned()),
        Err(e) => Err(e.var_name),
    }
}

} // verus!
