use vstd::prelude::*;

verus! {

/// The views of a list of strings.
pub open spec fn strings_view(v: Seq<String>) -> Seq<Seq<char>> {
    v.map_values(|s: String| s@)
}

/// How `shlex::split` splits `s` into words with POSIX shell quoting
/// rules; `None` when the quoting is malformed.
pub uninterp spec fn shell_words(s: Seq<char>) -> Option<Seq<Seq<char>>>;

/// `shlex::split`: the words of a command line under POSIX shell quoting
/// rules, or `None` for malformed quoting (such as an unclosed quote).
#[verifier::external_body]
pub(crate) fn shlex_split(s: &str) -> (r: Option<Vec<String>>)
    ensures
        match r {
            Some(v) => shell_words(s@) == Some(strings_view(v@)),
            None => shell_words(s@) is None,
        },
{
    shlex::split(s)
}

} // verus!
