use vstd::string::*;
use vstd::prelude::*;
use crate::config::opt_view;
use crate::utils::paths::SYSTEM_LOCALE_DIR;

verus! {

/// Whether `s` holds no NUL character.
pub open spec fn no_nul(s: Seq<char>) -> bool {
    forall|i: int| 0 <= i < s.len() ==> s[i] != '\0'
}

/// `gettextrs::gettext`: the translation of `msgid` in the text domain
/// and locale the process has set up. What comes back depends on the
/// environment and the installed translation files, so nothing is stated
/// of it. The call panics on a message id with a NUL character, which the
/// `requires` rules out, and on a translation that is not valid UTF-8:
/// the installed catalogues must be UTF-8 (the text domain is bound with
/// the UTF-8 codeset).
#[verifier::external_body]
pub(crate) fn gettext(msgid: &str) -> String
    requires
        no_nul(msgid@),
{
    gettextrs::gettext(msgid)
}

/// The directory translations are read from: `MDGREET_LOCALES_DIR` when
/// set, else the development directory when it exists, else the system
/// locale directory.
pub fn locales_dir(env_dir: Option<String>, dev_dir: &str, dev_exists: bool) -> (r: String)
    ensures
        r@ == match opt_view(env_dir) {
            Some(d) => d,
            None => if dev_exists {
                dev_dir@
            } else {
                "/usr/share/locale"@
            },
        },
{
    match env_dir {
        Some(d) => d,
        None => if dev_exists {
            String::from_str(dev_dir)
        } else {
            String::from_str(SYSTEM_LOCALE_DIR)
        },
    }
}

} // verus!
