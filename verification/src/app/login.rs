use vstd::prelude::*;
use vstd::string::*;
use crate::app::session::Compositor;
use crate::config::opt_view;
use crate::utils::cache::{put_entries, Cache};
use crate::utils::i18n::{gettext, no_nul};
use crate::utils::shell::{shell_words, shlex_split, strings_view};

verus! {

/// Handles the authentication flow and session startup.
pub struct Login;

impl Login {
    /// The command and name of the session chosen at index `idx`; `None`
    /// for an index outside the list or a session without a command.
    pub fn selected_compositor(compositors: &Vec<Compositor>, idx: i32) -> (r: Option<(String, String)>)
        ensures
            (0 <= idx < compositors@.len() && compositors@[idx as int].exec_cmd@.len() > 0) ==> (r matches Some(
                (e, n),
            ) && e@ == compositors@[idx as int].exec_cmd@ && n@ == compositors@[idx as int].name@),
            !(0 <= idx < compositors@.len() && compositors@[idx as int].exec_cmd@.len() > 0) ==> r is None,
    {
        if idx < 0 {
            return None;
        }
        let i = idx as usize;
        if i >= compositors.len() {
            return None;
        }
        let c = &compositors[i];
        if c.exec_cmd.unicode_len() == 0 {
            return None;
        }
        Some((c.exec_cmd.clone(), c.name.clone()))
    }

    /// The session to log in to, or the text `lookup` gives for the
    /// message "No compositor selected".
    pub fn compositor_for_login_with<F: Fn(&'static str) -> String>(
        compositors: &Vec<Compositor>,
        idx: i32,
        lookup: F,
    ) -> (r: Result<(String, String), String>)
        requires
            forall|s: &'static str| no_nul(s@) ==> call_requires(lookup, (s,)),
        ensures
            (0 <= idx < compositors@.len() && compositors@[idx as int].exec_cmd@.len() > 0) ==> (r matches Ok(
                (e, n),
            ) && e@ == compositors@[idx as int].exec_cmd@ && n@ == compositors@[idx as int].name@),
            !(0 <= idx < compositors@.len() && compositors@[idx as int].exec_cmd@.len() > 0) ==> exists|
                id: &'static str,
                t: String,
            |
                #![trigger call_ensures(lookup, (id,), t)]
                id@ == "No compositor selected"@ && call_ensures(lookup, (id,), t) && r == Err::<(String, String), String>(t),
    {
        match Login::selected_compositor(compositors, idx) {
            Some(x) => Ok(x),
            None => {
                proof {
                    reveal_strlit("No compositor selected");
                }
                let id = "No compositor selected";
                assert(no_nul(id@));
                let t = lookup(id);
                proof {
                    assert(call_ensures(lookup, (id,), t));
                }
                Err(t)
            },
        }
    }

    /// The session to log in to, or the message "No compositor selected"
    /// looked up in the message catalogue (`compositor_for_login_with` and
    /// `gettext`).
    pub fn compositor_for_login(compositors: &Vec<Compositor>, idx: i32) -> (r: Result<(String, String), String>)
        ensures
            (0 <= idx < compositors@.len() && compositors@[idx as int].exec_cmd@.len() > 0) ==> (r matches Ok(
                (e, n),
            ) && e@ == compositors@[idx as int].exec_cmd@ && n@ == compositors@[idx as int].name@),
            !(0 <= idx < compositors@.len() && compositors@[idx as int].exec_cmd@.len() > 0) ==> r is Err,
    {
        let lookup = |s: &'static str| -> (t: String)
            requires
                no_nul(s@),
            { gettext(s) };
        Login::compositor_for_login_with(compositors, idx, lookup)
    }

    /// The command line that starts a session: the words of its command
    /// under shell quoting rules, or the whole command as one word when the
    /// quoting is malformed.
    pub fn session_command(exec_cmd: &str) -> (r: Vec<String>)
        ensures
            strings_view(r@) == match shell_words(exec_cmd@) {
                Some(ws) => ws,
                None => seq![exec_cmd@],
            },
    {
        match shlex_split(exec_cmd) {
            Some(v) => v,
            None => {
                let mut v: Vec<String> = Vec::new();
                v.push(String::from_str(exec_cmd));
                proof {
                    assert(strings_view(v@) =~= seq![exec_cmd@]);
                }
                v
            },
        }
    }

    /// Remembers a successful login: `username` as the last user and
    /// `session_name` as that user's session.
    pub fn record_login(cache: &mut Cache, username: &str, session_name: &str)
        ensures
            opt_view(final(cache).last_user) == Some(username@),
            final(cache).path_view() == old(cache).path_view(),
            final(cache).user_to_last_sess.cap() == old(cache).user_to_last_sess.cap(),
            final(cache).user_to_last_sess@ == put_entries(
                old(cache).user_to_last_sess@,
                old(cache).user_to_last_sess.cap(),
                username@,
                session_name@,
            ),
    {
        cache.set_last_user(String::from_str(username));
        cache.set_last_session(String::from_str(username), String::from_str(session_name));
    }
}

} // verus!
