use vstd::prelude::*;
use vstd::string::*;
use crate::config::opt_view;
use crate::utils::order::{is_sorted_dedup, is_stable_sort, sort_by_name, Named};
use crate::utils::system::{env_lines, sessions_view};
use crate::utils::text::lines;
use crate::utils::text::path_join;

pub use crate::utils::system::{parse_desktop_file, SystemSession};

verus! {

/// A user account as the first user discovery kept it.
pub struct SystemUser {
    /// The login name.
    pub login: String,
    /// The name shown for the user.
    pub pretty_name: String,
    /// The home directory.
    pub home_dir: String,
    /// The avatar image, if the account has one.
    pub avatar_path: Option<String>,
}

impl Named for SystemUser {
    open spec fn name_view(&self) -> Seq<char> {
        self.login@
    }

    fn name_str(&self) -> (r: &str) {
        self.login.as_str()
    }
}

/// A user as AccountsService describes it.
pub struct AccountRecord {
    /// The numeric user id (0 when it could not be read).
    pub uid: u64,
    pub user_name: String,
    pub real_name: String,
    pub home_directory: String,
    /// The icon file (`None` when it could not be read).
    pub icon_file: Option<String>,
}

/// Whether an account is an ordinary one: `1000 <= uid < 65534`.
pub open spec fn is_ordinary(uid: u64) -> bool {
    1000 <= uid && uid < 65534
}

/// The user of an ordinary account: an empty icon path means no avatar.
pub open spec fn user_of(a: AccountRecord, u: SystemUser) -> bool {
    &&& u.login@ == a.user_name@
    &&& u.pretty_name@ == a.real_name@
    &&& u.home_dir@ == a.home_directory@
    &&& opt_view(u.avatar_path) == match opt_view(a.icon_file) {
        Some(p) => if p.len() > 0 {
            Some(p)
        } else {
            None
        },
        None => None,
    }
}

/// The ordinary accounts of `s`, in order.
pub open spec fn ordinary(s: Seq<AccountRecord>) -> Seq<AccountRecord>
    decreases s.len(),
{
    if s.len() == 0 {
        Seq::empty()
    } else if is_ordinary(s.last().uid) {
        ordinary(s.drop_last()).push(s.last())
    } else {
        ordinary(s.drop_last())
    }
}

/// The users of the ordinary accounts AccountsService lists, in order of
/// login name.
pub fn get_users(accounts: Vec<AccountRecord>) -> (r: Vec<SystemUser>)
    ensures
        exists|sel: Seq<SystemUser>, p: Seq<int>|
            {
                &&& sel.len() == ordinary(accounts@).len()
                &&& forall|k: int| 0 <= k < sel.len() ==> user_of(ordinary(accounts@)[k], #[trigger] sel[k])
                &&& is_stable_sort(r@, sel, p)
            },
{
    let mut users: Vec<SystemUser> = Vec::new();
    let mut i: usize = 0;
    while i < accounts.len()
        invariant
            0 <= i <= accounts@.len(),
            users@.len() == ordinary(accounts@.take(i as int)).len(),
            forall|k: int| 0 <= k < users@.len() ==> user_of(ordinary(accounts@.take(i as int))[k], #[trigger] users@[k]),
        decreases accounts@.len() - i,
    {
        let a = &accounts[i];
        proof {
            assert(accounts@.take(i + 1).drop_last() =~= accounts@.take(i as int));
            assert(accounts@.take(i + 1).last() == accounts@[i as int]);
        }
        if a.uid >= 1000 && a.uid < 65534 {
            let avatar_path = match &a.icon_file {
                Some(p) => if p.unicode_len() > 0 {
                    Some(p.clone())
                } else {
                    None
                },
                None => None,
            };
            users.push(
                SystemUser {
                    login: a.user_name.clone(),
                    pretty_name: a.real_name.clone(),
                    home_dir: a.home_directory.clone(),
                    avatar_path,
                },
            );
        }
        i += 1;
    }
    proof {
        assert(accounts@.take(accounts@.len() as int) =~= accounts@);
    }
    sort_by_name(users)
}

/// The sessions: those read from session files, then those of greetd's
/// environments file, ordered by name with the first of each name kept.
pub fn get_sessions(scanned: Vec<SystemSession>, environments: Option<String>) -> (r: Vec<SystemSession>)
    ensures
        exists|envs: Seq<SystemSession>, p: Seq<int>|
            {
                &&& sessions_view(envs) == match opt_view(environments) {
                    Some(c) => env_lines(lines(c)).map_values(|l: Seq<char>| (l, l)),
                    None => Seq::empty(),
                }
                &&& is_sorted_dedup(r@, scanned@ + envs, p)
            },
{
    SystemSession::all(scanned, environments)
}

/// Where the state file lives for the user `uid`: in the system cache
/// directory for root, else in `.cache` under the working directory.
pub fn get_state_path(uid: u32) -> (r: String)
    ensures
        r@ == if uid == 0 {
            "/var/cache/mdgreet/state.json"@
        } else {
            ".cache/state.json"@
        },
{
    let base = if uid == 0 {
        "/var/cache/mdgreet"
    } else {
        ".cache"
    };
    let r = path_join(base, "state.json");
    proof {
        reveal_strlit("/var/cache/mdgreet");
        reveal_strlit(".cache");
        reveal_strlit("state.json");
        reveal_strlit("/var/cache/mdgreet/state.json");
        reveal_strlit(".cache/state.json");
        if uid == 0 {
            assert(r@ =~= "/var/cache/mdgreet/state.json"@);
        } else {
            assert(r@ =~= ".cache/state.json"@);
        }
    }
    r
}

} // verus!
