use vstd::prelude::*;
use crate::app::auth::UserData;
use crate::app::session::Compositor;
use crate::utils::cache::{find_key, lemma_put_then_find, lru_wf, put_entries, touch, Cache, Entry};
use crate::utils::text::eq_str;

verus! {

/// `i` is the first index of a session named `name`.
pub open spec fn is_first_compositor(cs: Seq<Compositor>, name: Seq<char>, i: int) -> bool {
    0 <= i < cs.len() && cs[i].name@ == name && forall|j: int| 0 <= j < i ==> (#[trigger] cs[j]).name@ != name
}

/// No session is named `name`.
pub open spec fn no_compositor(cs: Seq<Compositor>, name: Seq<char>) -> bool {
    forall|j: int| 0 <= j < cs.len() ==> (#[trigger] cs[j]).name@ != name
}

/// The selection for a session name: the first session of that name.
pub open spec fn compositor_selection(cs: Seq<Compositor>, name: Seq<char>, r: Option<usize>) -> bool {
    match r {
        Some(i) => is_first_compositor(cs, name, i as int),
        None => no_compositor(cs, name),
    }
}

/// `i` is the first index of a user whose login is `name`.
pub open spec fn is_first_user(us: Seq<UserData>, name: Seq<char>, i: int) -> bool {
    0 <= i < us.len() && us[i].user_name@ == name && forall|j: int| 0 <= j < i ==> (#[trigger] us[j]).user_name@ != name
}

/// No user's login is `name`.
pub open spec fn no_user(us: Seq<UserData>, name: Seq<char>) -> bool {
    forall|j: int| 0 <= j < us.len() ==> (#[trigger] us[j]).user_name@ != name
}

/// What recalling the last session of `user` does to the cache and
/// which session it selects: the remembered session (the entry becomes
/// the most recently used), or nothing.
pub open spec fn recall_session(
    old_cache: Cache,
    new_cache: Cache,
    cs: Seq<Compositor>,
    user: Seq<char>,
    r: Option<usize>,
) -> bool {
    let e = old_cache.user_to_last_sess@;
    let i = find_key(e, user);
    &&& new_cache.last_user == old_cache.last_user
    &&& new_cache.path_view() == old_cache.path_view()
    &&& new_cache.user_to_last_sess.cap() == old_cache.user_to_last_sess.cap()
    &&& if i >= 0 {
        &&& new_cache.user_to_last_sess@ == touch(e, i)
        &&& compositor_selection(cs, e[i].1, r)
    } else {
        &&& new_cache.user_to_last_sess@ == e
        &&& r is None
    }
}

/// Orchestrates the synchronization between the persistent cache and the UI state.
pub struct State;

impl State {
    /// The index of the first session named `target_session`, if any.
    pub fn set_compositor_by_name(compositors: &Vec<Compositor>, target_session: &str) -> (r: Option<usize>)
        ensures
            compositor_selection(compositors@, target_session@, r),
    {
        let mut i: usize = 0;
        while i < compositors.len()
            invariant
                0 <= i <= compositors@.len(),
                forall|j: int| 0 <= j < i ==> (#[trigger] compositors@[j]).name@ != target_session@,
            decreases compositors@.len() - i,
        {
            if eq_str(compositors[i].name.as_str(), target_session) {
                return Some(i);
            }
            i += 1;
        }
        None
    }

    /// The index of the first user whose login is `name`, if any.
    fn find_user(users: &Vec<UserData>, name: &str) -> (r: Option<usize>)
        ensures
            match r {
                Some(i) => is_first_user(users@, name@, i as int),
                None => no_user(users@, name@),
            },
    {
        let mut i: usize = 0;
        while i < users.len()
            invariant
                0 <= i <= users@.len(),
                forall|j: int| 0 <= j < i ==> (#[trigger] users@[j]).user_name@ != name@,
            decreases users@.len() - i,
        {
            if eq_str(users[i].user_name.as_str(), name) {
                return Some(i);
            }
            i += 1;
        }
        None
    }

    /// The session remembered for `user`, selected among `compositors`.
    fn recall(cache: &mut Cache, compositors: &Vec<Compositor>, user: &str) -> (r: Option<usize>)
        ensures
            recall_session(*old(cache), *final(cache), compositors@, user@, r),
    {
        match cache.get_last_session(user) {
            Some(last_sess) => State::set_compositor_by_name(compositors, last_sess.as_str()),
            None => None,
        }
    }

    /// The selection restored at start-up: the last user who logged in,
    /// when still listed, and that user's remembered session, when still
    /// listed; recalling the session makes it the most recently used entry.
    pub fn init(cache: &mut Cache, users_data: &Vec<UserData>, compositors: &Vec<Compositor>) -> (r: (
        Option<usize>,
        Option<usize>,
    ))
        ensures
            match old(cache).last_user {
                Some(u) => match r.0 {
                    Some(p) => is_first_user(users_data@, u@, p as int) && recall_session(
                        *old(cache),
                        *final(cache),
                        compositors@,
                        u@,
                        r.1,
                    ),
                    None => no_user(users_data@, u@) && r.1 is None && *final(cache) == *old(cache),
                },
                None => r == (None::<usize>, None::<usize>) && *final(cache) == *old(cache),
            },
    {
        let last_user = match &cache.last_user {
            Some(u) => u.clone(),
            None => {
                return (None, None);
            },
        };
        match State::find_user(users_data, last_user.as_str()) {
            Some(pos) => {
                let comp = State::recall(cache, compositors, last_user.as_str());
                (Some(pos), comp)
            },
            None => (None, None),
        }
    }

    /// The session to select when the user at index `idx` is chosen: the
    /// one remembered for that user, if any; nothing for an index outside
    /// the list.
    pub fn on_user_selected(
        cache: &mut Cache,
        users_data: &Vec<UserData>,
        compositors: &Vec<Compositor>,
        idx: i32,
    ) -> (r: Option<usize>)
        ensures
            0 <= idx < users_data@.len() ==> recall_session(
                *old(cache),
                *final(cache),
                compositors@,
                users_data@[idx as int].user_name@,
                r,
            ),
            !(0 <= idx < users_data@.len()) ==> r is None && *final(cache) == *old(cache),
    {
        if idx < 0 {
            return None;
        }
        let i = idx as usize;
        if i >= users_data.len() {
            return None;
        }
        State::recall(cache, compositors, users_data[i].user_name.as_str())
    }
}

/// Law (the greeter remembers the last session): once a login of `user`
/// into the session named `session` was recorded, recalling the session
/// of `user` selects the first listed session of that name (or none when
/// no listed session has it), and leaves the cache as it was.
pub proof fn lemma_recorded_session_is_recalled(
    before: Seq<Entry>,
    cap: nat,
    recorded: Cache,
    after: Cache,
    cs: Seq<Compositor>,
    user: Seq<char>,
    session: Seq<char>,
    r: Option<usize>,
)
    requires
        lru_wf(before, cap),
        recorded.user_to_last_sess@ == put_entries(before, cap, user, session),
        recall_session(recorded, after, cs, user, r),
    ensures
        compositor_selection(cs, session, r),
        after.user_to_last_sess@ == recorded.user_to_last_sess@,
{
    lemma_put_then_find(before, cap, user, session);
    let e = recorded.user_to_last_sess@;
    assert(touch(e, 0) =~= e);
}

} // verus!
