use vstd::prelude::*;
use vstd::string::*;
use crate::app::MenuItem;
use crate::utils::system::SystemUser;
use crate::utils::text::{
    lemma_run_len, run_len, words, byte_len, byte_len_at_most, char_width, chars_of, char_is_whitespace, is_whitespace, push_char,
    str_upper, string_of, to_uppercase, utf8_width,
};

verus! {

/// A user as the greeter keeps it.
pub struct UserData {
    /// The system login username.
    pub user_name: String,
    /// The user's display name or real name.
    pub real_name: String,
    /// The user's password (handled dynamically by greetd, usually empty).
    pub password: String,
}

/// A user as the user list shows it.
pub struct User {
    /// The login name.
    pub user_name: String,
    /// The name shown.
    pub real_name: String,
    /// The letters shown in place of an avatar.
    pub initials: String,
}

/// The first character of each whitespace-separated word of `s`, given
/// whether the character before `s` was whitespace.
pub open spec fn initials_from(s: Seq<char>, prev_ws: bool) -> Seq<char>
    decreases s.len(),
{
    if s.len() == 0 {
        Seq::empty()
    } else {
        let c = s[0];
        let rest = initials_from(s.drop_first(), char_is_whitespace(c));
        if !char_is_whitespace(c) && prev_ws {
            seq![c] + rest
        } else {
            rest
        }
    }
}

/// The first character of each whitespace-separated word of `s`.
pub open spec fn word_initials(s: Seq<char>) -> Seq<char> {
    initials_from(s, true)
}

/// The name shown for a user: the real name, or the login name when the
/// real name is empty.
pub open spec fn display_name_spec(user_name: Seq<char>, real_name: Seq<char>) -> Seq<char> {
    if real_name.len() == 0 {
        user_name
    } else {
        real_name
    }
}

/// Whether the initials are taken from the first two bytes of the name:
/// the uppercase word initials are at most one byte long and the name is
/// longer than one byte.
pub open spec fn takes_prefix(d: Seq<char>) -> bool {
    byte_len(str_upper(word_initials(d))) <= 1 && byte_len(d) > 1
}

/// Whether byte 2 of the name is a character boundary, so that its first
/// two bytes form whole characters.
pub open spec fn two_byte_prefix_ok(d: Seq<char>) -> bool {
    d.len() > 0 && (utf8_width(d[0]) == 2 || (utf8_width(d[0]) == 1 && d.len() > 1 && utf8_width(d[1]) == 1))
}

/// The characters of the first two bytes of the name.
pub open spec fn two_byte_prefix(d: Seq<char>) -> Seq<char> {
    if utf8_width(d[0]) == 2 {
        d.take(1)
    } else {
        d.take(2)
    }
}

/// Whether computing the initials of `d` slices it inside a character
/// (which panics).
pub open spec fn initials_panic(d: Seq<char>) -> bool {
    takes_prefix(d) && !two_byte_prefix_ok(d)
}

/// The initials of a shown name: the uppercase first letters of its
/// words, or, when those are at most one byte, the uppercase first two
/// bytes of the name (when it is longer than one byte).
pub open spec fn initials_spec(d: Seq<char>) -> Seq<char> {
    if takes_prefix(d) {
        str_upper(two_byte_prefix(d))
    } else {
        str_upper(word_initials(d))
    }
}

/// The first character of each word of `ws`.
pub open spec fn first_letters(ws: Seq<Seq<char>>) -> Seq<char> {
    ws.map_values(|w: Seq<char>| w[0])
}

/// Inside a word, the initials start again after the word.
proof fn lemma_initials_inside_word(s: Seq<char>)
    ensures
        initials_from(s, false) == initials_from(s.skip(run_len(s) as int), true),
    decreases s.len(),
{
    lemma_run_len(s);
    if s.len() == 0 {
    } else if char_is_whitespace(s[0]) {
        assert(s.skip(0) =~= s);
    } else {
        let t = s.drop_first();
        lemma_initials_inside_word(t);
        lemma_run_len(t);
        assert(s.skip(run_len(s) as int) =~= t.skip(run_len(t) as int));
    }
}

/// Law: the word initials of a name are the first characters of its
/// whitespace-separated words (`str::split_whitespace`), in order.
pub proof fn lemma_word_initials_are_first_letters(s: Seq<char>)
    ensures
        word_initials(s) == first_letters(words(s)),
    decreases s.len(),
{
    lemma_run_len(s);
    if s.len() == 0 {
        assert(first_letters(words(s)) =~= Seq::<char>::empty());
    } else if char_is_whitespace(s[0]) {
        lemma_word_initials_are_first_letters(s.drop_first());
    } else {
        let t = s.drop_first();
        let rest = s.skip(run_len(s) as int);
        lemma_run_len(t);
        lemma_initials_inside_word(t);
        assert(rest =~= t.skip(run_len(t) as int));
        lemma_word_initials_are_first_letters(rest);
        let w = s.take(run_len(s) as int);
        assert(words(s) == seq![w] + words(rest));
        assert(first_letters(seq![w] + words(rest)) =~= seq![w[0]] + first_letters(words(rest)));
        assert(w[0] == s[0]);
    }
}

/// Law: the initials of a shown name are always an uppercase text: the
/// uppercased word initials when the name's first two bytes are not used,
/// else its uppercased first two bytes.
pub proof fn lemma_initials_are_uppercased(d: Seq<char>)
    ensures
        !takes_prefix(d) ==> initials_spec(d) == str_upper(first_letters(words(d))),
        takes_prefix(d) ==> initials_spec(d) == str_upper(two_byte_prefix(d)),
        exists|x: Seq<char>| initials_spec(d) == str_upper(x),
{
    lemma_word_initials_are_first_letters(d);
    if takes_prefix(d) {
        assert(initials_spec(d) == str_upper(two_byte_prefix(d)));
    } else {
        assert(initials_spec(d) == str_upper(word_initials(d)));
    }
}

/// Handles user discovery and UI data preparation for authentication.
pub struct Auth;

impl Auth {
    /// Converts raw system users into the `UserData` format.
    pub fn convert_system_users(system_users: Vec<SystemUser>) -> (r: Vec<UserData>)
        ensures
            r@.len() == system_users@.len(),
            forall|k: int| 0 <= k < r@.len() ==> {
                &&& (#[trigger] r@[k]).user_name@ == system_users@[k].user_name@
                &&& r@[k].real_name@ == system_users@[k].real_name@
                &&& r@[k].password@ == Seq::<char>::empty()
            },
    {
        let mut r: Vec<UserData> = Vec::new();
        let mut i: usize = 0;
        while i < system_users.len()
            invariant
                0 <= i <= system_users@.len(),
                r@.len() == i,
                forall|k: int| 0 <= k < i ==> {
                    &&& (#[trigger] r@[k]).user_name@ == system_users@[k].user_name@
                    &&& r@[k].real_name@ == system_users@[k].real_name@
                    &&& r@[k].password@ == Seq::<char>::empty()
                },
            decreases system_users@.len() - i,
        {
            let u = &system_users[i];
            r.push(UserData {
                user_name: u.user_name.clone(),
                real_name: u.real_name.clone(),
                password: String::new(),
            });
            i += 1;
        }
        r
    }

    /// The name shown for a user.
    pub fn display_name(u: &UserData) -> (r: String)
        ensures
            r@ == display_name_spec(u.user_name@, u.real_name@),
    {
        if u.real_name.unicode_len() == 0 {
            u.user_name.clone()
        } else {
            u.real_name.clone()
        }
    }

    /// The first character of each whitespace-separated word of `s`.
    pub fn word_initials(s: &str) -> (r: String)
        ensures
            r@ == word_initials(s@),
    {
        let v = chars_of(s);
        let mut out = String::new();
        let mut prev_ws = true;
        let mut i: usize = 0;
        assert(v@.skip(0) =~= v@);
        while i < v.len()
            invariant
                v@ == s@,
                0 <= i <= v@.len(),
                word_initials(v@) == out@ + initials_from(v@.skip(i as int), prev_ws),
            decreases v@.len() - i,
        {
            let c = v[i];
            let ws = is_whitespace(c);
            proof {
                assert(v@.skip(i as int)[0] == c);
                assert(v@.skip(i as int).drop_first() =~= v@.skip(i + 1));
            }
            if !ws && prev_ws {
                push_char(&mut out, c);
                proof {
                    assert(out@ + initials_from(v@.skip(i + 1), ws) =~= out@.drop_last() + (seq![c] + initials_from(
                        v@.skip(i + 1),
                        ws,
                    )));
                }
            }
            prev_ws = ws;
            i += 1;
        }
        proof {
            assert(v@.skip(i as int) =~= Seq::<char>::empty());
            assert(out@ + Seq::<char>::empty() =~= out@);
        }
        out
    }

    /// Whether computing the initials of the shown name `display` would
    /// slice it inside a character.
    pub fn initials_panics(display: &str) -> (r: bool)
        ensures
            r == initials_panic(display@),
    {
        let raw = Auth::word_initials(display);
        let upper = to_uppercase(raw.as_str());
        if byte_len_at_most(upper.as_str(), 1) && !byte_len_at_most(display, 1) {
            let v = chars_of(display);
            proof {
                if v@.len() == 0 {
                    assert(byte_len(v@) == 0);
                }
            }
            let w0 = char_width(v[0]);
            if w0 == 2 {
                false
            } else if w0 == 1 && v.len() > 1 && char_width(v[1]) == 1 {
                false
            } else {
                true
            }
        } else {
            false
        }
    }

    /// The initials shown for a user whose shown name is `display`.
    pub fn initials(display: &str) -> (r: String)
        requires
            !initials_panic(display@),
        ensures
            r@ == initials_spec(display@),
            !takes_prefix(display@) ==> r@ == str_upper(word_initials(display@)),
            takes_prefix(display@) ==> r@ == str_upper(two_byte_prefix(display@)),
    {
        let raw = Auth::word_initials(display);
        let upper = to_uppercase(raw.as_str());
        if byte_len_at_most(upper.as_str(), 1) && !byte_len_at_most(display, 1) {
            let v = chars_of(display);
            let end = if char_width(v[0]) == 2 {
                1
            } else {
                2
            };
            let prefix = string_of(&v, 0, end);
            proof {
                assert(v@.subrange(0, end as int) =~= two_byte_prefix(display@));
            }
            to_uppercase(prefix.as_str())
        } else {
            upper
        }
    }

    /// The user list and its menu for `users_data`: each user shown by its
    /// display name with its initials; `None` when the initials of some
    /// user cannot be computed (their computation would slice a name
    /// inside a character).
    pub fn prepare_ui_models(users_data: &Vec<UserData>) -> (r: Option<(Vec<User>, Vec<MenuItem>)>)
        ensures
            r is None <==> exists|k: int|
                0 <= k < users_data@.len() && initials_panic(
                    display_name_spec(#[trigger] users_data@[k].user_name@, users_data@[k].real_name@),
                ),
            r matches Some((users, menu)) ==> {
                &&& users@.len() == users_data@.len()
                &&& menu@.len() == users_data@.len()
                &&& forall|k: int| 0 <= k < users@.len() ==> {
                    let d = display_name_spec(users_data@[k].user_name@, users_data@[k].real_name@);
                    &&& (#[trigger] users@[k]).user_name@ == users_data@[k].user_name@
                    &&& users@[k].real_name@ == d
                    &&& users@[k].initials@ == initials_spec(d)
                    &&& menu@[k].text@ == d
                    &&& menu@[k].enabled
                }
            },
    {
        let mut users: Vec<User> = Vec::new();
        let mut menu: Vec<MenuItem> = Vec::new();
        let mut i: usize = 0;
        while i < users_data.len()
            invariant
                0 <= i <= users_data@.len(),
                users@.len() == i,
                menu@.len() == i,
                forall|k: int| 0 <= k < i ==> !initials_panic(
                    display_name_spec(#[trigger] users_data@[k].user_name@, users_data@[k].real_name@),
                ),
                forall|k: int| 0 <= k < i ==> {
                    let d = display_name_spec(users_data@[k].user_name@, users_data@[k].real_name@);
                    &&& (#[trigger] users@[k]).user_name@ == users_data@[k].user_name@
                    &&& users@[k].real_name@ == d
                    &&& users@[k].initials@ == initials_spec(d)
                    &&& menu@[k].text@ == d
                    &&& menu@[k].enabled
                },
            decreases users_data@.len() - i,
        {
            let u = &users_data[i];
            let display = Auth::display_name(u);
            if Auth::initials_panics(display.as_str()) {
                return None;
            }
            let initials = Auth::initials(display.as_str());
            let text = display.clone();
            users.push(User { user_name: u.user_name.clone(), real_name: display, initials });
            menu.push(MenuItem { text, enabled: true });
            i += 1;
        }
        Some((users, menu))
    }
}

} // verus!
