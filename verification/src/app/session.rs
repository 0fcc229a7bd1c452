use vstd::prelude::*;
use vstd::string::*;
use crate::app::MenuItem;
use crate::utils::i18n::{gettext, no_nul};
use crate::utils::system::SystemSession;

verus! {

/// A session as the session list shows it.
pub struct Compositor {
    /// The name shown.
    pub name: String,
    /// The command that starts it.
    pub exec_cmd: String,
}

/// Handles the discovery and UI binding of available desktop sessions.
pub struct Session;

impl Session {
    /// Converts raw system sessions into the entries of the session list.
    pub fn convert_system_sessions(system_sessions: Vec<SystemSession>) -> (r: Vec<Compositor>)
        ensures
            r@.len() == system_sessions@.len(),
            forall|k: int| 0 <= k < r@.len() ==> (#[trigger] r@[k]).name@ == system_sessions@[k].name@
                && r@[k].exec_cmd@ == system_sessions@[k].exec_cmd@,
    {
        let mut r: Vec<Compositor> = Vec::new();
        let mut i: usize = 0;
        while i < system_sessions.len()
            invariant
                0 <= i <= system_sessions@.len(),
                r@.len() == i,
                forall|k: int| 0 <= k < i ==> (#[trigger] r@[k]).name@ == system_sessions@[k].name@
                    && r@[k].exec_cmd@ == system_sessions@[k].exec_cmd@,
            decreases system_sessions@.len() - i,
        {
            let s = &system_sessions[i];
            r.push(Compositor { name: s.name.clone(), exec_cmd: s.exec_cmd.clone() });
            i += 1;
        }
        r
    }

    /// The session list and its menu: one enabled entry per session; with
    /// no sessions, one disabled menu entry reading `no_sessions_label` and
    /// one session named `none_label` with an empty command.
    pub fn prepare_ui_models(
        compositors: &Vec<Compositor>,
        no_sessions_label: String,
        none_label: String,
    ) -> (r: (Vec<Compositor>, Vec<MenuItem>))
        ensures
            compositors@.len() == 0 ==> {
                &&& r.0@.len() == 1
                &&& r.0@[0].name@ == none_label@
                &&& r.0@[0].exec_cmd@ == Seq::<char>::empty()
                &&& r.1@.len() == 1
                &&& r.1@[0].text@ == no_sessions_label@
                &&& !r.1@[0].enabled
            },
            compositors@.len() > 0 ==> {
                &&& r.0@.len() == compositors@.len()
                &&& r.1@.len() == compositors@.len()
                &&& forall|k: int| 0 <= k < compositors@.len() ==> {
                    &&& (#[trigger] r.0@[k]).name@ == compositors@[k].name@
                    &&& r.0@[k].exec_cmd@ == compositors@[k].exec_cmd@
                    &&& r.1@[k].text@ == compositors@[k].name@
                    &&& r.1@[k].enabled
                }
            },
    {
        if compositors.len() == 0 {
            let mut comps: Vec<Compositor> = Vec::new();
            comps.push(Compositor { name: none_label, exec_cmd: String::new() });
            let mut menu: Vec<MenuItem> = Vec::new();
            menu.push(MenuItem { text: no_sessions_label, enabled: false });
            return (comps, menu);
        }
        let mut comps: Vec<Compositor> = Vec::new();
        let mut menu: Vec<MenuItem> = Vec::new();
        let mut i: usize = 0;
        while i < compositors.len()
            invariant
                0 <= i <= compositors@.len(),
                comps@.len() == i,
                menu@.len() == i,
                forall|k: int| 0 <= k < i ==> {
                    &&& (#[trigger] comps@[k]).name@ == compositors@[k].name@
                    &&& comps@[k].exec_cmd@ == compositors@[k].exec_cmd@
                    &&& menu@[k].text@ == compositors@[k].name@
                    &&& menu@[k].enabled
                },
            decreases compositors@.len() - i,
        {
            let c = &compositors[i];
            comps.push(Compositor { name: c.name.clone(), exec_cmd: c.exec_cmd.clone() });
            menu.push(MenuItem { text: c.name.clone(), enabled: true });
            i += 1;
        }
        (comps, menu)
    }

    /// The session list and menu for the discovered sessions, with the
    /// placeholder texts looked up with `lookup`: the texts it gives for
    /// "No sessions found" (the menu entry) and "None" (the session name).
    pub fn init_with<F: Fn(&'static str) -> String>(system_sessions: Vec<SystemSession>, lookup: F) -> (r: (
        Vec<Compositor>,
        Vec<MenuItem>,
    ))
        requires
            forall|s: &'static str| no_nul(s@) ==> call_requires(lookup, (s,)),
        ensures
            system_sessions@.len() == 0 ==> exists|nid: &'static str, n: String, eid: &'static str, e: String|
                #![trigger call_ensures(lookup, (nid,), n), call_ensures(lookup, (eid,), e)]
                {
                    &&& nid@ == "No sessions found"@
                    &&& call_ensures(lookup, (nid,), n)
                    &&& eid@ == "None"@
                    &&& call_ensures(lookup, (eid,), e)
                    &&& r.0@.len() == 1
                    &&& r.0@[0].name@ == e@
                    &&& r.0@[0].exec_cmd@ == Seq::<char>::empty()
                    &&& r.1@.len() == 1
                    &&& r.1@[0].text@ == n@
                    &&& !r.1@[0].enabled
                },
            system_sessions@.len() > 0 ==> {
                &&& r.0@.len() == system_sessions@.len()
                &&& r.1@.len() == system_sessions@.len()
                &&& forall|k: int| 0 <= k < system_sessions@.len() ==> {
                    &&& (#[trigger] r.0@[k]).name@ == system_sessions@[k].name@
                    &&& r.0@[k].exec_cmd@ == system_sessions@[k].exec_cmd@
                    &&& r.1@[k].text@ == system_sessions@[k].name@
                    &&& r.1@[k].enabled
                }
            },
    {
        let compositors = Session::convert_system_sessions(system_sessions);
        proof {
            reveal_strlit("No sessions found");
            reveal_strlit("None");
        }
        let nid = "No sessions found";
        let eid = "None";
        assert(no_nul(nid@) && no_nul(eid@));
        let no_sessions = lookup(nid);
        let none = lookup(eid);
        let ghost n = no_sessions;
        let ghost e = none;
        let r = Session::prepare_ui_models(&compositors, no_sessions, none);
        proof {
            assert(call_ensures(lookup, (nid,), n));
            assert(call_ensures(lookup, (eid,), e));
        }
        r
    }

    /// The session list and menu for the discovered sessions, with the
    /// placeholder texts ("No sessions found", "None") looked up in the
    /// message catalogue (`init_with` and `gettext`).
    pub fn init(system_sessions: Vec<SystemSession>) -> (r: (Vec<Compositor>, Vec<MenuItem>))
        ensures
            system_sessions@.len() == 0 ==> {
                &&& r.0@.len() == 1
                &&& r.0@[0].exec_cmd@ == Seq::<char>::empty()
                &&& r.1@.len() == 1
                &&& !r.1@[0].enabled
            },
            system_sessions@.len() > 0 ==> {
                &&& r.0@.len() == system_sessions@.len()
                &&& r.1@.len() == system_sessions@.len()
                &&& forall|k: int| 0 <= k < system_sessions@.len() ==> {
                    &&& (#[trigger] r.0@[k]).name@ == system_sessions@[k].name@
                    &&& r.0@[k].exec_cmd@ == system_sessions@[k].exec_cmd@
                    &&& r.1@[k].text@ == system_sessions@[k].name@
                    &&& r.1@[k].enabled
                }
            },
    {
        let lookup = |s: &'static str| -> (t: String)
            requires
                no_nul(s@),
            { gettext(s) };
        Session::init_with(system_sessions, lookup)
    }
}

} // verus!
