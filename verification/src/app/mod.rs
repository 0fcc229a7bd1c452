pub mod appearance;
pub mod auth;
pub mod clock;
pub mod login;
pub mod power;
pub mod session;
pub mod state;
pub mod theme;

use vstd::prelude::*;

verus! {

/// One entry of a drop-down menu: its text and whether it can be chosen.
pub struct MenuItem {
    pub text: String,
    pub enabled: bool,
}

} // verus!
