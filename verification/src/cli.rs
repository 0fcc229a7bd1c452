use vstd::prelude::*;

verus! {

/// Command-line arguments for the application.
pub struct Args {
    /// Path to configuration file (TOML)
    pub config: Option<String>,
    /// Run in demo mode (no greetd connection)
    pub demo: bool,
}

} // verus!
