pub mod cache;
pub mod client;
pub mod i18n;
pub mod image;
pub mod logging;
pub mod order;
pub mod paths;
pub mod shell;
pub mod system;
pub mod systems;
pub mod text;
