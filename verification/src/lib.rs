pub mod text;
pub mod change;
pub mod engine;
pub mod digest;
pub mod snapshot;
pub mod models;
pub mod templates;
pub mod dialogs;
pub mod colors;
pub mod roadmap;
pub mod transport;
pub mod keys;
pub mod store;
