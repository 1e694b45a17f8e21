pub mod api;
pub mod cli;
pub mod sync;
pub mod text;
pub mod files;
pub mod order;
pub mod digest;
pub mod lock;
pub mod planning;
