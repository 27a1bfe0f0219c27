//! The synchronisation with Google Drive.
pub mod backoff;
pub mod files;
pub mod oauth;
pub mod state;
pub mod store;
pub mod sync;
pub mod token;
