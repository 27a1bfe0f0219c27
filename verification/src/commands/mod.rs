//! The commands of the user interface. Each is cut where it waits for a remote service: one
//! function says what to ask for, another what follows from the answer.
pub mod folders;
pub mod gdrive;
pub mod listing;
pub mod moving;
pub mod retry;
pub mod streaming;
pub mod transfer;
