use vstd::prelude::*;

pub mod bandwidth;
pub mod clock;
pub mod commands;
pub mod cursor;
pub mod models;
pub mod number;
pub mod pairs;
pub mod percent;
pub mod random;
pub mod server;
pub mod size;
pub mod text;

verus! {

/// The port that the streaming server asks for first.
pub const STREAM_PORT: u16 = 14201;

/// A fresh token for the streaming server: sixteen random bytes in hexadecimal notation.
pub fn generate_stream_token() -> (res: String)
    ensures
        random::is_hex_of(res@, 16),
{
    random::random_hex(16)
}

} // verus!
