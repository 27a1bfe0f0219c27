//! What the user interface needs to reach the streaming server.
use vstd::prelude::*;

use crate::number;
use crate::random;

verus! {

/// The token and the port of the running server.
#[derive(Debug, PartialEq)]
pub struct StreamConfig {
    pub token: String,
    pub port: u16,
}

/// What the user interface builds its stream addresses from.
#[derive(Debug, PartialEq)]
pub struct StreamInfo {
    pub token: String,
    pub base_url: String,
}

/// The token and the address of the server, for the user interface.
pub fn cmd_get_stream_info(config: &StreamConfig) -> (res: Result<StreamInfo, String>)
    ensures
        res matches Ok(info) && info.token@ == config.token@ && info.base_url@
            == "http://localhost:"@ + number::decimal(config.port as nat),
{
    let mut base_url = "http://localhost:".to_owned();
    let port = number::write_decimal(config.port as u128);
    base_url.append(port.as_str());
    Ok(StreamInfo { token: config.token.clone(), base_url })
}

/// Puts another token in place of the one there is.
pub fn set_stream_token(config: &mut StreamConfig, token: String)
    ensures
        final(config).token@ == token@,
        final(config).port == old(config).port,
{
    config.token = token;
}

/// Replaces the token with a fresh one, so that earlier addresses stop working.
pub fn rotate_stream_token(config: &mut StreamConfig)
    ensures
        random::is_hex_of(final(config).token@, 16),
        final(config).port == old(config).port,
{
    set_stream_token(config, crate::generate_stream_token());
}

} // verus!
