//! Random bytes, and the tokens made of them.
use vstd::prelude::*;

use crate::number;

verus! {

/// `rand::Rng::gen` on `rand::thread_rng`: one random byte.
///
/// Any byte may come back.
#[verifier::external_body]
fn random_byte() -> u8 {
    rand::Rng::gen(&mut rand::thread_rng())
}

/// `n` random bytes.
fn random_bytes(n: usize) -> (res: Vec<u8>)
    ensures
        res@.len() == n,
{
    let mut bytes: Vec<u8> = Vec::new();
    while bytes.len() < n
        invariant
            bytes@.len() <= n,
        decreases n - bytes@.len(),
    {
        bytes.push(random_byte());
    }
    bytes
}

/// `s` is the hexadecimal notation of `n` bytes.
pub open spec fn is_hex_of(s: Seq<char>, n: nat) -> bool {
    exists|bytes: Seq<u8>| bytes.len() == n && s == #[trigger] number::hex(bytes)
}

/// The hexadecimal notation of `n` random bytes.
pub fn random_hex(n: usize) -> (res: String)
    ensures
        is_hex_of(res@, n as nat),
{
    let bytes = random_bytes(n);
    number::write_hex(&bytes)
}

/// Hexadecimal notation of bytes has two digits for each, out of sixteen.
pub proof fn law_tokens_are_hexadecimal(s: Seq<char>, n: nat)
    requires
        is_hex_of(s, n),
    ensures
        s.len() == 2 * n,
        forall|i: int|
            0 <= i < s.len() ==> '0' <= #[trigger] s[i] <= '9' || 'a' <= s[i] <= 'f',
{
    let bytes = choose|bytes: Seq<u8>| bytes.len() == n && s == #[trigger] number::hex(bytes);
    assert forall|i: int| 0 <= i < s.len() implies '0' <= #[trigger] s[i] <= '9' || 'a' <= s[i]
        <= 'f' by {
        let b = bytes[i / 2];
        assert(s[i] == number::hex_digit(
            if i % 2 == 0 {
                b as nat / 16
            } else {
                b as nat % 16
            },
        ));
    }
}

} // verus!
