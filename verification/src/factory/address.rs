//! The null address of a chain: the bech32 address with the chain's prefix
//! and a payload of twenty zero bytes, which nobody holds a key for.

use crate::text::opt_text;
use vstd::prelude::*;

verus! {

/// What `bech32::decode` finds in a text: the human-readable prefix, as it
/// is written there, and the payload bytes without the checksum. `None`
/// where it refuses the text.
pub uninterp spec fn bech32_decoded(text: Seq<char>) -> Option<(Seq<char>, Seq<u8>)>;

/// The lower-case text that `bech32::encode` with the `Bech32` checksum
/// makes of a prefix and payload bytes. `None` where `bech32::Hrp::parse`
/// refuses the prefix or the encoder refuses the length.
pub uninterp spec fn bech32_encoded(prefix: Seq<char>, data: Seq<u8>) -> Option<Seq<char>>;

/// Calls `bech32::decode`. The result is that function's, the prefix turned
/// into a text; it depends on the argument alone. Nothing is claimed about
/// what a valid text is.
#[verifier::external_body]
fn decode(text: &str) -> (r: Option<(String, Vec<u8>)>)
    ensures
        match r {
            Some(p) => bech32_decoded(text@) == Some((p.0@, p.1@)),
            None => bech32_decoded(text@) is None,
        },
{
    match bech32::decode(text) {
        Ok((hrp, data)) => Some((hrp.as_str().to_string(), data)),
        Err(_) => None,
    }
}

/// Calls `bech32::encode` with the `Bech32` checksum on the prefix that
/// `bech32::Hrp::parse` makes of the text. The result is that of the two
/// calls; it depends on the arguments alone. Nothing is claimed about the
/// text that comes out.
#[verifier::external_body]
fn encode(prefix: &str, data: &[u8]) -> (r: Option<String>)
    ensures
        match r {
            Some(s) => bech32_encoded(prefix@, data@) == Some(s@),
            None => bech32_encoded(prefix@, data@) is None,
        },
{
    match bech32::Hrp::parse(prefix) {
        Ok(hrp) => bech32::encode::<bech32::Bech32>(hrp, data).ok(),
        Err(_) => None,
    }
}

/// The payload of a null address.
pub open spec fn zero_payload() -> Seq<u8> {
    Seq::new(20, |i: int| 0u8)
}

/// The null address that goes with an address: the same prefix over the
/// zero payload. `None` where the address has no bech32 form.
pub open spec fn null_address_of(address: Seq<char>) -> Option<Seq<char>> {
    match bech32_decoded(address) {
        Some(p) => bech32_encoded(p.0, zero_payload()),
        None => None,
    }
}

/// Derives the null address of the chain that an address belongs to.
pub fn null_address(address: &str) -> (r: Option<String>)
    ensures
        opt_text(r) == null_address_of(address@),
{
    match decode(address) {
        Some(parts) => {
            let zeros: Vec<u8> = vec![0u8; 20];
            assert(zeros@ =~= zero_payload());
            encode(parts.0.as_str(), zeros.as_slice())
        },
        None => None,
    }
}

} // verus!
