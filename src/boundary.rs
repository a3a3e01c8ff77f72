//! The computing parts of the commands that the application shell exposes:
//! the greeting and the bulk fetch's answer.
use vstd::prelude::*;
use crate::adapters::is_success_status;

verus! {

pub fn greet(name: &str) -> (r: String)
    ensures
        r@ == "Hello, "@ + name@ + "! You've been greeted from Rust!"@,
{
    String::from_str("Hello, ").concat(name).concat("! You've been greeted from Rust!")
}

/// The standard, padded base64 text of `b`.
pub uninterp spec fn base64_of(b: Seq<u8>) -> Seq<char>;

/// The longest input whose encoded length fits in `usize`.
pub open spec fn encodable(b: Seq<u8>) -> bool {
    b.len() <= 3 * (usize::MAX / 4)
}

/// Relies on `base64::engine::general_purpose::STANDARD.encode`: the padded
/// standard encoding, four characters for each started group of three bytes;
/// it panics only where that length overflows `usize`.
#[verifier::external_body]
fn encode_base64(b: &[u8]) -> (r: String)
    requires
        encodable(b@),
    ensures
        r@ == base64_of(b@),
        r@.len() == 4 * ((b@.len() + 2) / 3),
{
    base64::Engine::encode(&base64::engine::general_purpose::STANDARD, b)
}

/// The bulk fetch's answer: the body in base64 on a 2xx status, else the
/// status.
pub fn bulk_fetch_result(status: u16, body: &[u8]) -> (r: Result<String, u16>)
    requires
        encodable(body@),
    ensures
        is_success_status(status) ==> (r matches Ok(t) && t@ == base64_of(body@) && t@.len() == 4
            * ((body@.len() + 2) / 3)),
        !is_success_status(status) ==> r == Err::<String, u16>(status),
{
    if 200 <= status && status < 300 {
        Ok(encode_base64(body))
    } else {
        Err(status)
    }
}

} // verus!
