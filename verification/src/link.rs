use vstd::prelude::*;

verus! {

#[verifier::external_type_specification]
#[verifier::external_body]
pub struct ExBase64DecodeError(base64::DecodeError);

/// The bytes that decoding `input` as standard base64 (with padding) gives,
/// or `None` where `input` is not valid standard base64.
pub uninterp spec fn base64_decoded(input: Seq<u8>) -> Option<Seq<u8>>;

/// Calls `base64::decode`, which decodes with the standard alphabet and
/// padding. Trusted: it gives the decoded bytes, or an error exactly where the
/// input is not valid base64; both are what `base64_decoded` names. It panics
/// when the input's length plus 7 overflows, which `requires` rules out.
#[verifier::external_body]
fn base64_decode(input: &[u8]) -> (r: Result<Vec<u8>, base64::DecodeError>)
    requires
        input@.len() + 7 <= usize::MAX,
    ensures
        match r {
            Ok(bytes) => base64_decoded(input@) == Some(bytes@),
            Err(_) => base64_decoded(input@) is None,
        },
{
    base64::decode(input)
}

/// Why a payload from the SLAM server could not be read.
#[derive(Debug, Clone, Copy, PartialEq, Eq, Structural)]
pub enum PayloadError {
    /// The payload is not valid base64.
    InvalidBase64,
}

/// Decodes a base64 payload from the SLAM server (a map update, or the last
/// camera image): the decoded bytes, or `InvalidBase64` exactly when the
/// payload is not valid base64.
pub fn decode_payload(encoded: &[u8]) -> (r: Result<Vec<u8>, PayloadError>)
    requires
        encoded@.len() + 7 <= usize::MAX,
    ensures
        match r {
            Ok(bytes) => base64_decoded(encoded@) == Some(bytes@),
            Err(e) => e == PayloadError::InvalidBase64 && base64_decoded(encoded@) is None,
        },
{
    match base64_decode(encoded) {
        Ok(bytes) => Ok(bytes),
        Err(_) => Err(PayloadError::InvalidBase64),
    }
}

/// The request that starts (`on`) or pauses the SLAM server's publisher.
pub fn publisher_command(on: bool) -> (r: &'static str)
    ensures
        r@ == (if on {
            "start_publisher"@
        } else {
            "pause_publisher"@
        }),
{
    if on {
        "start_publisher"
    } else {
        "pause_publisher"
    }
}

/// The request that stops the SLAM server.
pub fn terminate_command() -> (r: &'static str)
    ensures
        r@ == "terminate"@,
{
    "terminate"
}

} // verus!
