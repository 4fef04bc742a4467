use vstd::prelude::*;

verus! {

/// The bytes `encoding_rs::SHIFT_JIS.encode` produces for a text (characters
/// it cannot map become numeric character references).
pub uninterp spec fn shift_jis_encoded(text: Seq<char>) -> Seq<u8>;

/// The text `encoding_rs::SHIFT_JIS.decode` produces for bytes (malformed
/// sequences become U+FFFD).
pub uninterp spec fn shift_jis_decoded(bytes: Seq<u8>) -> Seq<char>;

/// Length in bytes of a text's Shift_JIS encoding.
pub open spec fn shift_jis_encoded_len(text: Seq<char>) -> nat {
    shift_jis_encoded(text).len()
}

/// `encoding_rs::SHIFT_JIS.encode`: the contract only names the result,
/// which depends on `text` alone.
#[verifier::external_body]
fn shift_jis_encode(text: &str) -> (bytes: Vec<u8>)
    ensures
        bytes@ == shift_jis_encoded(text@),
{
    encoding_rs::SHIFT_JIS.encode(text).0.into_owned()
}

/// `encoding_rs::SHIFT_JIS.decode`: the contract only names the result,
/// which depends on `bytes` alone.
#[verifier::external_body]
fn shift_jis_decode(bytes: &[u8]) -> (text: String)
    ensures
        text@ == shift_jis_decoded(bytes@),
{
    encoding_rs::SHIFT_JIS.decode(bytes).0.into_owned()
}

/// Shift_JIS bytes from the script as text.
pub fn decode_native_text(bytes: &[u8]) -> (text: String)
    ensures
        text@ == shift_jis_decoded(bytes@),
{
    shift_jis_decode(bytes)
}

/// Text as the Shift_JIS bytes the script expects.
pub fn encode_native_text(text: &str) -> (bytes: Vec<u8>)
    ensures
        bytes@ == shift_jis_encoded(text@),
        bytes@.len() == shift_jis_encoded_len(text@),
{
    shift_jis_encode(text)
}

/// The byte length of a text's Shift_JIS encoding.
pub fn shift_jis_len(text: &str) -> (n: usize)
    ensures
        n as nat == shift_jis_encoded_len(text@),
{
    shift_jis_encode(text).len()
}

} // verus!
