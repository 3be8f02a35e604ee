//! Taking strings apart into characters, and decoding bytes for display.

use vstd::prelude::*;

verus! {

/// The characters of `s`, in order, for access by position.
pub fn chars_of(s: &str) -> (v: Vec<char>)
    ensures
        v@ == s@,
{
    let mut v: Vec<char> = Vec::new();
    for c in it: s.chars()
        invariant
            it.seq() == s@,
            v@ == s@.take(it.index() as int),
    {
        v.push(c);
        assert(s@.take(it.index() + 1) =~= s@.take(it.index() as int).push(c));
    }
    assert(s@.take(s@.len() as int) =~= s@);
    v
}

/// The text that lossy decoding gives for a byte string: its characters
/// where the bytes are UTF-8, with a replacement character standing in for
/// every stretch that is not.
pub uninterp spec fn lossy_text(bytes: Seq<u8>) -> Seq<char>;

/// Decodes bytes to text for display, whatever they hold.
///
/// Stands for `String::from_utf8_lossy` of the standard library. Its result
/// depends on the bytes alone and is named [`lossy_text`]. The library
/// documents that bytes which are valid UTF-8 come back as the very string
/// they encode; of other bytes only the name is stated here.
#[verifier::external_body]
pub(crate) fn decode_lossy(bytes: &[u8]) -> (text: String)
    ensures
        text@ == lossy_text(bytes@),
        vstd::utf8::valid_utf8(bytes@) ==> text@ == vstd::utf8::decode_utf8(bytes@),
{
    String::from_utf8_lossy(bytes).into_owned()
}

} // verus!
