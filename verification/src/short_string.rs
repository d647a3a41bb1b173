//! The ledger packs short text into a field element: the bytes of the
//! string, right-aligned in the 32-byte big-endian encoding, with zero
//! padding in front. This module is the reversible codec for that
//! packing; its failure modes mirror the ledger ecosystem's own rules.

use vstd::prelude::*;

use crate::errors::ManifestError;
use crate::felt::Felt;

verus! {

/// The input with its leading zero bytes stripped.
pub open spec fn trim_leading_zeros(s: Seq<u8>) -> Seq<u8>
    decreases s.len(),
{
    if s.len() > 0 && s[0] == 0 {
        trim_leading_zeros(s.drop_first())
    } else {
        s
    }
}

/// Bytes read as the characters with the same code points.
pub open spec fn bytes_as_chars(s: Seq<u8>) -> Seq<char> {
    s.map_values(|b: u8| b as char)
}

/// A 32-byte value holds a packed short string exactly when its top byte
/// is zero (so at most 31 characters) and no zero byte follows a nonzero
/// one (the text is contiguous at the low end).
pub open spec fn short_string_decodable(s: Seq<u8>) -> bool {
    &&& s.len() == 32
    &&& s[0] == 0
    &&& forall|i: int|
        0 <= i < trim_leading_zeros(s).len() ==> #[trigger] trim_leading_zeros(s)[i] != 0
}

/// The text packed in a decodable value: its nonzero suffix, byte for
/// character. The all-zero value decodes to the empty string.
pub open spec fn decode_short_string(s: Seq<u8>) -> Seq<char> {
    bytes_as_chars(trim_leading_zeros(s))
}

/// The packing of a short string: zero padding, then one byte per
/// character. Meaningful for ASCII text of at most 31 characters.
pub open spec fn encode_short_string(s: Seq<char>) -> Seq<u8> {
    Seq::<u8>::new((32 - s.len()) as nat, |i: int| 0u8) + s.map_values(|c: char| c as u8)
}

/// Relies on String::push: appends the one character to the string.
#[verifier::external_body]
fn push_char(s: &mut String, c: char)
    ensures
        final(s)@ == old(s)@.push(c),
{
    s.push(c);
}

proof fn lemma_trim_is_skip(s: Seq<u8>, n: int)
    requires
        0 <= n <= s.len(),
        forall|k: int| 0 <= k < n ==> s[k] == 0,
        n < s.len() ==> s[n] != 0,
    ensures
        trim_leading_zeros(s) == s.skip(n),
    decreases n,
{
    if n == 0 {
        assert(s.skip(0) =~= s);
    } else {
        lemma_trim_is_skip(s.drop_first(), n - 1);
        assert(s.drop_first().skip(n - 1) =~= s.skip(n));
    }
}

impl Felt {
    /// Unpacks the short string held in this field element.
    ///
    /// Fails exactly on the values that pack no text: one that is not 32
    /// bytes, one whose top byte is nonzero (the value is too large for
    /// 31 characters), or one with a zero byte after a nonzero one.
    pub fn parse_short_string(&self) -> (r: Result<String, ManifestError>)
        ensures
            r is Ok <==> short_string_decodable(self@),
            r matches Ok(s) ==> s@ == decode_short_string(self@),
            r matches Err(e) ==> e == ManifestError::ShortStringDecode,
    {
        if self.bytes.len() != 32 {
            return Err(ManifestError::ShortStringDecode);
        }
        if self.bytes[0] != 0 {
            return Err(ManifestError::ShortStringDecode);
        }
        let mut start: usize = 0;
        while start < 32 && self.bytes[start] == 0
            invariant
                start <= 32,
                self@.len() == 32,
                forall|k: int| 0 <= k < start ==> self@[k] == 0,
            decreases 32 - start,
        {
            start = start + 1;
        }
        proof {
            lemma_trim_is_skip(self@, start as int);
        }
        let ghost trimmed = trim_leading_zeros(self@);
        let mut out = String::new();
        let mut i: usize = start;
        while i < 32
            invariant
                start <= i <= 32,
                self@.len() == 32,
                trimmed == self@.skip(start as int),
                trimmed == trim_leading_zeros(self@),
                out@.len() == i - start,
                forall|k: int| start <= k < i ==> self@[k] != 0,
                forall|k: int| 0 <= k < i - start ==> out@[k] == (self@[start + k] as char),
            decreases 32 - i,
        {
            let b = self.bytes[i];
            if b == 0 {
                proof {
                    assert(trimmed[i - start as int] == 0);
                }
                return Err(ManifestError::ShortStringDecode);
            }
            push_char(&mut out, b as char);
            i = i + 1;
        }
        proof {
            assert forall|k: int| 0 <= k < trimmed.len() implies #[trigger] trimmed[k] != 0 by {
                assert(self@[start + k] != 0);
            }
            assert(out@ =~= bytes_as_chars(trimmed));
        }
        Ok(out)
    }
}

/// Packs ASCII text of at most 31 characters into a field element, the
/// inverse direction of [`Felt::parse_short_string`].
pub fn short_string_to_felt(s: &str) -> (r: Result<Felt, ManifestError>)
    ensures
        r is Ok <==> vstd::string::is_ascii(s) && s@.len() <= 31,
        r matches Ok(f) ==> f.wf() && f@ == encode_short_string(s@),
        r matches Err(e) ==> e == ManifestError::ShortStringDecode,
{
    broadcast use vstd::string::is_ascii_spec_bytes;

    if !s.is_ascii() {
        return Err(ManifestError::ShortStringDecode);
    }
    let bytes = s.as_bytes_vec();
    if bytes.len() > 31 {
        return Err(ManifestError::ShortStringDecode);
    }
    proof {
        assert(bytes@ =~= s@.map_values(|c: char| c as u8));
    }
    let f = Felt::from_bytes(&bytes);
    Ok(f)
}

/// The codec is reversible: packing ASCII text with no zero character
/// and unpacking it again gives the text back, and the packed value is
/// decodable.
pub proof fn lemma_short_string_round_trip(s: Seq<char>)
    requires
        s.len() <= 31,
        forall|i: int| 0 <= i < s.len() ==> 0 < (#[trigger] s[i] as int) < 128,
    ensures
        short_string_decodable(encode_short_string(s)),
        decode_short_string(encode_short_string(s)) == s,
{
    let enc = encode_short_string(s);
    let mapped = s.map_values(|c: char| c as u8);
    let pad = 32 - s.len() as int;
    assert(enc.len() == 32);
    assert forall|k: int| 0 <= k < pad implies enc[k] == 0 by {}
    if s.len() > 0 {
        assert(enc[pad] == mapped[0]);
        assert(0 < (s[0] as int) && (s[0] as int) < 128);
        assert((s[0] as u8) as int == s[0] as int);
    }
    lemma_trim_is_skip(enc, pad);
    assert(trim_leading_zeros(enc) =~= mapped);
    assert forall|i: int| 0 <= i < mapped.len() implies #[trigger] mapped[i] != 0 by {
        assert(0 < (s[i] as int) && (s[i] as int) < 128);
        assert((s[i] as u8) as int == s[i] as int);
    }
    assert(decode_short_string(enc) =~= s) by {
        assert forall|i: int| 0 <= i < s.len() implies bytes_as_chars(mapped)[i] == s[i] by {
            assert(mapped[i] == (s[i] as u8));
            assert((s[i] as u8) as int == s[i] as int);
            vstd::utf8::char_is_scalar(s[i]);
            vstd::utf8::char_u32_cast(s[i], s[i] as u32);
            assert(((s[i] as u8) as char) as int == s[i] as int);
            assert(((s[i] as u8) as char) == s[i]);
        }
    }
}

} // verus!
