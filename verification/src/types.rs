//! Platform dependent types.
use vstd::prelude::*;
use vstd::utf8::{decode_utf8, valid_utf8};

verus! {

/// A platform independent representation of a string: bytes as Unix
/// reports paths, or 16-bit units as Windows does.
#[derive(Clone, Copy, Debug)]
pub enum BytesOrWideString<'a> {
    /// A slice, typically provided on Unix platforms.
    Bytes(&'a [u8]),
    /// Wide strings typically from Windows.
    Wide(&'a [u16]),
}

/// The replacement character, which stands in for data that cannot be
/// decoded.
pub const REPLACEMENT: u32 = 0xFFFD;

/// Whether a UTF-16 unit is the first half of a surrogate pair.
pub open spec fn is_high_surrogate(unit: u16) -> bool {
    0xD800 <= unit <= 0xDBFF
}

/// Whether a UTF-16 unit is the second half of a surrogate pair.
pub open spec fn is_low_surrogate(unit: u16) -> bool {
    0xDC00 <= unit <= 0xDFFF
}

/// The scalar value that a surrogate pair stands for.
pub open spec fn paired(high: u16, low: u16) -> u32 {
    (0x10000 + (high - 0xD800) * 0x400 + (low - 0xDC00)) as u32
}

/// The Unicode scalar values that a run of UTF-16 units decodes to. A
/// unit outside the surrogate range stands for itself, a high surrogate
/// followed by a low one for the scalar they encode together, and every
/// other surrogate for the replacement character.
pub open spec fn utf16_scalars(units: Seq<u16>) -> Seq<u32>
    decreases units.len(),
{
    if units.len() == 0 {
        Seq::empty()
    } else if !is_high_surrogate(units[0]) && !is_low_surrogate(units[0]) {
        seq![units[0] as u32] + utf16_scalars(units.skip(1))
    } else if is_high_surrogate(units[0]) && units.len() >= 2 && is_low_surrogate(units[1]) {
        seq![paired(units[0], units[1])] + utf16_scalars(units.skip(2))
    } else {
        seq![REPLACEMENT] + utf16_scalars(units.skip(1))
    }
}

/// The text that a run of UTF-16 units decodes to, undecodable units
/// replaced.
pub open spec fn utf16_lossy(units: Seq<u16>) -> Seq<char> {
    utf16_scalars(units).map_values(|scalar: u32| scalar as char)
}

/// The text that `String::from_utf8_lossy` makes of a run of bytes,
/// replacing what is not UTF-8.
pub uninterp spec fn utf8_lossy(bytes: Seq<u8>) -> Seq<char>;

/// Every value that `utf16_scalars` yields is a Unicode scalar value.
pub proof fn lemma_utf16_scalars_valid(units: Seq<u16>)
    ensures
        forall|i: int|
            0 <= i < utf16_scalars(units).len() ==> vstd::utf8::is_scalar(#[trigger] utf16_scalars(units)[i]),
        utf16_scalars(units).len() <= units.len(),
    decreases units.len(),
{
    if units.len() == 0 {
    } else if !is_high_surrogate(units[0]) && !is_low_surrogate(units[0]) {
        lemma_utf16_scalars_valid(units.skip(1));
    } else if is_high_surrogate(units[0]) && units.len() >= 2 && is_low_surrogate(units[1]) {
        lemma_utf16_scalars_valid(units.skip(2));
    } else {
        lemma_utf16_scalars_valid(units.skip(1));
    }
}

/// Decodes UTF-16 units into Unicode scalar values, replacing unpaired
/// surrogates.
pub fn decode_utf16(units: &[u16]) -> (r: Vec<u32>)
    ensures
        r@ == utf16_scalars(units@),
{
    let mut out: Vec<u32> = Vec::new();
    let mut i: usize = 0;
    proof {
        assert(units@.skip(0) =~= units@);
    }
    while i < units.len()
        invariant
            i <= units.len(),
            out@ + utf16_scalars(units@.skip(i as int)) == utf16_scalars(units@),
        decreases units.len() - i,
    {
        let ghost rest = units@.skip(i as int);
        let unit = units[i];
        proof {
            assert(rest[0] == unit);
            assert(rest.skip(1) =~= units@.skip(i + 1));
        }
        if unit < 0xD800 || unit > 0xDFFF {
            proof {
                assert(out@.push(unit as u32) + utf16_scalars(rest.skip(1)) =~= out@ + utf16_scalars(rest));
            }
            out.push(unit as u32);
            i += 1;
        } else if unit <= 0xDBFF && i + 1 < units.len() && 0xDC00 <= units[i + 1] && units[i + 1] <= 0xDFFF {
            let low = units[i + 1];
            let scalar: u32 = 0x10000 + (unit as u32 - 0xD800) * 0x400 + (low as u32 - 0xDC00);
            proof {
                assert(rest[1] == low);
                assert(rest.skip(2) =~= units@.skip(i + 2));
                assert(scalar == paired(unit, low));
                assert(out@.push(scalar) + utf16_scalars(rest.skip(2)) =~= out@ + utf16_scalars(rest));
            }
            out.push(scalar);
            i += 2;
        } else {
            proof {
                if i + 1 < units.len() {
                    assert(rest[1] == units@[i + 1]);
                }
                assert(out@.push(REPLACEMENT) + utf16_scalars(rest.skip(1)) =~= out@ + utf16_scalars(rest));
            }
            out.push(REPLACEMENT);
            i += 1;
        }
    }
    proof {
        assert(units@.skip(units.len() as int) =~= Seq::<u16>::empty());
        assert(out@ + Seq::<u32>::empty() =~= out@);
    }
    out
}

/// Calls `String::from_utf8_lossy` of the standard library and takes
/// ownership of the text. The contract only names the outcome, and adds
/// what the documentation says of well-formed input: it is decoded as it
/// stands.
#[verifier::external_body]
fn from_utf8_lossy(bytes: &[u8]) -> (r: String)
    ensures
        r@ == utf8_lossy(bytes@),
        valid_utf8(bytes@) ==> r@ == decode_utf8(bytes@),
{
    String::from_utf8_lossy(bytes).into_owned()
}

/// Calls `String::from_utf16_lossy` of the standard library, which
/// decodes UTF-16 and puts the replacement character in the place of
/// every unpaired surrogate.
#[verifier::external_body]
fn from_utf16_lossy(wide: &[u16]) -> (r: String)
    ensures
        r@ == utf16_lossy(wide@),
{
    String::from_utf16_lossy(wide)
}

impl<'a> BytesOrWideString<'a> {
    /// The text this string stands for, undecodable data replaced.
    pub open spec fn text(self) -> Seq<char> {
        match self {
            BytesOrWideString::Bytes(bytes) => utf8_lossy(bytes@),
            BytesOrWideString::Wide(wide) => utf16_lossy(wide@),
        }
    }

    /// Lossy converts to a `String`: what is not valid UTF-8 or UTF-16
    /// becomes the replacement character.
    pub fn to_str_lossy(&self) -> (r: String)
        ensures
            r@ == self.text(),
            self matches BytesOrWideString::Bytes(bytes) ==> (valid_utf8(bytes@) ==> r@ == decode_utf8(bytes@)),
    {
        match self {
            BytesOrWideString::Bytes(bytes) => from_utf8_lossy(bytes),
            BytesOrWideString::Wide(wide) => from_utf16_lossy(wide),
        }
    }
}

} // verus!
