//! Symbols as the Windows debug-help library reports them: names and
//! file names arrive as UTF-16 in buffers of fixed size, and the name is
//! handed on as UTF-8 of bounded length.
use crate::types::{decode_utf16, lemma_utf16_scalars_valid, utf16_scalars, BytesOrWideString};
use vstd::prelude::*;
use vstd::slice::{slice_subrange, slice_to_vec};
use vstd::utf8::{
    encode_scalar, has_width_1_encoding, has_width_2_encoding, has_width_3_encoding, is_scalar,
};

verus! {

/// Number of UTF-16 units that the library may write for a name.
pub const MAX_SYM_NAME: u32 = 2000;

/// Size in bytes of the buffer that receives the UTF-8 name.
pub const NAME_BUFFER: usize = 256;

/// What the library reports for an address: the buffer that holds the
/// name, the length it claims for the name, and where the symbol starts.
#[derive(Debug)]
pub struct SymbolInfo {
    pub name: Vec<u16>,
    pub name_len: u32,
    pub address: u64,
}

/// What the library reports of the source of an address: the line, and a
/// buffer holding the file name, which a zero unit ends.
#[derive(Debug)]
pub struct LineInfo {
    pub line_number: u32,
    pub file_name: Vec<u16>,
}

/// A symbol resolved through the debug-help library.
#[derive(Debug)]
pub struct Symbol {
    name: Vec<u8>,
    addr: usize,
    line: Option<u32>,
    filename: Option<Vec<u16>>,
}

/// Mathematical value of a `Symbol`.
pub struct SymbolView {
    pub name: Seq<u8>,
    pub addr: usize,
    pub line: Option<u32>,
    pub filename: Option<Seq<u16>>,
}

impl View for Symbol {
    type V = SymbolView;

    closed spec fn view(&self) -> SymbolView {
        SymbolView { name: self.name@, addr: self.addr, line: self.line, filename: self.filename.deep_view() }
    }
}

/// The UTF-8 encoding of as many leading scalar values as fit: encoding
/// stops at the first value whose bytes would not leave one byte of
/// `room` unused.
pub open spec fn fitted(scalars: Seq<u32>, room: int) -> Seq<u8>
    decreases scalars.len(),
{
    if scalars.len() == 0 {
        Seq::empty()
    } else {
        let bytes = encode_scalar(scalars[0]);
        if bytes.len() < room {
            bytes + fitted(scalars.skip(1), room - bytes.len())
        } else {
            Seq::empty()
        }
    }
}

/// The number of units of a name that are read: what the library claims,
/// but no more than it may have written and no more than the buffer
/// holds.
pub open spec fn name_units(info: SymbolInfo) -> int {
    let claimed = if info.name_len < MAX_SYM_NAME - 1 {
        info.name_len as int
    } else {
        MAX_SYM_NAME - 1
    };
    if claimed < info.name@.len() {
        claimed
    } else {
        info.name@.len() as int
    }
}

/// The units of `buffer` before its first zero unit, or all of them.
pub open spec fn terminated(buffer: Seq<u16>) -> Seq<u16>
    decreases buffer.len(),
{
    if buffer.len() == 0 || buffer[0] == 0 {
        Seq::empty()
    } else {
        seq![buffer[0]] + terminated(buffer.skip(1))
    }
}

/// The symbol made of what the library reported.
pub open spec fn resolved(info: SymbolInfo, line: Option<LineInfo>) -> SymbolView {
    SymbolView {
        name: fitted(utf16_scalars(info.name@.take(name_units(info))), NAME_BUFFER as int),
        addr: info.address as usize,
        line: match line {
            Some(l) => Some(l.line_number),
            None => None,
        },
        filename: match line {
            Some(l) => Some(terminated(l.file_name@)),
            None => None,
        },
    }
}

/// Appends the UTF-8 encoding of a scalar value.
fn push_scalar(out: &mut Vec<u8>, scalar: u32)
    requires
        is_scalar(scalar),
    ensures
        final(out)@ == old(out)@ + encode_scalar(scalar),
{
    if scalar <= 0x7F {
        out.push((scalar & 0x7F) as u8);
        assert(out@ =~= old(out)@ + encode_scalar(scalar));
    } else if scalar <= 0x7FF {
        out.push(0xC0 | ((scalar >> 6) & 0x1F) as u8);
        out.push(0x80 | (scalar & 0x3F) as u8);
        assert(out@ =~= old(out)@ + encode_scalar(scalar));
    } else if scalar <= 0xFFFF {
        out.push(0xE0 | ((scalar >> 12) & 0x0F) as u8);
        out.push(0x80 | ((scalar >> 6) & 0x3F) as u8);
        out.push(0x80 | (scalar & 0x3F) as u8);
        assert(out@ =~= old(out)@ + encode_scalar(scalar));
    } else {
        out.push(0xF0 | ((scalar >> 18) & 0x7) as u8);
        out.push(0x80 | ((scalar >> 12) & 0x3F) as u8);
        out.push(0x80 | ((scalar >> 6) & 0x3F) as u8);
        out.push(0x80 | (scalar & 0x3F) as u8);
        assert(out@ =~= old(out)@ + encode_scalar(scalar));
    }
}

/// Number of bytes in the UTF-8 encoding of a scalar value.
fn width(scalar: u32) -> (n: usize)
    requires
        is_scalar(scalar),
    ensures
        n == encode_scalar(scalar).len(),
        1 <= n <= 4,
{
    if scalar <= 0x7F {
        1
    } else if scalar <= 0x7FF {
        2
    } else if scalar <= 0xFFFF {
        3
    } else {
        4
    }
}

/// Re-encodes a UTF-16 name as UTF-8 that fits the name buffer with a
/// byte to spare. Unpaired surrogates become the replacement character;
/// the name is cut before the first character that does not fit.
pub fn reencode(name: &[u16]) -> (r: Vec<u8>)
    ensures
        r@ == fitted(utf16_scalars(name@), NAME_BUFFER as int),
        r.len() < NAME_BUFFER,
{
    let scalars = decode_utf16(name);
    let mut out: Vec<u8> = Vec::new();
    let mut i: usize = 0;
    proof {
        lemma_utf16_scalars_valid(name@);
        assert(scalars@.skip(0) =~= scalars@);
    }
    while i < scalars.len()
        invariant
            i <= scalars.len(),
            out.len() < NAME_BUFFER,
            scalars@ == utf16_scalars(name@),
            forall|k: int| 0 <= k < scalars.len() ==> is_scalar(#[trigger] scalars@[k]),
            out@ + fitted(scalars@.skip(i as int), NAME_BUFFER - out.len()) == fitted(
                scalars@,
                NAME_BUFFER as int,
            ),
        decreases scalars.len() - i,
    {
        let scalar = scalars[i];
        let ghost rest = scalars@.skip(i as int);
        let ghost before = out@;
        proof {
            assert(rest[0] == scalar);
            assert(rest.skip(1) =~= scalars@.skip(i + 1));
        }
        if width(scalar) >= NAME_BUFFER - out.len() {
            proof {
                assert(fitted(rest, NAME_BUFFER - out.len()) =~= Seq::<u8>::empty());
                assert(out@ + Seq::<u8>::empty() =~= out@);
            }
            return out;
        }
        push_scalar(&mut out, scalar);
        proof {
            assert(out@ + fitted(rest.skip(1), NAME_BUFFER - out.len()) =~= before + fitted(
                rest,
                NAME_BUFFER - before.len(),
            ));
        }
        i += 1;
    }
    proof {
        assert(scalars@.skip(scalars.len() as int) =~= Seq::<u32>::empty());
        assert(out@ + Seq::<u8>::empty() =~= out@);
    }
    out
}

/// Length of the text in a buffer that a zero unit ends.
pub fn terminated_len(buffer: &[u16]) -> (n: usize)
    ensures
        n <= buffer.len(),
        buffer@.take(n as int) == terminated(buffer@),
{
    let mut n: usize = 0;
    proof {
        assert(buffer@.skip(0) =~= buffer@);
        assert(buffer@.take(0) + terminated(buffer@) =~= terminated(buffer@));
    }
    while n < buffer.len() && buffer[n] != 0
        invariant
            n <= buffer.len(),
            buffer@.take(n as int) + terminated(buffer@.skip(n as int)) == terminated(buffer@),
        decreases buffer.len() - n,
    {
        proof {
            let rest = buffer@.skip(n as int);
            assert(rest[0] == buffer@[n as int]);
            assert(rest.skip(1) =~= buffer@.skip(n + 1));
            assert(buffer@.take(n + 1) + terminated(rest.skip(1)) =~= buffer@.take(n as int) + terminated(rest));
        }
        n += 1;
    }
    proof {
        let rest = buffer@.skip(n as int);
        if n < buffer.len() {
            assert(rest[0] == buffer@[n as int]);
        }
        assert(terminated(rest) =~= Seq::<u16>::empty());
        assert(buffer@.take(n as int) + Seq::<u16>::empty() =~= buffer@.take(n as int));
    }
    n
}

/// Builds the symbol for an address from what the library reported:
/// `info` is what the symbol lookup returned, `None` standing for its
/// failure, and `line` what the line lookup returned. Without `info`
/// there is no symbol; without `line` the symbol has no file and line.
pub fn do_resolve(info: Option<SymbolInfo>, line: Option<LineInfo>) -> (r: Option<Symbol>)
    ensures
        match (info, r) {
            (Some(info), Some(symbol)) => symbol@ == resolved(info, line),
            (None, None) => true,
            _ => false,
        },
{
    let info = match info {
        Some(info) => info,
        None => {
            return None;
        },
    };
    let claimed: usize = if info.name_len < MAX_SYM_NAME - 1 {
        info.name_len as usize
    } else {
        (MAX_SYM_NAME - 1) as usize
    };
    let units = if claimed < info.name.len() {
        claimed
    } else {
        info.name.len()
    };
    let name = reencode(slice_subrange(info.name.as_slice(), 0, units));
    proof {
        assert(info.name@.subrange(0, units as int) =~= info.name@.take(name_units(info)));
    }
    let (number, filename) = match &line {
        Some(l) => {
            let n = terminated_len(l.file_name.as_slice());
            let file = slice_to_vec(slice_subrange(l.file_name.as_slice(), 0, n));
            proof {
                assert(l.file_name@.subrange(0, n as int) =~= l.file_name@.take(n as int));
                assert(file.deep_view() =~= file@);
            }
            (Some(l.line_number), Some(file))
        },
        None => (None, None),
    };
    Some(Symbol { name, addr: info.address as usize, line: number, filename })
}

impl Symbol {
    /// The name of the symbol, in UTF-8.
    pub fn name(&self) -> (r: Option<&Vec<u8>>)
        ensures
            r matches Some(name) && name@ == self@.name,
    {
        Some(&self.name)
    }

    /// The address at which the symbol starts.
    pub fn addr(&self) -> (r: Option<usize>)
        ensures
            r == Some(self@.addr),
    {
        Some(self.addr)
    }

    /// The source file of the symbol, as the wide string it was reported
    /// in.
    pub fn filename_raw(&self) -> (r: Option<BytesOrWideString<'_>>)
        ensures
            match r {
                Some(BytesOrWideString::Wide(w)) => self@.filename == Some(w@),
                Some(BytesOrWideString::Bytes(_)) => false,
                None => self@.filename is None,
            },
    {
        match &self.filename {
            Some(f) => {
                assert(f.deep_view() =~= f@);
                Some(BytesOrWideString::Wide(f.as_slice()))
            },
            None => None,
        }
    }

    /// The source line of the symbol.
    pub fn lineno(&self) -> (r: Option<u32>)
        ensures
            r == self@.line,
    {
        self.line
    }
}

} // verus!
