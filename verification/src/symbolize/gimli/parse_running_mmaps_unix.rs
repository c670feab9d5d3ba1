//! Reading the kernel's listing of a process's memory mappings.
//!
//! A listing has one mapping per line:
//!
//! ```text
//! 7f5985f46000-7f5985f48000 rw-p 00039000 103:06 76021795    /usr/lib/ld.so
//! ```
//!
//! that is the address range, the permissions, the offset into the file,
//! the device, the inode and, where the mapping is backed by a file, the
//! path, which may itself contain spaces.
use vstd::prelude::*;
use vstd::string::StringSliceAdditionalSpecFns;
use vstd::utf8::encode_utf8;

verus! {

/// Why a line of a listing was rejected.
#[derive(Clone, Copy, Debug, PartialEq, Eq, Structural)]
pub enum MapsError {
    /// The line has fewer fields than a mapping needs.
    MissingFields,
    /// The line has all its fields, but one of them cannot be read.
    InvalidFields,
    /// The line ends before the named field.
    MissingField(Field),
    /// A field that must be a hexadecimal number is none, or the number
    /// does not fit the machine word.
    HexNumber,
    /// The address field has no `-` between its two numbers.
    AddressRange,
    /// The permissions field has fewer than four characters.
    InsufficientPerms,
    /// The permissions field has more than four characters.
    TooManyPerms,
    /// The device field has no `:` between its two numbers.
    Device,
    /// The end of the address range lies beyond the machine word.
    AddressOverflow,
}

/// The fields that a line can lack.
#[derive(Clone, Copy, Debug, PartialEq, Eq, Structural)]
pub enum Field {
    Address,
    Permissions,
    Offset,
    Dev,
    Inode,
    VirtualAddress,
    Size,
    Flags,
    Protection,
    MaximumProtection,
    Device,
    ReservedPages,
    GuardSize,
    ReferenceCount,
    MappedCount,
}

/// What separates the fields of a line.
#[derive(Clone, Copy, Debug, PartialEq, Eq, Structural)]
pub enum Separator {
    /// Runs of blanks.
    Blank,
    /// Runs of ASCII white space.
    Whitespace,
    /// Single commas.
    Comma,
}

/// One mapping of a process's address space.
#[derive(Debug, PartialEq, Eq)]
pub struct MapsEntry {
    /// Start (inclusive) and limit (exclusive) of the address range.
    address: (usize, usize),
    /// Read, write, execute and shared/private marks.
    perms: [char; 4],
    /// Offset into the file.
    offset: usize,
    /// Device, major and minor number.
    dev: (usize, usize),
    /// Inode on the device; 0 where no inode belongs to the mapping.
    inode: usize,
    /// Usually the file backing the mapping; empty for anonymous ones.
    pathname: String,
}

/// Mathematical value of a `MapsEntry`.
pub struct MapsEntryView {
    pub address: (usize, usize),
    pub perms: Seq<char>,
    pub offset: usize,
    pub dev: (usize, usize),
    pub inode: usize,
    pub pathname: Seq<char>,
}

impl View for MapsEntry {
    type V = MapsEntryView;

    closed spec fn view(&self) -> MapsEntryView {
        MapsEntryView {
            address: self.address,
            perms: self.perms@,
            offset: self.offset,
            dev: self.dev,
            inode: self.inode,
            pathname: self.pathname@,
        }
    }
}

/// Whether `c` is a separator of the kind `sep`.
pub open spec fn is_separator(c: char, sep: Separator) -> bool {
    match sep {
        Separator::Blank => c == ' ',
        Separator::Whitespace => c == ' ' || c == '\t' || c == '\n' || c == '\x0c' || c == '\r',
        Separator::Comma => c == ',',
    }
}

/// Where the run of separators (`separators`) or of other characters
/// that starts at `from` ends.
pub open spec fn run_end(s: Seq<char>, from: int, sep: Separator, separators: bool) -> int
    decreases s.len() - from,
{
    if 0 <= from < s.len() && is_separator(s[from], sep) == separators {
        run_end(s, from + 1, sep, separators)
    } else {
        from
    }
}

/// Start and end of the `k`-th field of the line `s`, fields being the
/// runs of characters between separators.
pub open spec fn field_bounds(s: Seq<char>, k: nat, sep: Separator) -> (int, int)
    decreases k,
{
    let after = if k == 0 {
        0
    } else {
        field_bounds(s, (k - 1) as nat, sep).1
    };
    let start = run_end(s, after, sep, true);
    (start, run_end(s, start, sep, false))
}

/// The `k`-th field of the line `s`; empty where the line has fewer.
pub open spec fn field(s: Seq<char>, k: nat, sep: Separator) -> Seq<char> {
    s.subrange(field_bounds(s, k, sep).0, field_bounds(s, k, sep).1)
}

/// The value of a hexadecimal digit.
pub open spec fn hex_digit(c: char) -> Option<nat> {
    if '0' <= c <= '9' {
        Some((c as u32 - '0' as u32) as nat)
    } else if 'a' <= c <= 'f' {
        Some((c as u32 - 'a' as u32 + 10) as nat)
    } else if 'A' <= c <= 'F' {
        Some((c as u32 - 'A' as u32 + 10) as nat)
    } else {
        None
    }
}

/// The number that a run of hexadecimal digits writes, `None` where a
/// character is no such digit.
pub open spec fn hex_digits(s: Seq<char>) -> Option<nat>
    decreases s.len(),
{
    if s.len() == 0 {
        Some(0)
    } else {
        match (hex_digits(s.drop_last()), hex_digit(s.last())) {
            (Some(high), Some(low)) => Some(16 * high + low),
            _ => None,
        }
    }
}

/// The machine word that `s` writes in hexadecimal: at least one digit,
/// a `+` allowed in front, the value within the word's range.
pub open spec fn hex(s: Seq<char>) -> Option<usize> {
    let digits = if s.len() > 0 && s[0] == '+' {
        s.skip(1)
    } else {
        s
    };
    if digits.len() == 0 {
        None
    } else {
        word(hex_digits(digits))
    }
}

/// A number as a machine word, `None` where it does not fit.
pub open spec fn word(value: Option<nat>) -> Option<usize> {
    match value {
        Some(value) => if value <= usize::MAX {
            Some(value as usize)
        } else {
            None
        },
        None => None,
    }
}

/// Place of the first `c` in `s`.
pub open spec fn first_index(s: Seq<char>, c: char) -> Option<int>
    decreases s.len(),
{
    if s.len() == 0 {
        None
    } else if s[0] == c {
        Some(0)
    } else {
        match first_index(s.skip(1), c) {
            Some(i) => Some(i + 1),
            None => None,
        }
    }
}

/// The two hexadecimal numbers that `s` holds on either side of its
/// first `mark`. The outer `None` says that there is no `mark`, the
/// inner one that a side is no number.
pub open spec fn hex_pair(s: Seq<char>, mark: char) -> Option<Option<(usize, usize)>> {
    match first_index(s, mark) {
        None => None,
        Some(i) => Some(
            match (hex(s.take(i)), hex(s.skip(i + 1))) {
                (Some(a), Some(b)) => Some((a, b)),
                _ => None,
            },
        ),
    }
}

/// A longer run of digits writes a number at least as large.
proof fn lemma_hex_digits_grow(s: Seq<char>, n: int)
    requires
        0 <= n <= s.len(),
        hex_digits(s) is Some,
    ensures
        hex_digits(s.take(n)) is Some,
        hex_digits(s.take(n)).unwrap() <= hex_digits(s).unwrap(),
    decreases s.len(),
{
    if n == s.len() {
        assert(s.take(n) =~= s);
    } else {
        lemma_hex_digits_grow(s.drop_last(), n);
        assert(s.drop_last().take(n) =~= s.take(n));
    }
}

/// A run of digits with a character in it that is no digit writes no
/// number.
proof fn lemma_hex_digits_bad(s: Seq<char>, i: int)
    requires
        0 <= i < s.len(),
        hex_digit(s[i]) is None,
    ensures
        hex_digits(s) is None,
    decreases s.len(),
{
    if i < s.len() - 1 {
        lemma_hex_digits_bad(s.drop_last(), i);
    }
}

/// Finds where the run of separators (`separators`) or of other
/// characters that starts at `from` ends.
pub(crate) fn scan(line: &Vec<char>, from: usize, sep: Separator, separators: bool) -> (to: usize)
    requires
        from <= line.len(),
    ensures
        to == run_end(line@, from as int, sep, separators),
        from <= to <= line.len(),
{
    let mut to = from;
    while to < line.len()
        invariant
            from <= to <= line.len(),
            run_end(line@, to as int, sep, separators) == run_end(line@, from as int, sep, separators),
        decreases line.len() - to,
    {
        let c = line[to];
        let separates = match sep {
            Separator::Blank => c == ' ',
            Separator::Whitespace => c == ' ' || c == '\t' || c == '\n' || c == '\x0c' || c == '\r',
            Separator::Comma => c == ',',
        };
        if separates != separators {
            return to;
        }
        to += 1;
    }
    to
}

/// Finds the first `c` among the characters `lo..hi` of `line`.
pub(crate) fn find(line: &Vec<char>, lo: usize, hi: usize, c: char) -> (r: Option<usize>)
    requires
        lo <= hi <= line.len(),
    ensures
        match r {
            Some(i) => lo <= i < hi && first_index(line@.subrange(lo as int, hi as int), c) == Some(i - lo),
            None => first_index(line@.subrange(lo as int, hi as int), c) is None,
        },
{
    let ghost s = line@.subrange(lo as int, hi as int);
    let mut i = hi;
    let mut found: Option<usize> = None;
    proof {
        assert(s.skip(hi - lo) =~= Seq::<char>::empty());
    }
    while i > lo
        invariant
            lo <= i <= hi <= line.len(),
            s == line@.subrange(lo as int, hi as int),
            match found {
                Some(f) => i <= f < hi && first_index(s.skip(i - lo), c) == Some(f - i),
                None => first_index(s.skip(i - lo), c) is None,
            },
        decreases i - lo,
    {
        i -= 1;
        proof {
            assert(s.skip(i - lo).skip(1) =~= s.skip(i + 1 - lo));
            assert(s.skip(i - lo)[0] == line@[i as int]);
        }
        if line[i] == c {
            found = Some(i);
        }
    }
    proof {
        assert(s.skip(0) =~= s);
    }
    found
}

/// Reads the characters `lo..hi` of `line` as a hexadecimal machine
/// word.
pub(crate) fn parse_hex(line: &Vec<char>, lo: usize, hi: usize) -> (r: Option<usize>)
    requires
        lo <= hi <= line.len(),
    ensures
        r == hex(line@.subrange(lo as int, hi as int)),
{
    let ghost s = line@.subrange(lo as int, hi as int);
    let start = if lo < hi && line[lo] == '+' {
        lo + 1
    } else {
        lo
    };
    let ghost digits = line@.subrange(start as int, hi as int);
    proof {
        if lo < hi && line@[lo as int] == '+' {
            assert(s[0] == '+');
            assert(s.skip(1) =~= digits);
        } else {
            if lo < hi {
                assert(s[0] == line@[lo as int]);
            }
            assert(s =~= digits);
        }
    }
    if start == hi {
        return None;
    }
    let mut value: usize = 0;
    let mut i = start;
    proof {
        assert(digits.take(0) =~= Seq::<char>::empty());
    }
    while i < hi
        invariant
            lo <= start <= i <= hi <= line.len(),
            digits == line@.subrange(start as int, hi as int),
            hex(line@.subrange(lo as int, hi as int)) == word(hex_digits(digits)),
            hex_digits(digits.take(i - start)) == Some(value as nat),
        decreases hi - i,
    {
        let c = line[i];
        let code = c as u32;
        let digit: u32 = if '0' <= c && c <= '9' {
            code - '0' as u32
        } else if 'a' <= c && c <= 'f' {
            code - 'a' as u32 + 10
        } else if 'A' <= c && c <= 'F' {
            code - 'A' as u32 + 10
        } else {
            proof {
                assert(digits[i - start] == c);
                lemma_hex_digits_bad(digits, i - start);
            }
            return None;
        };
        proof {
            assert(digits[i - start] == c);
            assert(digits.take(i + 1 - start).drop_last() =~= digits.take(i - start));
            assert(digits.take(i + 1 - start).last() == c);
            assert(hex_digit(c) == Some(digit as nat));
        }
        if value > (usize::MAX - digit as usize) / 16 {
            proof {
                assert(16 * value + digit > usize::MAX);
                if hex_digits(digits) is Some {
                    lemma_hex_digits_grow(digits, i + 1 - start);
                }
            }
            return None;
        }
        value = value * 16 + digit as usize;
        i += 1;
    }
    proof {
        assert(digits.take(hi - start) =~= digits);
    }
    Some(value)
}

/// Reads the characters `lo..hi` of `line` as two hexadecimal words with
/// `mark` between them.
pub(crate) fn parse_hex_pair(line: &Vec<char>, lo: usize, hi: usize, mark: char) -> (r: Option<Option<(usize, usize)>>)
    requires
        lo <= hi <= line.len(),
    ensures
        r == hex_pair(line@.subrange(lo as int, hi as int), mark),
{
    let ghost s = line@.subrange(lo as int, hi as int);
    match find(line, lo, hi, mark) {
        None => None,
        Some(i) => {
            proof {
                assert(s.take(i - lo) =~= line@.subrange(lo as int, i as int));
                assert(s.skip(i - lo + 1) =~= line@.subrange(i + 1, hi as int));
            }
            let first = parse_hex(line, lo, i);
            let second = parse_hex(line, i + 1, hi);
            match (first, second) {
                (Some(a), Some(b)) => Some(Some((a, b))),
                _ => Some(None),
            }
        },
    }
}

/// The characters of a string, one by one.
pub(crate) fn chars_of(s: &str) -> (v: Vec<char>)
    ensures
        v@ == s@,
{
    let mut v: Vec<char> = Vec::new();
    for c in it: s.chars()
        invariant
            v@ == it.seq().take(it.index() as int),
    {
        v.push(c);
    }
    v
}

/// Finds the first `count` fields of `line`.
pub(crate) fn bounds(line: &Vec<char>, count: usize, sep: Separator) -> (r: Vec<(usize, usize)>)
    ensures
        r.len() == count,
        forall|k: int|
            0 <= k < count ==> {
                &&& (#[trigger] r@[k]).0 == field_bounds(line@, k as nat, sep).0
                &&& r@[k].1 == field_bounds(line@, k as nat, sep).1
                &&& r@[k].0 <= r@[k].1 <= line.len()
            },
{
    let mut r: Vec<(usize, usize)> = Vec::new();
    let mut after: usize = 0;
    while r.len() < count
        invariant
            r.len() <= count,
            after <= line.len(),
            after == if r.len() == 0 {
                0
            } else {
                field_bounds(line@, (r.len() - 1) as nat, sep).1
            },
            forall|k: int|
                0 <= k < r.len() ==> {
                    &&& (#[trigger] r@[k]).0 == field_bounds(line@, k as nat, sep).0
                    &&& r@[k].1 == field_bounds(line@, k as nat, sep).1
                    &&& r@[k].0 <= r@[k].1 <= line.len()
                },
        decreases count - r.len(),
    {
        let start = scan(line, after, sep, true);
        let end = scan(line, start, sep, false);
        r.push((start, end));
        after = end;
    }
    r
}

/// The permission marks of a field that may carry more than the four
/// known ones. The field must have at least four bytes; the marks kept
/// are its first four bytes, each read as the character of that code.
pub open spec fn leading_perms(w: Seq<char>) -> Option<Seq<char>> {
    let bytes = encode_utf8(w);
    if bytes.len() >= 4 {
        Some(seq![bytes[0] as char, bytes[1] as char, bytes[2] as char, bytes[3] as char])
    } else {
        None
    }
}

/// What a line of the listing says. Fields are separated by ASCII white
/// space; the path is whatever follows the white space after the inode,
/// to the end of the line, and may be empty.
pub open spec fn parsed_line(s: Seq<char>) -> Result<MapsEntryView, MapsError> {
    let sep = Separator::Whitespace;
    if field(s, 4, sep).len() == 0 {
        Err(MapsError::MissingFields)
    } else {
        match (
            hex_pair(field(s, 0, sep), '-'),
            leading_perms(field(s, 1, sep)),
            hex(field(s, 2, sep)),
            hex_pair(field(s, 3, sep), ':'),
            hex(field(s, 4, sep)),
        ) {
            (Some(Some(address)), Some(perms), Some(offset), Some(Some(dev)), Some(inode)) => Ok(
                MapsEntryView {
                    address,
                    perms,
                    offset,
                    dev,
                    inode,
                    pathname: s.skip(run_end(s, field_bounds(s, 4, sep).1, sep, true)),
                },
            ),
            _ => Err(MapsError::InvalidFields),
        }
    }
}

impl MapsError {
    /// A description of the error.
    pub fn message(&self) -> (r: &'static str)
        ensures
            r@ == self.text(),
    {
        match self {
            MapsError::MissingFields => "failed to find all map fields",
            MapsError::InvalidFields => "failed to parse all map fields",
            MapsError::MissingField(Field::Address) => "Couldn't find address",
            MapsError::MissingField(Field::Permissions) => "Couldn't find permissions",
            MapsError::MissingField(Field::Offset) => "Couldn't find offset",
            MapsError::MissingField(Field::Dev) => "Couldn't find dev",
            MapsError::MissingField(Field::Inode) => "Couldn't find inode",
            MapsError::MissingField(Field::VirtualAddress) => "Couldn't find virtual address",
            MapsError::MissingField(Field::Size) => "Couldn't find size",
            MapsError::MissingField(Field::Flags) => "Couldn't find flags",
            MapsError::MissingField(Field::Protection) => "Couldn't find protection",
            MapsError::MissingField(Field::MaximumProtection) => "Couldn't find maximum protection",
            MapsError::MissingField(Field::Device) => "Couldn't find device",
            MapsError::MissingField(Field::ReservedPages) => "Couldn't find reserved pages",
            MapsError::MissingField(Field::GuardSize) => "Couldn't find guard size",
            MapsError::MissingField(Field::ReferenceCount) => "Couldn't find reference count",
            MapsError::MissingField(Field::MappedCount) => "Couldn't find mapped count",
            MapsError::HexNumber => "Couldn't parse hex number",
            MapsError::AddressRange => "Couldn't parse address range",
            MapsError::InsufficientPerms => "insufficient perms",
            MapsError::TooManyPerms => "too many perms",
            MapsError::Device => "Couldn't parse dev",
            MapsError::AddressOverflow => "address range exceeds the address space",
        }
    }

    /// The text of `message`.
    pub open spec fn text(&self) -> Seq<char> {
        match self {
            MapsError::MissingFields => "failed to find all map fields"@,
            MapsError::InvalidFields => "failed to parse all map fields"@,
            MapsError::MissingField(Field::Address) => "Couldn't find address"@,
            MapsError::MissingField(Field::Permissions) => "Couldn't find permissions"@,
            MapsError::MissingField(Field::Offset) => "Couldn't find offset"@,
            MapsError::MissingField(Field::Dev) => "Couldn't find dev"@,
            MapsError::MissingField(Field::Inode) => "Couldn't find inode"@,
            MapsError::MissingField(Field::VirtualAddress) => "Couldn't find virtual address"@,
            MapsError::MissingField(Field::Size) => "Couldn't find size"@,
            MapsError::MissingField(Field::Flags) => "Couldn't find flags"@,
            MapsError::MissingField(Field::Protection) => "Couldn't find protection"@,
            MapsError::MissingField(Field::MaximumProtection) => "Couldn't find maximum protection"@,
            MapsError::MissingField(Field::Device) => "Couldn't find device"@,
            MapsError::MissingField(Field::ReservedPages) => "Couldn't find reserved pages"@,
            MapsError::MissingField(Field::GuardSize) => "Couldn't find guard size"@,
            MapsError::MissingField(Field::ReferenceCount) => "Couldn't find reference count"@,
            MapsError::MissingField(Field::MappedCount) => "Couldn't find mapped count"@,
            MapsError::HexNumber => "Couldn't parse hex number"@,
            MapsError::AddressRange => "Couldn't parse address range"@,
            MapsError::InsufficientPerms => "insufficient perms"@,
            MapsError::TooManyPerms => "too many perms"@,
            MapsError::Device => "Couldn't parse dev"@,
            MapsError::AddressOverflow => "address range exceeds the address space"@,
        }
    }
}

impl MapsEntry {
    /// Builds an entry from its parts.
    pub fn new(
        address: (usize, usize),
        perms: [char; 4],
        offset: usize,
        dev: (usize, usize),
        inode: usize,
        pathname: String,
    ) -> (r: MapsEntry)
        ensures
            r@ == (MapsEntryView { address, perms: perms@, offset, dev, inode, pathname: pathname@ }),
    {
        MapsEntry { address, perms, offset, dev, inode, pathname }
    }

    /// Start (inclusive) and limit (exclusive) of the mapping.
    pub fn address(&self) -> (r: (usize, usize))
        ensures
            r == self@.address,
    {
        self.address
    }

    /// The permission marks: read, write, execute, shared or private.
    pub fn perms(&self) -> (r: [char; 4])
        ensures
            r@ == self@.perms,
    {
        self.perms
    }

    /// Offset of the mapping into its file.
    pub fn offset(&self) -> (r: u64)
        ensures
            r == self@.offset,
    {
        self.offset as u64
    }

    /// Major and minor number of the device of the file.
    pub fn dev(&self) -> (r: (usize, usize))
        ensures
            r == self@.dev,
    {
        self.dev
    }

    /// Inode of the file on its device.
    pub fn inode(&self) -> (r: usize)
        ensures
            r == self@.inode,
    {
        self.inode
    }

    /// Path of the file backing the mapping; empty for an anonymous one.
    pub fn pathname(&self) -> (r: &String)
        ensures
            r@ == self@.pathname,
    {
        &self.pathname
    }

    /// Whether `ip` lies in the mapping.
    pub fn ip_matches(&self, ip: usize) -> (r: bool)
        ensures
            r == (self@.address.0 <= ip < self@.address.1),
    {
        self.address.0 <= ip && ip < self.address.1
    }

    /// Reads one line of the listing.
    pub fn from_str(s: &str) -> (r: Result<MapsEntry, MapsError>)
        ensures
            match r {
                Ok(entry) => parsed_line(s@) == Ok::<MapsEntryView, MapsError>(entry@),
                Err(e) => parsed_line(s@) == Err::<MapsEntryView, MapsError>(e),
            },
    {
        let sep = Separator::Whitespace;
        let line = chars_of(s);
        let at = bounds(&line, 5, sep);
        let (range, perms, offset, dev, inode) = (at[0], at[1], at[2], at[3], at[4]);
        if inode.0 == inode.1 {
            return Err(MapsError::MissingFields);
        }
        let path = scan(&line, inode.1, sep, true);
        let address = parse_hex_pair(&line, range.0, range.1, '-');
        let offset = parse_hex(&line, offset.0, offset.1);
        let dev = parse_hex_pair(&line, dev.0, dev.1, ':');
        let inode = parse_hex(&line, inode.0, inode.1);
        let bytes = s.substring_char(perms.0, perms.1).as_bytes();
        if bytes.len() < 4 {
            return Err(MapsError::InvalidFields);
        }
        let marks = [bytes[0] as char, bytes[1] as char, bytes[2] as char, bytes[3] as char];
        proof {
            assert(bytes@ == encode_utf8(field(s@, 1, sep)));
            assert(marks@ =~= leading_perms(field(s@, 1, sep)).unwrap());
        }
        match (address, offset, dev, inode) {
            (Some(Some(address)), Some(offset), Some(Some(dev)), Some(inode)) => {
                let pathname = s.substring_char(path, line.len()).to_owned();
                proof {
                    assert(s@.subrange(path as int, line.len() as int) =~= s@.skip(path as int));
                }
                Ok(MapsEntry { address, perms: marks, offset, dev, inode, pathname })
            },
            _ => Err(MapsError::InvalidFields),
        }
    }
}

/// Where the line that starts at `from` ends: at the next line feed, or
/// at the end of the text.
pub open spec fn line_end(s: Seq<char>, from: int) -> int {
    match first_index(s.subrange(from, s.len() as int), '\n') {
        Some(i) => from + i,
        None => s.len() as int,
    }
}

/// Where the contents of the line `from..end` stop: before the carriage
/// return of a line ending, if there is one.
pub open spec fn line_stop(s: Seq<char>, from: int, end: int) -> int {
    if from < end < s.len() && s[end - 1] == '\r' {
        end - 1
    } else {
        end
    }
}

/// The lines of the text from `from` on. A line ends with a line feed
/// or a carriage return and a line feed, neither being part of it; the
/// last line needs no ending.
pub open spec fn lines_from(s: Seq<char>, from: int) -> Seq<Seq<char>>
    decreases s.len() - from,
{
    if 0 <= from < s.len() {
        let end = line_end(s, from);
        let line = s.subrange(from, line_stop(s, from, end));
        if from <= end < s.len() {
            seq![line] + lines_from(s, end + 1)
        } else {
            seq![line]
        }
    } else {
        Seq::empty()
    }
}

/// What the lines of a listing say, taken together: the entries in
/// order, or the error of the first line that is rejected.
pub open spec fn parsed_lines(lines: Seq<Seq<char>>) -> Result<Seq<MapsEntryView>, MapsError>
    decreases lines.len(),
{
    if lines.len() == 0 {
        Ok(Seq::empty())
    } else {
        match parsed_line(lines[0]) {
            Err(e) => Err(e),
            Ok(entry) => match parsed_lines(lines.skip(1)) {
                Err(e) => Err(e),
                Ok(entries) => Ok(seq![entry] + entries),
            },
        }
    }
}

/// The values of a list of entries.
pub open spec fn entry_views(entries: Seq<MapsEntry>) -> Seq<MapsEntryView> {
    entries.map_values(|e: MapsEntry| e@)
}

/// The entries read so far followed by what the remaining lines say.
pub open spec fn continued(done: Seq<MapsEntryView>, rest: Result<Seq<MapsEntryView>, MapsError>) -> Result<
    Seq<MapsEntryView>,
    MapsError,
> {
    match rest {
        Err(e) => Err(e),
        Ok(more) => Ok(done + more),
    }
}

/// Reading goes line by line: what has been read, the line at hand and
/// what follows it together give what the whole listing says.
proof fn lemma_continued(done: Seq<MapsEntryView>, line: Seq<char>, rest: Seq<Seq<char>>)
    ensures
        continued(done, parsed_lines(seq![line] + rest)) == match parsed_line(line) {
            Err(e) => Err::<Seq<MapsEntryView>, MapsError>(e),
            Ok(entry) => continued(done.push(entry), parsed_lines(rest)),
        },
{
    let lines = seq![line] + rest;
    assert(lines[0] == line);
    assert(lines.skip(1) =~= rest);
    match parsed_line(line) {
        Err(e) => {},
        Ok(entry) => {
            match parsed_lines(rest) {
                Err(e) => {},
                Ok(more) => {
                    assert(done + (seq![entry] + more) =~= done.push(entry) + more);
                },
            }
        },
    }
}

/// Reads a whole listing, one mapping per line. The first line that
/// cannot be read ends the reading with its error.
pub fn parse_maps(text: &str) -> (r: Result<Vec<MapsEntry>, MapsError>)
    ensures
        match r {
            Ok(entries) => parsed_lines(lines_from(text@, 0)) == Ok::<Seq<MapsEntryView>, MapsError>(
                entry_views(entries@),
            ),
            Err(e) => parsed_lines(lines_from(text@, 0)) == Err::<Seq<MapsEntryView>, MapsError>(e),
        },
{
    let chars = chars_of(text);
    let mut entries: Vec<MapsEntry> = Vec::new();
    let mut from: usize = 0;
    let ghost whole = parsed_lines(lines_from(text@, 0));
    proof {
        assert(entry_views(entries@) =~= Seq::<MapsEntryView>::empty());
        match whole {
            Ok(more) => {
                assert(Seq::<MapsEntryView>::empty() + more =~= more);
            },
            Err(e) => {},
        }
    }
    while from < chars.len()
        invariant
            chars@ == text@,
            from <= chars.len(),
            whole == parsed_lines(lines_from(text@, 0)),
            whole == continued(entry_views(entries@), parsed_lines(lines_from(text@, from as int))),
        decreases chars.len() - from,
    {
        let end = match find(&chars, from, chars.len(), '\n') {
            Some(i) => i,
            None => chars.len(),
        };
        let stop = if from < end && end < chars.len() && chars[end - 1] == '\r' {
            end - 1
        } else {
            end
        };
        let next = if end < chars.len() {
            end + 1
        } else {
            end
        };
        let ghost done = entry_views(entries@);
        let ghost line = text@.subrange(from as int, stop as int);
        let ghost rest = lines_from(text@, next as int);
        proof {
            assert(end == line_end(text@, from as int));
            assert(stop == line_stop(text@, from as int, end as int));
            assert(lines_from(text@, from as int) =~= seq![line] + rest);
            lemma_continued(done, line, rest);
        }
        match MapsEntry::from_str(text.substring_char(from, stop)) {
            Ok(entry) => {
                entries.push(entry);
                proof {
                    assert(entry_views(entries@) =~= done.push(entry@));
                }
            },
            Err(e) => {
                return Err(e);
            },
        }
        from = next;
    }
    proof {
        assert(entry_views(entries@) + Seq::<MapsEntryView>::empty() =~= entry_views(entries@));
    }
    Ok(entries)
}

} // verus!
