//! The listing of memory mappings in the format of QNX Neutrino: thirteen
//! fields separated by commas, the numbers written with a two-character
//! prefix,
//!
//! ```text
//! vaddr,size,flags,prot,maxprot,dev,ino,offset,rsv,guardsize,refcnt,mapcnt,path
//! ```
use super::parse_running_mmaps_unix::{
    chars_of, hex, parse_hex, run_end, scan, Field, MapsEntry, MapsEntryView, MapsError, Separator,
};
use vstd::prelude::*;

verus! {

/// The file that lists the mappings of the running process, and the number
/// of leading lines in it that describe no mapping.
pub fn config() -> (r: (&'static str, usize))
    ensures
        r.0@ == "/proc/self/pmap"@,
        r.1 == 1,
{
    ("/proc/self/pmap", 1)
}

/// Number of fields that a line must have; a path may follow them.
pub const REQUIRED_FIELDS: usize = 12;

/// Where the `k`-th comma-separated field of `s` starts; `None` where
/// `s` has no more than `k` fields.
pub open spec fn field_start(s: Seq<char>, k: nat) -> Option<int>
    decreases k,
{
    if k == 0 {
        Some(0)
    } else {
        match field_start(s, (k - 1) as nat) {
            Some(start) => {
                let end = run_end(s, start, Separator::Comma, false);
                if end < s.len() {
                    Some(end + 1)
                } else {
                    None
                }
            },
            None => None,
        }
    }
}

/// The `k`-th comma-separated field of `s`, which may be empty.
pub open spec fn field(s: Seq<char>, k: nat) -> Option<Seq<char>> {
    match field_start(s, k) {
        Some(start) => Some(s.subrange(start, run_end(s, start, Separator::Comma, false))),
        None => None,
    }
}

/// The name of the `k`-th required field.
pub open spec fn field_name(k: int) -> Field {
    if k == 0 {
        Field::VirtualAddress
    } else if k == 1 {
        Field::Size
    } else if k == 2 {
        Field::Flags
    } else if k == 3 {
        Field::Protection
    } else if k == 4 {
        Field::MaximumProtection
    } else if k == 5 {
        Field::Device
    } else if k == 6 {
        Field::Inode
    } else if k == 7 {
        Field::Offset
    } else if k == 8 {
        Field::ReservedPages
    } else if k == 9 {
        Field::GuardSize
    } else if k == 10 {
        Field::ReferenceCount
    } else {
        Field::MappedCount
    }
}

/// The number written by a field after its two-character prefix.
pub open spec fn prefixed_hex(w: Seq<char>) -> Option<usize> {
    if w.len() < 2 {
        None
    } else {
        hex(w.skip(2))
    }
}

/// The permission marks that the protection bits stand for.
pub open spec fn protection_marks(prot: usize) -> Seq<char> {
    seq![
        if prot & 1 != 0 { 'r' } else { '-' },
        if prot & 2 != 0 { 'w' } else { '-' },
        if prot & 4 != 0 { 'x' } else { '-' },
        '-',
    ]
}

/// Whether `k` is the first required field that the line lacks.
pub open spec fn first_missing(s: Seq<char>, k: int) -> bool {
    &&& 0 <= k < REQUIRED_FIELDS
    &&& field(s, k as nat) is None
    &&& forall|j: int| 0 <= j < k ==> (#[trigger] field(s, j as nat)) is Some
}

/// What a line of the listing says.
pub open spec fn parsed_line(s: Seq<char>) -> Result<MapsEntryView, MapsError> {
    if exists|k: int| first_missing(s, k) {
        Err(MapsError::MissingField(field_name(choose|k: int| first_missing(s, k))))
    } else {
        match (prefixed_hex(field(s, 0).unwrap()), prefixed_hex(field(s, 1).unwrap())) {
            (Some(start), Some(size)) => if start + size > usize::MAX {
                Err(MapsError::AddressOverflow)
            } else {
                match (
                    prefixed_hex(field(s, 3).unwrap()),
                    prefixed_hex(field(s, 7).unwrap()),
                    prefixed_hex(field(s, 5).unwrap()),
                    prefixed_hex(field(s, 6).unwrap()),
                ) {
                    (Some(prot), Some(offset), Some(dev), Some(inode)) => Ok(
                        MapsEntryView {
                            address: (start, (start + size) as usize),
                            perms: protection_marks(prot),
                            offset,
                            dev: (dev, 0),
                            inode,
                            pathname: match field(s, 12) {
                                Some(path) => path,
                                None => Seq::empty(),
                            },
                        },
                    ),
                    _ => Err(MapsError::HexNumber),
                }
            },
            _ => Err(MapsError::HexNumber),
        }
    }
}

/// Reads the characters `lo..hi` of `line` as a number behind a
/// two-character prefix.
fn parse_prefixed(line: &Vec<char>, lo: usize, hi: usize) -> (r: Option<usize>)
    requires
        lo <= hi <= line.len(),
    ensures
        r == prefixed_hex(line@.subrange(lo as int, hi as int)),
{
    if hi - lo < 2 {
        None
    } else {
        proof {
            assert(line@.subrange(lo as int, hi as int).skip(2) =~= line@.subrange(lo + 2, hi as int));
        }
        parse_hex(line, lo + 2, hi)
    }
}

/// The name of the `k`-th required field.
fn name_of(k: usize) -> (r: Field)
    requires
        k < REQUIRED_FIELDS,
    ensures
        r == field_name(k as int),
{
    if k == 0 {
        Field::VirtualAddress
    } else if k == 1 {
        Field::Size
    } else if k == 2 {
        Field::Flags
    } else if k == 3 {
        Field::Protection
    } else if k == 4 {
        Field::MaximumProtection
    } else if k == 5 {
        Field::Device
    } else if k == 6 {
        Field::Inode
    } else if k == 7 {
        Field::Offset
    } else if k == 8 {
        Field::ReservedPages
    } else if k == 9 {
        Field::GuardSize
    } else if k == 10 {
        Field::ReferenceCount
    } else {
        Field::MappedCount
    }
}

/// Reads one line of the listing.
pub fn from_str(s: &str) -> (r: Result<MapsEntry, MapsError>)
    ensures
        match r {
            Ok(entry) => parsed_line(s@) == Ok::<MapsEntryView, MapsError>(entry@),
            Err(e) => parsed_line(s@) == Err::<MapsEntryView, MapsError>(e),
        },
{
    let line = chars_of(s);
    let mut at: Vec<(usize, usize)> = Vec::new();
    let mut start: usize = 0;
    let mut has_path = false;
    while at.len() < REQUIRED_FIELDS
        invariant
            line@ == s@,
            at.len() <= REQUIRED_FIELDS,
            start <= line.len(),
            at.len() < REQUIRED_FIELDS ==> field_start(s@, at.len() as nat) == Some(start as int),
            at.len() == REQUIRED_FIELDS ==> field_start(s@, REQUIRED_FIELDS as nat) == if has_path {
                Some(start as int)
            } else {
                None
            },
            forall|k: int|
                0 <= k < at.len() ==> {
                    &&& (#[trigger] at@[k]).0 <= at@[k].1 <= line.len()
                    &&& field(s@, k as nat) == Some(s@.subrange(at@[k].0 as int, at@[k].1 as int))
                },
        decreases REQUIRED_FIELDS - at.len(),
    {
        let ghost here = at.len() as nat;
        let end = scan(&line, start, Separator::Comma, false);
        at.push((start, end));
        proof {
            assert(field(s@, here) == Some(s@.subrange(start as int, end as int)));
            assert(field_start(s@, here + 1) == if end < line.len() {
                Some(end + 1)
            } else {
                None
            });
        }
        if end < line.len() {
            start = end + 1;
            has_path = true;
        } else if at.len() < REQUIRED_FIELDS {
            proof {
                let missing = at.len() as int;
                assert(field(s@, missing as nat) is None);
                assert forall|j: int| 0 <= j < missing implies (#[trigger] field(s@, j as nat)) is Some by {
                    assert(at@[j].0 <= at@[j].1);
                }
                assert(first_missing(s@, missing));
                let k = choose|k: int| first_missing(s@, k);
                if k < missing {
                    assert(field(s@, k as nat) is Some);
                } else if missing < k {
                    assert(field(s@, missing as nat) is Some);
                }
            }
            return Err(MapsError::MissingField(name_of(at.len())));
        } else {
            has_path = false;
        }
    }
    proof {
        assert forall|k: int| !first_missing(s@, k) by {
            if 0 <= k < REQUIRED_FIELDS {
                assert(at@[k].0 <= at@[k].1);
                assert(field(s@, k as nat) is Some);
            }
        }
    }
    let first = parse_prefixed(&line, at[0].0, at[0].1);
    let size = parse_prefixed(&line, at[1].0, at[1].1);
    let (first, size) = match (first, size) {
        (Some(first), Some(size)) => (first, size),
        _ => {
            return Err(MapsError::HexNumber);
        },
    };
    if size > usize::MAX - first {
        return Err(MapsError::AddressOverflow);
    }
    let prot = parse_prefixed(&line, at[3].0, at[3].1);
    let offset = parse_prefixed(&line, at[7].0, at[7].1);
    let dev = parse_prefixed(&line, at[5].0, at[5].1);
    let inode = parse_prefixed(&line, at[6].0, at[6].1);
    match (prot, offset, dev, inode) {
        (Some(prot), Some(offset), Some(dev), Some(inode)) => {
            let marks = [
                if prot & 1 != 0 { 'r' } else { '-' },
                if prot & 2 != 0 { 'w' } else { '-' },
                if prot & 4 != 0 { 'x' } else { '-' },
                '-',
            ];
            proof {
                assert(marks@ =~= protection_marks(prot));
            }
            let pathname = if has_path {
                let path_end = scan(&line, start, Separator::Comma, false);
                s.substring_char(start, path_end).to_owned()
            } else {
                s.substring_char(0, 0).to_owned()
            };
            proof {
                assert(s@.subrange(0, 0) =~= Seq::<char>::empty());
            }
            Ok(MapsEntry::new((first, first + size), marks, offset, (dev, 0), inode, pathname))
        },
        _ => Err(MapsError::HexNumber),
    }
}

} // verus!
