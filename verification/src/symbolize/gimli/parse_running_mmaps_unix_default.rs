//! The listing of memory mappings in the format of Linux and most other
//! Unix systems, read strictly: fields are separated by blanks, the
//! permissions have exactly four marks, and the path is a single word.
use super::parse_running_mmaps_unix::{
    bounds, chars_of, field, hex, hex_pair, parse_hex, parse_hex_pair, Field, MapsEntry, MapsEntryView,
    MapsError, Separator,
};
use vstd::prelude::*;

verus! {

/// The file that lists the mappings of the running process, and the number
/// of leading lines in it that describe no mapping.
pub fn config() -> (r: (&'static str, usize))
    ensures
        r.0@ == "/proc/self/maps"@,
        r.1 == 0,
{
    ("/proc/self/maps", 0)
}

/// What a line of the listing says.
pub open spec fn parsed_line(s: Seq<char>) -> Result<MapsEntryView, MapsError> {
    let sep = Separator::Blank;
    if field(s, 0, sep).len() == 0 {
        Err(MapsError::MissingField(Field::Address))
    } else if field(s, 1, sep).len() == 0 {
        Err(MapsError::MissingField(Field::Permissions))
    } else if field(s, 2, sep).len() == 0 {
        Err(MapsError::MissingField(Field::Offset))
    } else if field(s, 3, sep).len() == 0 {
        Err(MapsError::MissingField(Field::Dev))
    } else if field(s, 4, sep).len() == 0 {
        Err(MapsError::MissingField(Field::Inode))
    } else {
        match hex_pair(field(s, 0, sep), '-') {
            None => Err(MapsError::AddressRange),
            Some(None) => Err(MapsError::HexNumber),
            Some(Some(address)) => if field(s, 1, sep).len() < 4 {
                Err(MapsError::InsufficientPerms)
            } else if field(s, 1, sep).len() > 4 {
                Err(MapsError::TooManyPerms)
            } else {
                match hex(field(s, 2, sep)) {
                    None => Err(MapsError::HexNumber),
                    Some(offset) => match hex_pair(field(s, 3, sep), ':') {
                        None => Err(MapsError::Device),
                        Some(None) => Err(MapsError::HexNumber),
                        Some(Some(dev)) => match hex(field(s, 4, sep)) {
                            None => Err(MapsError::HexNumber),
                            Some(inode) => Ok(
                                MapsEntryView {
                                    address,
                                    perms: field(s, 1, sep),
                                    offset,
                                    dev,
                                    inode,
                                    pathname: field(s, 5, sep),
                                },
                            ),
                        },
                    },
                }
            },
        }
    }
}

/// Reads one line of the listing.
pub fn from_str(s: &str) -> (r: Result<MapsEntry, MapsError>)
    ensures
        match r {
            Ok(entry) => parsed_line(s@) == Ok::<MapsEntryView, MapsError>(entry@),
            Err(e) => parsed_line(s@) == Err::<MapsEntryView, MapsError>(e),
        },
{
    let sep = Separator::Blank;
    let line = chars_of(s);
    let at = bounds(&line, 6, sep);
    let (range, perms, offset, dev, inode, path) = (at[0], at[1], at[2], at[3], at[4], at[5]);
    if range.0 == range.1 {
        return Err(MapsError::MissingField(Field::Address));
    }
    if perms.0 == perms.1 {
        return Err(MapsError::MissingField(Field::Permissions));
    }
    if offset.0 == offset.1 {
        return Err(MapsError::MissingField(Field::Offset));
    }
    if dev.0 == dev.1 {
        return Err(MapsError::MissingField(Field::Dev));
    }
    if inode.0 == inode.1 {
        return Err(MapsError::MissingField(Field::Inode));
    }
    let address = match parse_hex_pair(&line, range.0, range.1, '-') {
        None => {
            return Err(MapsError::AddressRange);
        },
        Some(None) => {
            return Err(MapsError::HexNumber);
        },
        Some(Some(address)) => address,
    };
    if perms.1 - perms.0 < 4 {
        return Err(MapsError::InsufficientPerms);
    }
    if perms.1 - perms.0 > 4 {
        return Err(MapsError::TooManyPerms);
    }
    let marks = [line[perms.0], line[perms.0 + 1], line[perms.0 + 2], line[perms.0 + 3]];
    proof {
        assert(marks@ =~= field(s@, 1, sep));
    }
    let offset = match parse_hex(&line, offset.0, offset.1) {
        None => {
            return Err(MapsError::HexNumber);
        },
        Some(offset) => offset,
    };
    let dev = match parse_hex_pair(&line, dev.0, dev.1, ':') {
        None => {
            return Err(MapsError::Device);
        },
        Some(None) => {
            return Err(MapsError::HexNumber);
        },
        Some(Some(dev)) => dev,
    };
    let inode = match parse_hex(&line, inode.0, inode.1) {
        None => {
            return Err(MapsError::HexNumber);
        },
        Some(inode) => inode,
    };
    let pathname = s.substring_char(path.0, path.1).to_owned();
    Ok(MapsEntry::new(address, marks, offset, dev, inode, pathname))
}

} // verus!
