//! Preparing the Windows debug-help library: the name of the lock that
//! serializes its users across a process, its options, and the path on
//! which it searches for symbol files.
use crate::symbolize::dbghelp::{terminated, terminated_len};
use vstd::prelude::*;
use vstd::slice::slice_subrange;
use vstd::string::StringSliceAdditionalSpecFns;

verus! {

/// The option that makes the library load symbols only when they are
/// asked for.
pub const SYMOPT_DEFERRED_LOADS: u32 = 0x4;

/// The options to set, given the options in force.
pub fn symbol_options(current: u32) -> (r: u32)
    ensures
        r == current | SYMOPT_DEFERRED_LOADS,
{
    current | SYMOPT_DEFERRED_LOADS
}

/// The single UTF-16 unit of a character of the basic plane.
pub fn utf16_char(c: char) -> (r: u16)
    requires
        c as u32 <= 0xFFFF,
    ensures
        r == c as u32,
{
    let code = c as u32;
    code as u16
}

/// The upper-case hexadecimal digit for a value below sixteen.
pub open spec fn upper_hex(v: int) -> u8 {
    if v < 10 {
        (48 + v) as u8
    } else {
        (55 + v) as u8
    }
}

/// The eight upper-case hexadecimal digits of `id`.
pub open spec fn hex8(id: u32) -> Seq<u8> {
    Seq::new(8, |i: int| digit_at(id, (7 - i) as nat))
}

/// The hexadecimal digit of `id` that counts the `place`-th power of
/// sixteen.
pub open spec fn digit_at(id: u32, place: nat) -> u8 {
    upper_hex((id as int / pow16(place)) % 16)
}

/// Sixteen to the power of `n`.
pub open spec fn pow16(n: nat) -> int
    decreases n,
{
    if n == 0 {
        1
    } else {
        16 * pow16((n - 1) as nat)
    }
}

/// The name of the lock of the process `id`: a fixed prefix, the
/// process's number in eight hexadecimal digits, and a terminating
/// zero.
pub open spec fn lock_name(id: u32) -> Seq<u8> {
    "Local\\RustBacktraceMutex".spec_bytes() + hex8(id) + seq![0u8]
}

/// Builds the name under which the processes's users of the library find
/// their common lock.
pub fn mutex_name(id: u32) -> (name: Vec<u8>)
    ensures
        name@ == lock_name(id),
{
    let mut name = "Local\\RustBacktraceMutex".as_bytes_vec();
    let ghost prefix = name@;
    let mut digits: Vec<u8> = Vec::new();
    let mut rest = id;
    let mut k: usize = 0;
    while k < 8
        invariant
            k <= 8,
            digits.len() == k,
            rest == id as int / pow16(k as nat),
            pow16(k as nat) > 0,
            forall|j: int| 0 <= j < k ==> (#[trigger] digits@[j]) == digit_at(id, j as nat),
        decreases 8 - k,
    {
        let low = rest % 16;
        digits.push(if low < 10 { 48 + low as u8 } else { 55 + low as u8 });
        proof {
            let p = pow16(k as nat);
            let n = id as int;
            assert(pow16((k + 1) as nat) == 16 * p);
            assert(n / (16 * p) == (n / p) / 16) by (nonlinear_arith)
                requires
                    p > 0,
                    n >= 0,
            ;
        }
        rest = rest / 16;
        k += 1;
    }
    let mut i: usize = 8;
    while i > 0
        invariant
            i <= 8,
            digits.len() == 8,
            name@ == prefix + hex8(id).take(8 - i),
            forall|j: int| 0 <= j < 8 ==> (#[trigger] digits@[j]) == digit_at(id, j as nat),
        decreases i,
    {
        i -= 1;
        name.push(digits[i]);
        proof {
            assert(hex8(id)[7 - i] == digits@[i as int]);
            assert(name@ =~= prefix + hex8(id).take(8 - i));
        }
    }
    name.push(0);
    proof {
        assert(hex8(id).take(8) =~= hex8(id));
    }
    name
}

/// Whether a UTF-16 unit separates the parts of a file path.
pub open spec fn is_path_separator(unit: u16) -> bool {
    unit == 0x5C || unit == 0x2F
}

/// The directory part of a path: what stands before its last separator.
/// A path without separator has none.
pub open spec fn directory_of(path: Seq<u16>) -> Option<Seq<u16>>
    decreases path.len(),
{
    if path.len() == 0 {
        None
    } else if is_path_separator(path.last()) {
        Some(path.drop_last())
    } else {
        directory_of(path.drop_last())
    }
}

/// Finds the directory part of the path of a loaded module.
pub fn module_directory(module_name: &[u16]) -> (r: Option<&[u16]>)
    ensures
        match r {
            Some(dir) => directory_of(module_name@) == Some(dir@),
            None => directory_of(module_name@) is None,
        },
{
    let mut end = module_name.len();
    proof {
        assert(module_name@.take(end as int) =~= module_name@);
    }
    while end > 0
        invariant
            end <= module_name.len(),
            directory_of(module_name@.take(end as int)) == directory_of(module_name@),
        decreases end,
    {
        let unit = module_name[end - 1];
        proof {
            let head = module_name@.take(end as int);
            assert(head.last() == unit);
            assert(head.drop_last() =~= module_name@.take(end - 1));
        }
        if unit == 0x5C || unit == 0x2F {
            let dir = slice_subrange(module_name, 0, end - 1);
            proof {
                assert(dir@ =~= module_name@.take(end - 1));
            }
            return Some(dir);
        }
        end -= 1;
    }
    None
}

/// The unit that separates the entries of a search path.
pub const ENTRY_SEPARATOR: u16 = 0x3B;

/// Whether `path` stands in `list` as an entry of its own: bounded on
/// either side by a separator or an end of the list, and holding no
/// separator itself.
pub open spec fn is_entry_at(list: Seq<u16>, path: Seq<u16>, at: int) -> bool {
    &&& 0 <= at
    &&& at + path.len() <= list.len()
    &&& at == 0 || list[at - 1] == ENTRY_SEPARATOR
    &&& at + path.len() == list.len() || list[at + path.len()] == ENTRY_SEPARATOR
    &&& list.subrange(at, at + path.len()) == path
    &&& forall|k: int| 0 <= k < path.len() ==> path[k] != ENTRY_SEPARATOR
}

/// Whether `path` is among the entries of `list`.
pub open spec fn has_entry(list: Seq<u16>, path: Seq<u16>) -> bool {
    exists|at: int| is_entry_at(list, path, at)
}

/// The search path after `path` was added: unchanged where it holds the
/// entry already, else longer by a separator, unless it ends in one, and
/// the entry.
pub open spec fn with_entry(list: Seq<u16>, path: Seq<u16>) -> Seq<u16> {
    if has_entry(list, path) {
        list
    } else if list.len() > 0 && list.last() == ENTRY_SEPARATOR {
        list + path
    } else {
        list.push(ENTRY_SEPARATOR) + path
    }
}

/// The search path to start from: what the library reported, up to its
/// terminating zero, or the current directory where it reported nothing.
pub open spec fn initial_path(buffer: Seq<u16>, reported: bool) -> Seq<u16> {
    if reported {
        terminated(buffer)
    } else {
        seq![0x2Eu16, ENTRY_SEPARATOR]
    }
}

/// The search path with the directory of each module added in turn.
pub open spec fn with_modules(list: Seq<u16>, modules: Seq<Vec<u16>>) -> Seq<u16>
    decreases modules.len(),
{
    if modules.len() == 0 {
        list
    } else {
        let earlier = with_modules(list, modules.drop_last());
        match directory_of(modules.last()@) {
            Some(dir) => with_entry(earlier, dir),
            None => earlier,
        }
    }
}

/// A list of directories in which symbol files are searched for.
#[derive(Debug)]
pub struct SearchPath {
    search_path_utf16: Vec<u16>,
}

impl View for SearchPath {
    type V = Seq<u16>;

    closed spec fn view(&self) -> Seq<u16> {
        self.search_path_utf16@
    }
}

impl SearchPath {
    /// A search path with the given contents.
    pub fn new(initial_search_path: Vec<u16>) -> (r: SearchPath)
        ensures
            r@ == initial_search_path@,
    {
        SearchPath { search_path_utf16: initial_search_path }
    }

    /// The search path to start from. `buffer` is the buffer handed to
    /// the library's query for its search path, `reported` whether the
    /// query succeeded.
    pub fn from_query(buffer: Vec<u16>, reported: bool) -> (r: SearchPath)
        ensures
            r@ == initial_path(buffer@, reported),
    {
        let mut buffer = buffer;
        let ghost given = buffer@;
        if reported {
            let n = terminated_len(buffer.as_slice());
            buffer.truncate(n);
            proof {
                assert(given.subrange(0, n as int) =~= given.take(n as int));
            }
        } else {
            buffer.clear();
            buffer.push(utf16_char('.'));
            buffer.push(utf16_char(';'));
            proof {
                assert(buffer@ =~= seq![0x2Eu16, ENTRY_SEPARATOR]);
            }
        }
        SearchPath { search_path_utf16: buffer }
    }

    /// Whether `path` is among the entries.
    pub fn contains(&self, path: &[u16]) -> (r: bool)
        ensures
            r == has_entry(self@, path@),
    {
        let list = &self.search_path_utf16;
        let mut clean = true;
        let mut k: usize = 0;
        while k < path.len()
            invariant
                k <= path.len(),
                clean == forall|j: int| 0 <= j < k ==> path@[j] != ENTRY_SEPARATOR,
            decreases path.len() - k,
        {
            if path[k] == ENTRY_SEPARATOR {
                clean = false;
            }
            k += 1;
        }
        if !clean || path.len() > list.len() {
            proof {
                assert forall|at: int| !is_entry_at(list@, path@, at) by {}
            }
            return false;
        }
        let limit = list.len() - path.len();
        let mut at: usize = 0;
        loop
            invariant
                at <= limit,
                limit == list.len() - path.len(),
                path.len() <= list.len(),
                list == &self.search_path_utf16,
                forall|j: int| 0 <= j < path.len() ==> path@[j] != ENTRY_SEPARATOR,
                forall|a: int| 0 <= a < at ==> !is_entry_at(list@, path@, a),
            decreases limit - at,
        {
            let starts = at == 0 || list[at - 1] == ENTRY_SEPARATOR;
            let ends = at == limit || list[at + path.len()] == ENTRY_SEPARATOR;
            if starts && ends {
                let mut same = true;
                let mut j: usize = 0;
                proof {
                    assert(list@.subrange(at as int, at + 0) =~= path@.take(0));
                }
                while j < path.len()
                    invariant
                        j <= path.len(),
                        at + path.len() <= list.len(),
                        same == (list@.subrange(at as int, at + j) == path@.take(j as int)),
                    decreases path.len() - j,
                {
                    proof {
                        let a = list@.subrange(at as int, at + j);
                        let b = path@.take(j as int);
                        let a2 = list@.subrange(at as int, at + j + 1);
                        let b2 = path@.take(j + 1);
                        assert(a2.drop_last() =~= a && b2.drop_last() =~= b);
                        assert(a2.last() == list@[at + j] && b2.last() == path@[j as int]);
                        if a == b && list@[at + j] == path@[j as int] {
                            assert(a2 =~= b2);
                        }
                    }
                    if list[at + j] != path[j] {
                        same = false;
                    }
                    j += 1;
                }
                proof {
                    assert(path@.take(path.len() as int) =~= path@);
                }
                if same {
                    proof {
                        assert(is_entry_at(list@, path@, at as int));
                    }
                    return true;
                }
            }
            if at == limit {
                proof {
                    assert forall|a: int| !is_entry_at(list@, path@, a) by {}
                }
                return false;
            }
            at += 1;
        }
    }

    /// Adds a path to the search path if it is not already present.
    pub fn add(&mut self, path: &[u16])
        ensures
            final(self)@ == with_entry(old(self)@, path@),
    {
        if !self.contains(path) {
            let n = self.search_path_utf16.len();
            if n == 0 || self.search_path_utf16[n - 1] != ENTRY_SEPARATOR {
                self.search_path_utf16.push(ENTRY_SEPARATOR);
            }
            self.search_path_utf16.extend_from_slice(path);
        }
    }

    /// Adds the directory of a loaded module, given the module's path.
    /// A path without directory part adds nothing.
    pub fn add_module(&mut self, module_name: &[u16])
        ensures
            final(self)@ == match directory_of(module_name@) {
                Some(dir) => with_entry(old(self)@, dir),
                None => old(self)@,
            },
    {
        match module_directory(module_name) {
            Some(dir) => self.add(dir),
            None => {},
        }
    }

    /// Ends the search path with a zero unit and hands it out.
    pub fn finalize(self) -> (r: Vec<u16>)
        ensures
            r@ == self@.push(0u16),
    {
        let mut list = self.search_path_utf16;
        list.push(0);
        list
    }
}

/// Builds the search path to give to the library: the path it reported,
/// or the current directory, extended by the directory of every loaded
/// module, and ended by a zero unit.
pub fn set_optional_options(buffer: Vec<u16>, reported: bool, modules: &Vec<Vec<u16>>) -> (r: Vec<u16>)
    ensures
        r@ == with_modules(initial_path(buffer@, reported), modules@).push(0u16),
{
    let mut path = SearchPath::from_query(buffer, reported);
    let ghost start = path@;
    let mut i: usize = 0;
    while i < modules.len()
        invariant
            i <= modules.len(),
            path@ == with_modules(start, modules@.take(i as int)),
        decreases modules.len() - i,
    {
        proof {
            assert(modules@.take(i + 1).drop_last() =~= modules@.take(i as int));
        }
        path.add_module(modules[i].as_slice());
        i += 1;
    }
    proof {
        assert(modules@.take(modules.len() as int) =~= modules@);
    }
    path.finalize()
}

} // verus!
