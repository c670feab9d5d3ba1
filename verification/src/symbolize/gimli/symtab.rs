//! The fallback symbol table: symbols ordered by address, and the search
//! for the symbol that most closely precedes an address.
use vstd::prelude::*;

verus! {

/// One entry of the fallback symbol table.
#[derive(Clone, Copy, Debug, PartialEq, Eq, Structural)]
pub struct ParsedSym {
    /// Address of the symbol as stated in the file.
    pub address: u64,
    /// Size of the symbol in bytes; zero where the format records none.
    pub size: u64,
    /// Where the symbol's name is found in the file's name table.
    pub name: u32,
}

/// Whether the addresses of `s` never decrease from one entry to the next.
pub open spec fn ascending(s: Seq<ParsedSym>) -> bool {
    forall|i: int, j: int| 0 <= i <= j < s.len() ==> s[i].address <= s[j].address
}

/// Interleaves two tables by address; on equal addresses the entry of `a`
/// comes first.
pub open spec fn merged(a: Seq<ParsedSym>, b: Seq<ParsedSym>) -> Seq<ParsedSym>
    decreases a.len() + b.len(),
{
    if a.len() == 0 {
        b
    } else if b.len() == 0 {
        a
    } else if a[0].address <= b[0].address {
        seq![a[0]] + merged(a.skip(1), b)
    } else {
        seq![b[0]] + merged(a, b.skip(1))
    }
}

/// The table `s` rearranged by ascending address, entries of equal address
/// keeping the order they had in `s`.
pub open spec fn sorted_by_address(s: Seq<ParsedSym>) -> Seq<ParsedSym>
    decreases s.len(),
{
    if s.len() <= 1 {
        s
    } else {
        let mid = (s.len() / 2) as int;
        merged(sorted_by_address(s.take(mid)), sorted_by_address(s.skip(mid)))
    }
}

/// Merging two ascending tables gives an ascending table that holds
/// exactly the entries of both.
pub proof fn lemma_merged(a: Seq<ParsedSym>, b: Seq<ParsedSym>)
    requires
        ascending(a),
        ascending(b),
    ensures
        ascending(merged(a, b)),
        merged(a, b).len() == a.len() + b.len(),
        merged(a, b).to_multiset() == a.to_multiset().add(b.to_multiset()),
        forall|k: int| 0 <= k < merged(a, b).len() ==> (exists|i: int| 0 <= i < a.len() && a[i] == #[trigger] merged(a, b)[k])
            || (exists|j: int| 0 <= j < b.len() && b[j] == merged(a, b)[k]),
    decreases a.len() + b.len(),
{
    broadcast use vstd::seq_lib::group_to_multiset_ensures;
    let m = merged(a, b);
    if a.len() == 0 {
        assert(a.to_multiset() =~= vstd::multiset::Multiset::empty());
        assert(m.to_multiset() =~= a.to_multiset().add(b.to_multiset()));
    } else if b.len() == 0 {
        assert(b.to_multiset() =~= vstd::multiset::Multiset::empty());
        assert(m.to_multiset() =~= a.to_multiset().add(b.to_multiset()));
    } else if a[0].address <= b[0].address {
        let rest = merged(a.skip(1), b);
        lemma_merged(a.skip(1), b);
        assert(a.to_multiset() =~= a.skip(1).to_multiset().insert(a[0])) by {
            vstd::seq_lib::to_multiset_insert(a.skip(1), 0, a[0]);
            assert(a =~= a.skip(1).insert(0, a[0]));
        }
        assert(m.to_multiset() =~= rest.to_multiset().insert(a[0])) by {
            vstd::seq_lib::to_multiset_insert(rest, 0, a[0]);
            assert(m =~= rest.insert(0, a[0]));
        }
        assert(m.to_multiset() =~= a.to_multiset().add(b.to_multiset()));
        assert forall|i: int, j: int| 0 <= i <= j < m.len() implies m[i].address <= m[j].address by {
            if i == 0 {
                if j > 0 {
                    let e = rest[j - 1];
                    assert(m[j] == e);
                    if exists|x: int| 0 <= x < a.skip(1).len() && a.skip(1)[x] == e {
                        let x = choose|x: int| 0 <= x < a.skip(1).len() && a.skip(1)[x] == e;
                        assert(a[x + 1] == e);
                    } else {
                        let y = choose|y: int| 0 <= y < b.len() && b[y] == e;
                        assert(b[0].address <= b[y].address);
                    }
                }
            } else {
                assert(m[i] == rest[i - 1] && m[j] == rest[j - 1]);
            }
        }
        assert forall|k: int| 0 <= k < m.len() implies (exists|i: int| 0 <= i < a.len() && a[i] == #[trigger] m[k])
            || (exists|j: int| 0 <= j < b.len() && b[j] == m[k]) by {
            if k == 0 {
                assert(a[0] == m[0]);
            } else {
                let e = rest[k - 1];
                assert(m[k] == e);
                if exists|x: int| 0 <= x < a.skip(1).len() && a.skip(1)[x] == e {
                    let x = choose|x: int| 0 <= x < a.skip(1).len() && a.skip(1)[x] == e;
                    assert(a[x + 1] == e);
                }
            }
        }
    } else {
        let rest = merged(a, b.skip(1));
        lemma_merged(a, b.skip(1));
        assert(b.to_multiset() =~= b.skip(1).to_multiset().insert(b[0])) by {
            vstd::seq_lib::to_multiset_insert(b.skip(1), 0, b[0]);
            assert(b =~= b.skip(1).insert(0, b[0]));
        }
        assert(m.to_multiset() =~= rest.to_multiset().insert(b[0])) by {
            vstd::seq_lib::to_multiset_insert(rest, 0, b[0]);
            assert(m =~= rest.insert(0, b[0]));
        }
        assert(m.to_multiset() =~= a.to_multiset().add(b.to_multiset()));
        assert forall|i: int, j: int| 0 <= i <= j < m.len() implies m[i].address <= m[j].address by {
            if i == 0 {
                if j > 0 {
                    let e = rest[j - 1];
                    assert(m[j] == e);
                    if exists|x: int| 0 <= x < a.len() && a[x] == e {
                        let x = choose|x: int| 0 <= x < a.len() && a[x] == e;
                        assert(a[0].address <= a[x].address);
                    } else {
                        let y = choose|y: int| 0 <= y < b.skip(1).len() && b.skip(1)[y] == e;
                        assert(b[y + 1] == e);
                    }
                }
            } else {
                assert(m[i] == rest[i - 1] && m[j] == rest[j - 1]);
            }
        }
        assert forall|k: int| 0 <= k < m.len() implies (exists|i: int| 0 <= i < a.len() && a[i] == #[trigger] m[k])
            || (exists|j: int| 0 <= j < b.len() && b[j] == m[k]) by {
            if k == 0 {
                assert(b[0] == m[0]);
            } else {
                let e = rest[k - 1];
                assert(m[k] == e);
                if exists|x: int| 0 <= x < a.len() && a[x] == e {
                } else {
                    let y = choose|y: int| 0 <= y < b.skip(1).len() && b.skip(1)[y] == e;
                    assert(b[y + 1] == e);
                }
            }
        }
    }
}

/// Sorting by address gives an ascending table that holds exactly the
/// entries it was given.
pub proof fn lemma_sorted_by_address(s: Seq<ParsedSym>)
    ensures
        ascending(sorted_by_address(s)),
        sorted_by_address(s).len() == s.len(),
        sorted_by_address(s).to_multiset() == s.to_multiset(),
    decreases s.len(),
{
    if s.len() <= 1 {
    } else {
        let mid = (s.len() / 2) as int;
        lemma_sorted_by_address(s.take(mid));
        lemma_sorted_by_address(s.skip(mid));
        lemma_merged(sorted_by_address(s.take(mid)), sorted_by_address(s.skip(mid)));
        assert(s =~= s.take(mid) + s.skip(mid));
        vstd::seq_lib::lemma_multiset_commutative(s.take(mid), s.skip(mid));
    }
}

/// Position of the last entry of `table` whose address is at most `addr`.
pub open spec fn last_at_most(table: Seq<ParsedSym>, addr: u64) -> Option<int>
    decreases table.len(),
{
    if table.len() == 0 {
        None
    } else if table.last().address <= addr {
        Some(table.len() - 1)
    } else {
        last_at_most(table.drop_last(), addr)
    }
}

/// In an ascending table, an entry at or below `addr` whose successor lies
/// above `addr` is the last entry at or below `addr`.
pub proof fn lemma_last_at_most_found(table: Seq<ParsedSym>, addr: u64, i: int)
    requires
        ascending(table),
        0 <= i < table.len(),
        table[i].address <= addr,
        i + 1 < table.len() ==> table[i + 1].address > addr,
    ensures
        last_at_most(table, addr) == Some(i),
    decreases table.len(),
{
    if table.last().address <= addr {
        if i + 1 < table.len() {
            assert(table[i + 1].address <= table[table.len() - 1].address);
        }
    } else {
        let shorter = table.drop_last();
        assert forall|x: int, y: int| 0 <= x <= y < shorter.len() implies shorter[x].address <= shorter[y].address by {
            assert(shorter[x] == table[x] && shorter[y] == table[y]);
        }
        assert(shorter[i] == table[i]);
        if i + 1 < shorter.len() {
            assert(shorter[i + 1] == table[i + 1]);
        }
        lemma_last_at_most_found(shorter, addr, i);
    }
}

/// A table whose every entry lies above `addr` has no entry at or below it.
pub proof fn lemma_last_at_most_absent(table: Seq<ParsedSym>, addr: u64)
    requires
        forall|i: int| 0 <= i < table.len() ==> table[i].address > addr,
    ensures
        last_at_most(table, addr) is None,
    decreases table.len(),
{
    if table.len() > 0 {
        let shorter = table.drop_last();
        assert forall|i: int| 0 <= i < shorter.len() implies shorter[i].address > addr by {
            assert(shorter[i] == table[i]);
        }
        lemma_last_at_most_absent(shorter, addr);
    }
}

/// What `last_at_most` finds is an entry at or below `addr`, and every
/// later entry lies above `addr`.
pub proof fn lemma_last_at_most_meaning(table: Seq<ParsedSym>, addr: u64)
    ensures
        match last_at_most(table, addr) {
            Some(i) => 0 <= i < table.len() && table[i].address <= addr && forall|k: int|
                i < k < table.len() ==> table[k].address > addr,
            None => forall|k: int| 0 <= k < table.len() ==> table[k].address > addr,
        },
    decreases table.len(),
{
    if table.len() > 0 && table.last().address > addr {
        let shorter = table.drop_last();
        lemma_last_at_most_meaning(shorter, addr);
        match last_at_most(shorter, addr) {
            Some(i) => {
                assert(shorter[i] == table[i]);
                assert forall|k: int| i < k < table.len() implies table[k].address > addr by {
                    if k < shorter.len() {
                        assert(shorter[k] == table[k]);
                    }
                }
            },
            None => {
                assert forall|k: int| 0 <= k < table.len() implies table[k].address > addr by {
                    if k < shorter.len() {
                        assert(shorter[k] == table[k]);
                    }
                }
            },
        }
    }
}

/// Merges two tables by address; on equal addresses the entry of `a` comes
/// first.
fn merge(a: &Vec<ParsedSym>, b: &Vec<ParsedSym>) -> (out: Vec<ParsedSym>)
    ensures
        out@ == merged(a@, b@),
{
    let mut out: Vec<ParsedSym> = Vec::new();
    let mut i: usize = 0;
    let mut j: usize = 0;
    proof {
        assert(a@.skip(0) =~= a@);
        assert(b@.skip(0) =~= b@);
        assert(out@ + merged(a@, b@) =~= merged(a@, b@));
    }
    while i < a.len() || j < b.len()
        invariant
            i <= a.len(),
            j <= b.len(),
            out@ + merged(a@.skip(i as int), b@.skip(j as int)) == merged(a@, b@),
        decreases a.len() - i + b.len() - j,
    {
        let ghost sa = a@.skip(i as int);
        let ghost sb = b@.skip(j as int);
        let from_a = if i == a.len() {
            false
        } else if j == b.len() {
            true
        } else {
            a[i].address <= b[j].address
        };
        if from_a {
            proof {
                assert(sa[0] == a@[i as int]);
                assert(sa.skip(1) =~= a@.skip(i + 1));
                assert(merged(sa, sb) =~= seq![sa[0]] + merged(sa.skip(1), sb)) by {
                    if sb.len() == 0 {
                        assert(merged(sa.skip(1), sb) =~= sa.skip(1));
                    }
                }
                assert(out@.push(a@[i as int]) + merged(sa.skip(1), sb) =~= out@ + merged(sa, sb));
            }
            out.push(a[i]);
            i += 1;
        } else {
            proof {
                assert(sb[0] == b@[j as int]);
                assert(sb.skip(1) =~= b@.skip(j + 1));
                assert(merged(sa, sb) =~= seq![sb[0]] + merged(sa, sb.skip(1))) by {
                    if sa.len() == 0 {
                        assert(merged(sa, sb.skip(1)) =~= sb.skip(1));
                    }
                }
                assert(out@.push(b@[j as int]) + merged(sa, sb.skip(1)) =~= out@ + merged(sa, sb));
            }
            out.push(b[j]);
            j += 1;
        }
    }
    proof {
        assert(merged(a@.skip(i as int), b@.skip(j as int)) =~= Seq::<ParsedSym>::empty());
        assert(out@ + Seq::<ParsedSym>::empty() =~= out@);
    }
    out
}

/// Sorts the entries `lo..hi` of `v` by address into a new table.
fn sort_range(v: &Vec<ParsedSym>, lo: usize, hi: usize) -> (out: Vec<ParsedSym>)
    requires
        lo <= hi <= v.len(),
    ensures
        out@ == sorted_by_address(v@.subrange(lo as int, hi as int)),
    decreases hi - lo,
{
    let ghost s = v@.subrange(lo as int, hi as int);
    if hi - lo <= 1 {
        let mut out: Vec<ParsedSym> = Vec::new();
        if lo < hi {
            out.push(v[lo]);
        }
        assert(out@ =~= s);
        out
    } else {
        let mid = lo + (hi - lo) / 2;
        let left = sort_range(v, lo, mid);
        let right = sort_range(v, mid, hi);
        proof {
            assert(s.take((s.len() / 2) as int) =~= v@.subrange(lo as int, mid as int));
            assert(s.skip((s.len() / 2) as int) =~= v@.subrange(mid as int, hi as int));
        }
        merge(&left, &right)
    }
}

/// Returns the entries of `v` in ascending order of address. Entries of
/// equal address keep the order they had in `v`.
pub fn sort_by_address(v: &Vec<ParsedSym>) -> (out: Vec<ParsedSym>)
    ensures
        out@ == sorted_by_address(v@),
        ascending(out@),
        out@.to_multiset() == v@.to_multiset(),
{
    proof {
        assert(v@.subrange(0, v.len() as int) =~= v@);
        lemma_sorted_by_address(v@);
    }
    sort_range(v, 0, v.len())
}

/// Finds, in an ascending table, the last entry whose address is at most
/// `addr`.
pub fn search_preceding(table: &Vec<ParsedSym>, addr: u64) -> (r: Option<usize>)
    requires
        ascending(table@),
    ensures
        r matches Some(i) ==> i < table.len() && table@[i as int].address <= addr && last_at_most(
            table@,
            addr,
        ) == Some(i as int),
        r is None ==> last_at_most(table@, addr) is None,
{
    let mut lo: usize = 0;
    let mut hi: usize = table.len();
    while lo < hi
        invariant
            lo <= hi <= table.len(),
            ascending(table@),
            forall|k: int| 0 <= k < lo ==> table@[k].address <= addr,
            forall|k: int| hi <= k < table.len() ==> table@[k].address > addr,
        decreases hi - lo,
    {
        let mid = lo + (hi - lo) / 2;
        if table[mid].address <= addr {
            lo = mid + 1;
        } else {
            hi = mid;
        }
    }
    if lo == 0 {
        proof {
            lemma_last_at_most_absent(table@, addr);
        }
        None
    } else {
        proof {
            lemma_last_at_most_found(table@, addr, lo - 1);
        }
        Some(lo - 1)
    }
}

} // verus!
