//! What holds of address translation, of the cache and of resolution,
//! stated over their specifications and proved.
use super::cache::{
    after_lookup, available, entries_after, is_position, keys_of, position, resolution, valid_entries,
    MAPPINGS_CACHE_SIZE,
};
use super::dwarf::frames_at;
use super::mapping::{debug_sections, symtab_name, usable_image, Format};
use super::{
    is_first_containing, library_contains, segment_contains, translated, Library, SymbolView,
};
use crate::symbolize::dladdr;
use vstd::prelude::*;

verus! {

/// Where some entry has the key `lib`, `lib` has a place.
pub(crate) proof fn lemma_position_exists(entries: Seq<(usize, Seq<u8>)>, lib: usize, at: int)
    requires
        0 <= at < entries.len(),
        entries[at].0 == lib,
    ensures
        exists|i: int| is_position(entries, lib, i),
    decreases at,
{
    if exists|k: int| 0 <= k < at && (#[trigger] entries[k]).0 == lib {
        let k = choose|k: int| 0 <= k < at && (#[trigger] entries[k]).0 == lib;
        lemma_position_exists(entries, lib, k);
    } else {
        assert(is_position(entries, lib, at));
    }
}

/// A library at the front of the cache has the place 0.
pub proof fn lemma_front_position(entries: Seq<(usize, Seq<u8>)>, lib: usize)
    requires
        entries.len() > 0,
        entries[0].0 == lib,
    ensures
        position(entries, lib) == Some(0int),
{
    assert(is_position(entries, lib, 0));
    let i = choose|i: int| is_position(entries, lib, i);
    if i > 0 {
        assert(entries[0].0 != lib);
    }
}

/// Asking for a context keeps the cache valid: never more entries than
/// the capacity, no library twice, and with a context available the
/// library asked for stands first.
pub proof fn lemma_after_lookup_valid(format: Format, entries: Seq<(usize, Seq<u8>)>, lib: usize, image: Option<Seq<u8>>)
    requires
        valid_entries(format, entries),
    ensures
        valid_entries(format, after_lookup(format, entries, lib, image)),
        available(format, entries, lib, image) ==> after_lookup(format, entries, lib, image).len() > 0 && after_lookup(
            format,
            entries,
            lib,
            image,
        )[0].0 == lib,
{
    let now = after_lookup(format, entries, lib, image);
    match position(entries, lib) {
        Some(idx) => {
            assert(is_position(entries, lib, idx));
            assert forall|i: int, j: int| 0 <= i < j < now.len() implies now[i].0 != now[j].0 by {
                let oi = if i == 0 { idx } else if i <= idx { i - 1 } else { i };
                let oj = if j <= idx { j - 1 } else { j };
                assert(now[i] == entries[oi] && now[j] == entries[oj]);
            }
            assert forall|i: int| 0 <= i < now.len() implies usable_image(format, #[trigger] now[i].1) by {
                let oi = if i == 0 { idx } else if i <= idx { i - 1 } else { i };
                assert(now[i] == entries[oi]);
            }
        },
        None => {
            if image is Some && usable_image(format, image.unwrap()) {
                assert forall|i: int, j: int| 0 <= i < j < now.len() implies now[i].0 != now[j].0 by {
                    assert(now[j] == entries[j - 1]);
                    if i == 0 {
                        if entries[j - 1].0 == lib {
                            lemma_position_exists(entries, lib, j - 1);
                        }
                    } else {
                        assert(now[i] == entries[i - 1]);
                    }
                }
                assert forall|i: int| 0 <= i < now.len() implies usable_image(format, #[trigger] now[i].1) by {
                    if i > 0 {
                        assert(now[i] == entries[i - 1]);
                    }
                }
            }
        },
    }
}

/// Address translation: an address inside a segment of a library, with
/// no earlier library containing it, translates to that library's index
/// and to the address minus the library's bias, and this stated address
/// lies within the segment's stated range.
pub proof fn lemma_translation(libs: Seq<Library>, m: int, s: int, addr: usize)
    requires
        libs.len() <= usize::MAX,
        0 <= m < libs.len(),
        0 <= s < libs[m].segments@.len(),
        segment_contains(libs[m].segments@[s], libs[m].bias, addr),
        forall|k: int| 0 <= k < m ==> !library_contains(#[trigger] libs[k].segments@, libs[k].bias, addr),
    ensures
        translated(libs, false, addr) == Some((m as usize, (addr - libs[m].bias) as usize)),
        libs[m].segments@[s].stated_virtual_memory_address <= addr - libs[m].bias,
        addr - libs[m].bias < libs[m].segments@[s].stated_virtual_memory_address + libs[m].segments@[s].len,
{
    assert(library_contains(libs[m].segments@, libs[m].bias, addr));
    assert(is_first_containing(libs, addr, m));
    let i = choose|i: int| is_first_containing(libs, addr, i);
    if i < m {
        assert(!library_contains(libs[i].segments@, libs[i].bias, addr));
    } else if m < i {
        assert(!library_contains(libs[m].segments@, libs[m].bias, addr));
    }
}

/// Idempotence: resolving the same address again, with the same image
/// on offer and the same answer of the loader, reports the same symbols
/// in the same order, and the cache stays within its capacity.
pub proof fn lemma_resolve_idempotent(
    format: Format,
    libs: Seq<Library>,
    identity: bool,
    entries: Seq<(usize, Seq<u8>)>,
    addr: usize,
    image: Option<Seq<u8>>,
    loader: Option<dladdr::SymbolView>,
)
    requires
        valid_entries(format, entries),
    ensures
        resolution(format, libs, identity, entries_after(format, libs, identity, entries, addr, image), addr, image, loader)
            == resolution(format, libs, identity, entries, addr, image, loader),
        entries_after(format, libs, identity, entries_after(format, libs, identity, entries, addr, image), addr, image)
            == entries_after(format, libs, identity, entries, addr, image),
        entries_after(format, libs, identity, entries, addr, image).len() <= MAPPINGS_CACHE_SIZE,
{
    match translated(libs, identity, addr) {
        Some((lib, svma)) => {
            let once = after_lookup(format, entries, lib, image);
            lemma_after_lookup_valid(format, entries, lib, image);
            if available(format, entries, lib, image) {
                lemma_front_position(once, lib);
                assert(after_lookup(format, once, lib, image) =~= once);
            } else {
                assert(once == entries);
            }
        },
        None => {},
    }
}

/// Neutrality of the cache: where the libraries loaded are the same
/// and the image on offer for a cached library is the image that was
/// cached, resolving against the emptied cache reports what resolving
/// against the filled cache reports.
pub proof fn lemma_clearing_keeps_results(
    format: Format,
    libs: Seq<Library>,
    identity: bool,
    entries: Seq<(usize, Seq<u8>)>,
    addr: usize,
    image: Option<Seq<u8>>,
    loader: Option<dladdr::SymbolView>,
)
    requires
        valid_entries(format, entries),
        translated(libs, identity, addr) matches Some((lib, svma)) ==> (position(entries, lib) matches Some(i)
            ==> image == Some(entries[i].1)),
    ensures
        resolution(format, libs, identity, Seq::empty(), addr, image, loader) == resolution(
            format,
            libs,
            identity,
            entries,
            addr,
            image,
            loader,
        ),
{
    let cleared = Seq::<(usize, Seq<u8>)>::empty();
    match translated(libs, identity, addr) {
        Some((lib, svma)) => {
            assert(position(cleared, lib) is None) by {
                assert forall|i: int| !is_position(cleared, lib, i) by {}
            }
            match position(entries, lib) {
                Some(i) => {
                    assert(is_position(entries, lib, i));
                    assert(usable_image(format, entries[i].1));
                },
                None => {},
            }
        },
        None => {},
    }
}

/// Fallback to the symbol table: where the debug information of the
/// address's image reports no frame and the image's symbol table has a
/// name for the address, exactly one symbol is reported, the one of the
/// symbol table.
pub proof fn lemma_symtab_fallback(
    format: Format,
    libs: Seq<Library>,
    identity: bool,
    entries: Seq<(usize, Seq<u8>)>,
    addr: usize,
    image: Option<Seq<u8>>,
    loader: Option<dladdr::SymbolView>,
    name: Seq<u8>,
)
    requires
        translated(libs, identity, addr) matches Some((lib, svma)) && available(format, entries, lib, image) && {
            let data = after_lookup(format, entries, lib, image)[0].1;
            frames_at(debug_sections(format, data), svma as u64).len() == 0 && symtab_name(format, data, svma as u64) == Some(name)
        },
    ensures
        resolution(format, libs, identity, entries, addr, image, loader) == seq![
            SymbolView::Symtab { addr: translated(libs, identity, addr).unwrap().1, name },
        ],
{
}

/// Total miss: an address that no enumerated library contains and that
/// the dynamic loader does not know resolves to no symbol at all, and
/// leaves the cache as it was.
pub proof fn lemma_total_miss(format: Format, libs: Seq<Library>, entries: Seq<(usize, Seq<u8>)>, addr: usize, image: Option<Seq<u8>>)
    requires
        forall|i: int| 0 <= i < libs.len() ==> !library_contains(#[trigger] libs[i].segments@, libs[i].bias, addr),
    ensures
        resolution(format, libs, false, entries, addr, image, None) == Seq::<SymbolView>::empty(),
        entries_after(format, libs, false, entries, addr, image) == entries,
{
    assert forall|i: int| !is_first_containing(libs, addr, i) by {
        if 0 <= i < libs.len() {
            assert(!library_contains(libs[i].segments@, libs[i].bias, addr));
        }
    }
    assert(dladdr::resolved(None).map_values(|s: dladdr::SymbolView| SymbolView::Dladdr(s)) =~= Seq::<SymbolView>::empty());
}

/// The cache after a run of lookups, each with a usable image on offer.
pub open spec fn after_lookups(format: Format, entries: Seq<(usize, Seq<u8>)>, asked: Seq<(usize, Seq<u8>)>) -> Seq<(usize, Seq<u8>)>
    decreases asked.len(),
{
    if asked.len() == 0 {
        entries
    } else {
        after_lookup(format, after_lookups(format, entries, asked.drop_last()), asked.last().0, Some(asked.last().1))
    }
}

/// After lookups for distinct libraries the cache is valid and starts
/// with the libraries asked for last, the latest first.
proof fn lemma_after_lookups(format: Format, entries: Seq<(usize, Seq<u8>)>, asked: Seq<(usize, Seq<u8>)>)
    requires
        valid_entries(format, entries),
        forall|i: int, j: int| 0 <= i < j < asked.len() ==> asked[i].0 != asked[j].0,
        forall|i: int| 0 <= i < asked.len() ==> usable_image(format, #[trigger] asked[i].1),
    ensures
        valid_entries(format, after_lookups(format, entries, asked)),
        after_lookups(format, entries, asked).len() >= asked.len() || after_lookups(format, entries, asked).len()
            == MAPPINGS_CACHE_SIZE,
        forall|i: int|
            0 <= i < asked.len() && i < MAPPINGS_CACHE_SIZE ==> (#[trigger] after_lookups(format, entries, asked)[i]).0
                == asked[asked.len() - 1 - i].0,
    decreases asked.len(),
{
    if asked.len() > 0 {
        let shorter = asked.drop_last();
        let before = after_lookups(format, entries, shorter);
        let lib = asked.last().0;
        let image = Some(asked.last().1);
        lemma_after_lookups(format, entries, shorter);
        lemma_after_lookup_valid(format, before, lib, image);
        let now = after_lookup(format, before, lib, image);
        assert(available(format, before, lib, image));
        let fixed = if shorter.len() < MAPPINGS_CACHE_SIZE { shorter.len() as int } else { MAPPINGS_CACHE_SIZE as int };
        assert forall|k: int| 0 <= k < fixed implies (#[trigger] before[k]).0 != lib by {
            assert(before[k].0 == shorter[shorter.len() - 1 - k].0);
            assert(shorter[shorter.len() - 1 - k] == asked[shorter.len() - 1 - k]);
        }
        match position(before, lib) {
            Some(idx) => {
                assert(is_position(before, lib, idx));
                assert(idx >= fixed) by {
                    if idx < fixed {
                        assert(before[idx].0 != lib);
                    }
                }
                assert forall|i: int| 0 <= i < asked.len() && i < MAPPINGS_CACHE_SIZE implies (#[trigger] now[i]).0
                    == asked[asked.len() - 1 - i].0 by {
                    if i > 0 {
                        assert(now[i] == before[i - 1]);
                        assert(before[i - 1].0 == shorter[shorter.len() - 1 - (i - 1)].0);
                    }
                }
            },
            None => {
                assert forall|i: int| 0 <= i < asked.len() && i < MAPPINGS_CACHE_SIZE implies (#[trigger] now[i]).0
                    == asked[asked.len() - 1 - i].0 by {
                    if i > 0 {
                        assert(now[i] == before[i - 1]);
                        assert(before[i - 1].0 == shorter[shorter.len() - 1 - (i - 1)].0);
                    }
                }
            },
        }
    }
}

/// After lookups for at least as many distinct libraries as the cache
/// holds, each with a usable file on offer, the cache holds exactly the
/// libraries asked for last, the latest first.
proof fn lemma_lookups_keep_the_latest(format: Format, entries: Seq<(usize, Seq<u8>)>, asked: Seq<(usize, Seq<u8>)>)
    requires
        valid_entries(format, entries),
        asked.len() >= MAPPINGS_CACHE_SIZE,
        forall|i: int, j: int| 0 <= i < j < asked.len() ==> asked[i].0 != asked[j].0,
        forall|i: int| 0 <= i < asked.len() ==> usable_image(format, #[trigger] asked[i].1),
    ensures
        keys_of(after_lookups(format, entries, asked)) == Seq::new(
            MAPPINGS_CACHE_SIZE as nat,
            |i: int| asked[asked.len() - 1 - i].0,
        ),
{
    lemma_after_lookups(format, entries, asked);
    let now = after_lookups(format, entries, asked);
    assert(now.len() == MAPPINGS_CACHE_SIZE);
    assert forall|i: int| 0 <= i < MAPPINGS_CACHE_SIZE implies keys_of(now)[i] == asked[asked.len() - 1 - i].0 by {
        assert(now[i].0 == asked[asked.len() - 1 - i].0);
    }
    assert(keys_of(now) =~= Seq::new(MAPPINGS_CACHE_SIZE as nat, |i: int| asked[asked.len() - 1 - i].0));
}

/// The cache after resolving a run of addresses in turn, each with a
/// file on offer for its library.
pub open spec fn after_resolutions(
    format: Format,
    libs: Seq<Library>,
    identity: bool,
    entries: Seq<(usize, Seq<u8>)>,
    asked: Seq<(usize, Seq<u8>)>,
) -> Seq<(usize, Seq<u8>)>
    decreases asked.len(),
{
    if asked.len() == 0 {
        entries
    } else {
        entries_after(
            format,
            libs,
            identity,
            after_resolutions(format, libs, identity, entries, asked.drop_last()),
            asked.last().0,
            Some(asked.last().1),
        )
    }
}

/// Least-recently-used order: after resolving, in turn, addresses of at
/// least as many distinct libraries as the cache holds, each with a
/// usable file on offer, the cache holds exactly the libraries resolved
/// last, the latest first. `owners` names the library of each address.
pub proof fn lemma_least_recently_used(
    format: Format,
    libs: Seq<Library>,
    identity: bool,
    entries: Seq<(usize, Seq<u8>)>,
    asked: Seq<(usize, Seq<u8>)>,
    owners: Seq<usize>,
)
    requires
        valid_entries(format, entries),
        asked.len() == owners.len(),
        asked.len() >= MAPPINGS_CACHE_SIZE,
        forall|i: int|
            0 <= i < asked.len() ==> (translated(libs, identity, (#[trigger] asked[i]).0) matches Some((lib, svma))
                && lib == owners[i]),
        forall|i: int, j: int| 0 <= i < j < owners.len() ==> owners[i] != owners[j],
        forall|i: int| 0 <= i < asked.len() ==> usable_image(format, #[trigger] asked[i].1),
    ensures
        keys_of(after_resolutions(format, libs, identity, entries, asked)) == Seq::new(
            MAPPINGS_CACHE_SIZE as nat,
            |i: int| owners[owners.len() - 1 - i],
        ),
{
    let lookups = Seq::new(asked.len(), |i: int| (owners[i], asked[i].1));
    lemma_resolutions_are_lookups(format, libs, identity, entries, asked, owners, asked.len() as int);
    assert(asked.take(asked.len() as int) =~= asked);
    assert(lookups.take(asked.len() as int) =~= lookups);
    lemma_lookups_keep_the_latest(format, entries, lookups);
    assert(Seq::new(MAPPINGS_CACHE_SIZE as nat, |i: int| lookups[lookups.len() - 1 - i].0) =~= Seq::new(
        MAPPINGS_CACHE_SIZE as nat,
        |i: int| owners[owners.len() - 1 - i],
    ));
}

/// Resolving addresses changes the cache as the lookups for their
/// libraries do.
proof fn lemma_resolutions_are_lookups(
    format: Format,
    libs: Seq<Library>,
    identity: bool,
    entries: Seq<(usize, Seq<u8>)>,
    asked: Seq<(usize, Seq<u8>)>,
    owners: Seq<usize>,
    n: int,
)
    requires
        asked.len() == owners.len(),
        0 <= n <= asked.len(),
        forall|i: int|
            0 <= i < asked.len() ==> (translated(libs, identity, (#[trigger] asked[i]).0) matches Some((lib, svma))
                && lib == owners[i]),
    ensures
        after_resolutions(format, libs, identity, entries, asked.take(n)) == after_lookups(
            format,
            entries,
            Seq::new(asked.len(), |i: int| (owners[i], asked[i].1)).take(n),
        ),
    decreases n,
{
    let lookups = Seq::new(asked.len(), |i: int| (owners[i], asked[i].1));
    if n > 0 {
        lemma_resolutions_are_lookups(format, libs, identity, entries, asked, owners, n - 1);
        assert(asked.take(n).drop_last() =~= asked.take(n - 1));
        assert(lookups.take(n).drop_last() =~= lookups.take(n - 1));
        assert(asked.take(n).last() == asked[n - 1]);
        assert(lookups.take(n).last() == lookups[n - 1]);
    }
}

} // verus!
