//! Line and function lookup in DWARF debug information.
//!
//! The tables are built and queried by the `addr2line` crate. This module
//! hands it the bytes of the debug sections and turns what it finds into
//! plain records.
use std::sync::Arc;
use vstd::prelude::*;

verus! {

/// The lookup tables that `addr2line` builds from the debug sections of
/// one image. Its field is hidden from the verifier, which cannot read a
/// type bounded by the reader traits of `gimli`; the contracts speak of a
/// context through `dwarf_source` alone.
#[verifier::external_body]
pub struct DwarfContext {
    inner: addr2line::Context<gimli::EndianArcSlice<gimli::LittleEndian>>,
}

/// Number of debug sections a context is built from.
pub const SECTION_COUNT: usize = 10;

/// A source position.
#[derive(Clone, Debug, PartialEq, Eq)]
pub struct Location {
    /// The file name.
    pub file: Option<Vec<u8>>,
    /// The line number.
    pub line: Option<u32>,
    /// The column number.
    pub column: Option<u32>,
}

/// One level of the call chain at an address: the innermost function, or
/// a function that was inlined around it.
#[derive(Clone, Debug, PartialEq, Eq)]
pub struct FrameRecord {
    /// The raw name of the function.
    pub name: Option<Vec<u8>>,
    /// Where in the function's source the address lies.
    pub location: Option<Location>,
}

/// Mathematical value of a `Location`.
pub struct LocationView {
    pub file: Option<Seq<u8>>,
    pub line: Option<u32>,
    pub column: Option<u32>,
}

/// Mathematical value of a `FrameRecord`.
pub struct FrameView {
    pub name: Option<Seq<u8>>,
    pub location: Option<LocationView>,
}

impl View for Location {
    type V = LocationView;

    open spec fn view(&self) -> LocationView {
        LocationView { file: self.file.deep_view(), line: self.line, column: self.column }
    }
}

impl View for FrameRecord {
    type V = FrameView;

    open spec fn view(&self) -> FrameView {
        FrameView {
            name: self.name.deep_view(),
            location: match self.location {
                Some(l) => Some(l@),
                None => None,
            },
        }
    }
}

/// The values of a list of frame records.
pub open spec fn frame_views(frames: Seq<FrameRecord>) -> Seq<FrameView> {
    frames.map_values(|f: FrameRecord| f@)
}

/// The debug sections that a context was built from.
pub uninterp spec fn dwarf_source(cx: DwarfContext) -> Seq<Seq<u8>>;

/// Whether `addr2line` accepts the given debug sections and builds a
/// context from them.
pub uninterp spec fn dwarf_loads(sections: Seq<Seq<u8>>) -> bool;

/// The frames that `addr2line` reports at `probe` in a context built from
/// the given debug sections, innermost first, up to the first one that it
/// fails to decode.
pub uninterp spec fn dwarf_frames(sections: Seq<Seq<u8>>, probe: u64) -> Seq<FrameView>;

/// Calls `Context::from_sections` of the `addr2line` crate on copies of
/// the ten section buffers, read as little-endian. The contract names
/// whether the crate accepts them, and records what the context was built
/// from.
#[verifier::external_body]
pub(crate) fn load_dwarf(sections: &Vec<Vec<u8>>) -> (r: Option<DwarfContext>)
    requires
        sections.len() == SECTION_COUNT,
    ensures
        r is Some <==> dwarf_loads(sections.deep_view()),
        r matches Some(cx) ==> dwarf_source(cx) == sections.deep_view(),
{
    let read = |i: usize| gimli::EndianArcSlice::new(Arc::from(&sections[i][..]), gimli::LittleEndian);
    addr2line::Context::from_sections(
        read(0).into(),
        read(1).into(),
        read(2).into(),
        read(3).into(),
        read(4).into(),
        read(5).into(),
        read(6).into(),
        read(7).into(),
        read(8).into(),
        read(9).into(),
        gimli::EndianArcSlice::new(Arc::from(&[][..]), gimli::LittleEndian),
    ).ok().map(|inner| DwarfContext { inner })
}

/// Calls `Context::find_frames` of the `addr2line` crate, passes over
/// what it would load from other files with
/// `LookupResult::skip_all_loads`, and drains the iterator it returns
/// with `FrameIter::next`, copying each frame's name, file, line and
/// column. The crate adds one to the address it searches for, so the
/// highest address is left out. The contract only names the outcome.
#[verifier::external_body]
pub(crate) fn find_frames(cx: &DwarfContext, probe: u64) -> (r: Vec<FrameRecord>)
    requires
        probe < u64::MAX,
    ensures
        frame_views(r@) == dwarf_frames(dwarf_source(*cx), probe),
{
    let mut out = Vec::new();
    if let Ok(mut frames) = cx.inner.find_frames(probe).skip_all_loads() {
        while let Ok(Some(frame)) = frames.next() {
            out.push(FrameRecord {
                name: frame.function.map(|f| f.name.bytes().to_vec()),
                location: frame.location.map(|l| Location { file: l.file.map(|f| f.as_bytes().to_vec()), line: l.line, column: l.column }),
            });
        }
    }
    out
}

/// The frames that the debug information in the given sections has for
/// `probe`. Nothing is looked up for the highest address of all.
pub open spec fn frames_at(sections: Seq<Seq<u8>>, probe: u64) -> Seq<FrameView> {
    if probe == u64::MAX {
        Seq::empty()
    } else {
        dwarf_frames(sections, probe)
    }
}

} // verus!
