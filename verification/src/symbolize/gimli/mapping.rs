//! The parsed debug context of one image: which file it is built from,
//! and what it then answers.
use super::coff;
use super::dwarf::{
    dwarf_loads, dwarf_source, find_frames, frame_views, frames_at, load_dwarf, DwarfContext,
    FrameRecord, FrameView, SECTION_COUNT,
};
use super::elf;
use super::macho;
use super::macho::{macho_uuid, same_bytes};
use vstd::prelude::*;
use vstd::slice::slice_to_vec;
use vstd::utf8::encode_utf8;

verus! {

/// Name of the `i`-th debug section that a lookup context is built from.
pub open spec fn section_name(i: int) -> Seq<char> {
    if i == 0 {
        ".debug_abbrev"@
    } else if i == 1 {
        ".debug_addr"@
    } else if i == 2 {
        ".debug_aranges"@
    } else if i == 3 {
        ".debug_info"@
    } else if i == 4 {
        ".debug_line"@
    } else if i == 5 {
        ".debug_line_str"@
    } else if i == 6 {
        ".debug_ranges"@
    } else if i == 7 {
        ".debug_rnglists"@
    } else if i == 8 {
        ".debug_str"@
    } else {
        ".debug_str_offsets"@
    }
}

/// The object file format of the images of a platform.
#[derive(Clone, Copy, Debug, PartialEq, Eq, Structural)]
pub enum Format {
    /// ELF, as on Linux and most other Unix systems.
    Elf,
    /// Mach-O, as on macOS.
    MachO,
    /// PE, as on Windows.
    Pe,
}

/// Whether an image of the given format can be read.
pub open spec fn readable(format: Format, data: Seq<u8>) -> bool {
    match format {
        Format::Elf => elf::chosen_symbols(data) is Some,
        Format::MachO => macho::scan_of(data) is Some,
        Format::Pe => coff::entries_of(data) is Some,
    }
}

/// The contents of the section of an image that is asked for as `name`.
pub open spec fn section_data(format: Format, data: Seq<u8>, name: Seq<char>) -> Option<Seq<u8>> {
    match format {
        Format::Elf => elf::elf_section(data, name),
        Format::MachO => macho::section_of(data, encode_utf8(name)),
        Format::Pe => coff::pe_section(data, encode_utf8(name)),
    }
}

/// The name that the fallback symbol table of an image has for a stated
/// address.
pub open spec fn symtab_name(format: Format, data: Seq<u8>, addr: u64) -> Option<Seq<u8>> {
    match format {
        Format::Elf => elf::symtab_name(data, addr),
        Format::MachO => macho::symtab_name(data, addr),
        Format::Pe => coff::symtab_name(data, addr),
    }
}

/// The debug sections of an image, in the order of `section_name`; a
/// section that the image lacks counts as empty.
pub open spec fn debug_sections(format: Format, data: Seq<u8>) -> Seq<Seq<u8>> {
    Seq::new(
        SECTION_COUNT as nat,
        |i: int|
            match section_data(format, data, section_name(i)) {
                Some(bytes) => bytes,
                None => Seq::empty(),
            },
    )
}

/// Whether a debug context can be built for an image: the image can be
/// read and its debug sections are accepted.
pub open spec fn usable_image(format: Format, data: Seq<u8>) -> bool {
    readable(format, data) && dwarf_loads(debug_sections(format, data))
}

/// The file of one bundle of debug information that serves an image
/// with the identifier `uuid`: the first file that carries the same
/// identifier and is usable. A file without identifier ends the search
/// in its bundle.
pub open spec fn chosen_in(uuid: Seq<u8>, bundle: Seq<Seq<u8>>) -> Option<Seq<u8>>
    decreases bundle.len(),
{
    if bundle.len() == 0 {
        None
    } else {
        match macho_uuid(bundle[0]) {
            None => None,
            Some(found) => if found == uuid && usable_image(Format::MachO, bundle[0]) {
                Some(bundle[0])
            } else {
                chosen_in(uuid, bundle.skip(1))
            },
        }
    }
}

/// The file that serves an image with the identifier `uuid`, from the
/// first bundle that has one.
pub open spec fn chosen_bundle(uuid: Seq<u8>, bundles: Seq<Seq<Seq<u8>>>) -> Option<Seq<u8>>
    decreases bundles.len(),
{
    if bundles.len() == 0 {
        None
    } else {
        match chosen_in(uuid, bundles[0]) {
            Some(file) => Some(file),
            None => chosen_bundle(uuid, bundles.skip(1)),
        }
    }
}

/// The file that the debug context of a Mach-O image is built from: the
/// file of a bundle that serves the image, else the image itself if it
/// is usable. An image without identifier has no context.
pub open spec fn macho_source(image: Seq<u8>, bundles: Seq<Seq<Seq<u8>>>) -> Option<Seq<u8>> {
    match macho_uuid(image) {
        None => None,
        Some(uuid) => match chosen_bundle(uuid, bundles) {
            Some(file) => Some(file),
            None => if usable_image(Format::MachO, image) {
                Some(image)
            } else {
                None
            },
        },
    }
}

/// The file that the debug context of an image is built from, given the
/// image and, for Mach-O, the neighbouring bundles of debug information.
pub open spec fn source(format: Format, image: Seq<u8>, bundles: Seq<Seq<Seq<u8>>>) -> Option<Seq<u8>> {
    match format {
        Format::MachO => macho_source(image, bundles),
        _ => if usable_image(format, image) {
            Some(image)
        } else {
            None
        },
    }
}

/// What the source of a context is, is usable.
pub proof fn lemma_source_usable(format: Format, image: Seq<u8>, bundles: Seq<Seq<Seq<u8>>>)
    ensures
        source(format, image, bundles) matches Some(data) ==> usable_image(format, data),
{
    if format == Format::MachO {
        match macho_uuid(image) {
            Some(uuid) => lemma_chosen_bundle_usable(uuid, bundles),
            None => {},
        }
    }
}

proof fn lemma_chosen_in_usable(uuid: Seq<u8>, bundle: Seq<Seq<u8>>)
    ensures
        chosen_in(uuid, bundle) matches Some(data) ==> usable_image(Format::MachO, data),
    decreases bundle.len(),
{
    if bundle.len() > 0 {
        lemma_chosen_in_usable(uuid, bundle.skip(1));
    }
}

proof fn lemma_chosen_bundle_usable(uuid: Seq<u8>, bundles: Seq<Seq<Seq<u8>>>)
    ensures
        chosen_bundle(uuid, bundles) matches Some(data) ==> usable_image(Format::MachO, data),
    decreases bundles.len(),
{
    if bundles.len() > 0 {
        lemma_chosen_in_usable(uuid, bundles[0]);
        lemma_chosen_bundle_usable(uuid, bundles.skip(1));
    }
}

/// A parsed image of one of the formats.
enum Image {
    Elf(elf::Object),
    MachO(macho::Object),
    Pe(coff::Object),
}

impl Image {
    spec fn format(&self) -> Format {
        match self {
            Image::Elf(_) => Format::Elf,
            Image::MachO(_) => Format::MachO,
            Image::Pe(_) => Format::Pe,
        }
    }

    spec fn bytes(&self) -> Seq<u8> {
        match self {
            Image::Elf(object) => object@,
            Image::MachO(object) => object@,
            Image::Pe(object) => object@,
        }
    }

    fn parse(format: Format, data: Vec<u8>) -> (r: Option<Image>)
        ensures
            r is Some <==> readable(format, data@),
            r matches Some(image) ==> image.format() == format && image.bytes() == data@,
    {
        match format {
            Format::Elf => match elf::Object::parse(data) {
                Some(object) => Some(Image::Elf(object)),
                None => None,
            },
            Format::MachO => match macho::Object::parse(data) {
                Some(object) => Some(Image::MachO(object)),
                None => None,
            },
            Format::Pe => match coff::Object::parse(data) {
                Some(object) => Some(Image::Pe(object)),
                None => None,
            },
        }
    }

    fn section(&self, name: &str) -> (r: Option<Vec<u8>>)
        ensures
            r.deep_view() == section_data(self.format(), self.bytes(), name@),
    {
        match self {
            Image::Elf(object) => object.section(name),
            Image::MachO(object) => object.section(name),
            Image::Pe(object) => object.section(name),
        }
    }

    fn search_symtab(&self, addr: u64) -> (r: Option<Vec<u8>>)
        ensures
            readable(self.format(), self.bytes()),
            r.deep_view() == symtab_name(self.format(), self.bytes(), addr),
    {
        match self {
            Image::Elf(object) => object.search_symtab(addr),
            Image::MachO(object) => object.search_symtab(addr),
            Image::Pe(object) => object.search_symtab(addr),
        }
    }
}

/// The parsed debug context of one image: the image's bytes with its
/// fallback symbol table, and the line and function tables built from its
/// debug sections.
pub struct Mapping {
    image: Image,
    dwarf: DwarfContext,
}

impl View for Mapping {
    type V = Seq<u8>;

    /// The bytes of the image. Everything else a `Mapping` holds is
    /// derived from them.
    closed spec fn view(&self) -> Seq<u8> {
        self.image.bytes()
    }
}

fn section_name_of(i: usize) -> (name: &'static str)
    requires
        i < SECTION_COUNT,
    ensures
        name@ == section_name(i as int),
{
    if i == 0 {
        ".debug_abbrev"
    } else if i == 1 {
        ".debug_addr"
    } else if i == 2 {
        ".debug_aranges"
    } else if i == 3 {
        ".debug_info"
    } else if i == 4 {
        ".debug_line"
    } else if i == 5 {
        ".debug_line_str"
    } else if i == 6 {
        ".debug_ranges"
    } else if i == 7 {
        ".debug_rnglists"
    } else if i == 8 {
        ".debug_str"
    } else {
        ".debug_str_offsets"
    }
}

/// The image and the neighbouring files handed over for building the
/// debug context of a library: the bytes of the library's file and, for
/// Mach-O, the files of each bundle of debug information found next to
/// it, bundle by bundle.
pub struct Supplied {
    pub image: Vec<u8>,
    pub bundles: Vec<Vec<Vec<u8>>>,
}

impl Supplied {
    /// An image without bundles of debug information.
    pub fn image(image: Vec<u8>) -> (r: Supplied)
        ensures
            r.image@ == image@,
            r.bundles@.len() == 0,
    {
        Supplied { image, bundles: Vec::new() }
    }

    /// The bundles as sequences of bytes.
    pub open spec fn bundle_views(&self) -> Seq<Seq<Seq<u8>>> {
        Seq::new(self.bundles@.len(), |i: int| self.bundles@[i].deep_view())
    }
}

/// The file that a debug context would be built from, given what was
/// handed over.
pub open spec fn offered(format: Format, supplied: Option<Supplied>) -> Option<Seq<u8>> {
    match supplied {
        Some(s) => source(format, s.image@, s.bundle_views()),
        None => None,
    }
}

/// The ending of the name of a bundle of debug information, `.dSYM`.
pub open spec fn bundle_suffix() -> Seq<u8> {
    seq![0x2eu8, 0x64, 0x53, 0x59, 0x4d]
}

/// Whether the name of a directory entry marks a bundle of debug
/// information.
pub fn is_debug_bundle(name: &[u8]) -> (r: bool)
    ensures
        r == (name@.len() >= 5 && name@.skip(name@.len() - 5) == bundle_suffix()),
{
    let n = name.len();
    if n < 5 {
        return false;
    }
    let r = name[n - 5] == 0x2e && name[n - 4] == 0x64 && name[n - 3] == 0x53 && name[n - 2] == 0x59 && name[n - 1]
        == 0x4d;
    proof {
        let tail = name@.skip(n - 5);
        let want = bundle_suffix();
        if r {
            assert(tail =~= want);
        } else {
            assert(tail[0] == name@[n - 5] && tail[1] == name@[n - 4] && tail[2] == name@[n - 3] && tail[3]
                == name@[n - 2] && tail[4] == name@[n - 1]);
            assert(want[0] == 0x2e && want[1] == 0x64 && want[2] == 0x53 && want[3] == 0x59 && want[4] == 0x4d);
        }
    }
    r
}

impl Mapping {
    #[verifier::type_invariant]
    spec fn well_formed(&self) -> bool {
        &&& usable_image(self.image.format(), self.image.bytes())
        &&& dwarf_source(self.dwarf) == debug_sections(self.image.format(), self.image.bytes())
    }

    /// The format of the image.
    pub closed spec fn format(&self) -> Format {
        self.image.format()
    }

    /// Builds the debug context of an image from the bytes of its file.
    /// `None` is returned exactly where the image is not usable.
    pub fn new(format: Format, data: Vec<u8>) -> (r: Option<Mapping>)
        ensures
            r is Some <==> usable_image(format, data@),
            r matches Some(m) ==> m@ == data@ && m.format() == format,
    {
        let image = Image::parse(format, data)?;
        let mut sections: Vec<Vec<u8>> = Vec::new();
        let mut i: usize = 0;
        while i < SECTION_COUNT
            invariant
                i <= SECTION_COUNT,
                sections.len() == i,
                forall|k: int|
                    0 <= k < i ==> (#[trigger] sections@[k]).deep_view() == debug_sections(
                        image.format(),
                        image.bytes(),
                    )[k],
            decreases SECTION_COUNT - i,
        {
            let bytes = match image.section(section_name_of(i)) {
                Some(bytes) => bytes,
                None => {
                    let empty: Vec<u8> = Vec::new();
                    assert(empty.deep_view() =~= Seq::<u8>::empty());
                    empty
                },
            };
            sections.push(bytes);
            i += 1;
        }
        assert(sections.deep_view() =~= debug_sections(image.format(), image.bytes()));
        let dwarf = load_dwarf(&sections)?;
        Some(Mapping { image, dwarf })
    }

    /// Looks in one bundle for the file that serves an image with the
    /// identifier `uuid`.
    #[verifier::loop_isolation(false)]
    fn from_bundle(uuid: &Vec<u8>, bundle: &Vec<Vec<u8>>) -> (r: Option<Mapping>)
        ensures
            r is Some <==> chosen_in(uuid@, bundle.deep_view()) is Some,
            r matches Some(m) ==> Some(m@) == chosen_in(uuid@, bundle.deep_view()) && m.format() == Format::MachO,
    {
        let ghost files = bundle.deep_view();
        let mut i: usize = 0;
        proof {
            assert(files.skip(0) =~= files);
        }
        while i < bundle.len()
            invariant
                i <= bundle.len(),
                files == bundle.deep_view(),
                chosen_in(uuid@, files.skip(i as int)) == chosen_in(uuid@, files),
            decreases bundle.len() - i,
        {
            let ghost rest = files.skip(i as int);
            proof {
                assert(rest[0] == files[i as int]);
                assert(files[i as int] =~= bundle@[i as int]@);
                assert(rest.skip(1) =~= files.skip(i + 1));
            }
            let found = match macho::uuid(bundle[i].as_slice()) {
                Some(found) => found,
                None => {
                    return None;
                },
            };
            proof {
                assert(found.deep_view() =~= found@);
            }
            if same_bytes(found.as_slice(), uuid.as_slice()) {
                match Mapping::new(Format::MachO, slice_to_vec(bundle[i].as_slice())) {
                    Some(m) => {
                        return Some(m);
                    },
                    None => {},
                }
            }
            i += 1;
        }
        proof {
            assert(files.skip(bundle.len() as int) =~= Seq::<Seq<u8>>::empty());
        }
        None
    }

    /// Builds the debug context of a library from what was handed over
    /// for it. For Mach-O the bundles of debug information are searched
    /// first, in order, for a file carrying the identifier of the image;
    /// the image itself serves where none is found.
    #[verifier::loop_isolation(false)]
    pub fn from_supplied(format: Format, supplied: Supplied) -> (r: Option<Mapping>)
        ensures
            r is Some <==> offered(format, Some(supplied)) is Some,
            r matches Some(m) ==> Some(m@) == offered(format, Some(supplied)) && m.format() == format,
    {
        match format {
            Format::MachO => {
                let uuid = macho::uuid(supplied.image.as_slice())?;
                let ghost bundles = supplied.bundle_views();
                proof {
                    assert(uuid.deep_view() =~= uuid@);
                }
                let mut i: usize = 0;
                proof {
                    assert(bundles.skip(0) =~= bundles);
                }
                while i < supplied.bundles.len()
                    invariant
                        i <= supplied.bundles.len(),
                        bundles == supplied.bundle_views(),
                        chosen_bundle(uuid@, bundles.skip(i as int)) == chosen_bundle(uuid@, bundles),
                    decreases supplied.bundles.len() - i,
                {
                    proof {
                        let rest = bundles.skip(i as int);
                        assert(rest[0] == bundles[i as int]);
                        assert(rest.skip(1) =~= bundles.skip(i + 1));
                    }
                    match Mapping::from_bundle(&uuid, &supplied.bundles[i]) {
                        Some(m) => {
                            return Some(m);
                        },
                        None => {},
                    }
                    i += 1;
                }
                proof {
                    assert(bundles.skip(supplied.bundles.len() as int) =~= Seq::<Seq<Seq<u8>>>::empty());
                }
                Mapping::new(Format::MachO, supplied.image)
            },
            _ => Mapping::new(format, supplied.image),
        }
    }

    /// The call chain that the debug information gives for the stated
    /// address `svma`, innermost function first.
    pub fn frames(&self, svma: u64) -> (r: Vec<FrameRecord>)
        ensures
            usable_image(self.format(), self@),
            frame_views(r@) == frames_at(debug_sections(self.format(), self@), svma),
    {
        proof {
            use_type_invariant(self);
        }
        if svma == u64::MAX {
            let none: Vec<FrameRecord> = Vec::new();
            assert(frame_views(none@) =~= Seq::<FrameView>::empty());
            return none;
        }
        find_frames(&self.dwarf, svma)
    }

    /// The name that the fallback symbol table gives for the stated
    /// address `svma`.
    pub fn search_symtab(&self, svma: u64) -> (r: Option<Vec<u8>>)
        ensures
            usable_image(self.format(), self@),
            r.deep_view() == symtab_name(self.format(), self@, svma),
    {
        proof {
            use_type_invariant(self);
        }
        self.image.search_symtab(svma)
    }
}

} // verus!
