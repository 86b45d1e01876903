//! Finding the code of a program in an ELF image, and listing it.
//!
//! The image is parsed by the `elf` crate. What that crate returns is taken
//! on trust; what is made of it is verified.

use crate::ast::Thumb;
use crate::decode::{decode, disassemble};
use crate::Error;
use vstd::prelude::*;

verus! {

/// The type of a section that takes no space in the image.
pub const SHT_NOBITS: u32 = 8;

/// The flag of a section whose data is compressed.
pub const SHF_COMPRESSED: u64 = 0x800;

/// A section header of an ELF image, in the width-agnostic form of the ELF
/// specification.
#[derive(Copy, Clone, Debug, PartialEq, Eq, Structural)]
pub struct Section {
    pub sh_name: u32,
    pub sh_type: u32,
    pub sh_flags: u64,
    pub sh_addr: u64,
    pub sh_offset: u64,
    pub sh_size: u64,
    pub sh_link: u32,
    pub sh_info: u32,
    pub sh_addralign: u64,
    pub sh_entsize: u64,
}

/// Why no listing of a program could be made from an image.
#[derive(Copy, Clone, Debug, PartialEq, Eq, Structural)]
pub enum LoadError {
    /// The bytes are no ELF image.
    NotElf,
    /// The section table of the image cannot be read.
    SectionTable,
    /// The image has no section named `.text`.
    NoTextSection,
    /// The data of the section is compressed.
    Compressed,
    /// The data of the section cannot be read.
    SectionData,
    /// The code does not decode.
    Decode(Error),
}

/// The data of a section as it stands in the image, and whether it is
/// compressed.
#[derive(Copy, Clone, Debug, PartialEq, Eq)]
pub struct SectionData<'a> {
    pub bytes: &'a [u8],
    pub compressed: bool,
}

/// The error of the `elf` crate, `elf::ParseError`. It is carried through
/// and never looked into.
#[verifier::external_type_specification]
#[verifier::external_body]
pub struct ExParseError(elf::ParseError);

/// A parsed ELF image: the handle that `elf::ElfBytes::minimal_parse` gives.
/// The verifier does not look into it; all that is known of it is which bytes
/// it was made of.
#[verifier::external_body]
pub struct ElfImage<'a> {
    file: elf::ElfBytes<'a, elf::endian::AnyEndian>,
}

/// The bytes that a parsed image was made of.
pub uninterp spec fn image_bytes(image: ElfImage<'_>) -> Seq<u8>;

/// Whether `elf::ElfBytes::minimal_parse` accepts the bytes.
pub uninterp spec fn elf_parses(data: Seq<u8>) -> bool;

/// What `elf::ElfBytes::section_header_by_name` finds in the image made of
/// `data`: nothing if the section table cannot be read, else the header of the
/// first section of that name, if there is one.
pub uninterp spec fn elf_section(data: Seq<u8>, name: Seq<char>) -> Option<Option<Section>>;

/// Calls `elf::ElfBytes::minimal_parse`. Whether it succeeds is a function of
/// the bytes, and the handle it gives stands for those bytes.
#[verifier::external_body]
fn parse_image<'a>(data: &'a [u8]) -> (r: Result<ElfImage<'a>, elf::ParseError>)
    ensures
        r is Ok <==> elf_parses(data@),
        r matches Ok(image) ==> image_bytes(image) == data@,
{
    let file = elf::ElfBytes::<elf::endian::AnyEndian>::minimal_parse(data)?;
    Ok(ElfImage { file })
}

/// Calls `elf::ElfBytes::section_header_by_name`. What it finds is a function
/// of the bytes of the image and of the name.
#[verifier::external_body]
fn section_header_by_name(image: &ElfImage<'_>, name: &str) -> (r: Result<Option<Section>, elf::ParseError>)
    ensures
        r matches Ok(found) ==> elf_section(image_bytes(*image), name@) == Some(found),
        r is Err ==> elf_section(image_bytes(*image), name@) is None,
{
    let found = image.file.section_header_by_name(name)?;
    Ok(found.map(|h| Section {
        sh_name: h.sh_name,
        sh_type: h.sh_type,
        sh_flags: h.sh_flags,
        sh_addr: h.sh_addr,
        sh_offset: h.sh_offset,
        sh_size: h.sh_size,
        sh_link: h.sh_link,
        sh_info: h.sh_info,
        sh_addralign: h.sh_addralign,
        sh_entsize: h.sh_entsize,
    }))
}

/// Calls `elf::ElfBytes::section_data`, and says whether it gave a
/// compression header with the data.
///
/// A section of type NOBITS has no data. Any other has the bytes of the image
/// from `sh_offset` on, `sh_size` of them, and the call fails if the image
/// does not reach that far. The data counts as compressed exactly where the
/// section's flags say so; only then can the call fail for another reason.
#[verifier::external_body]
fn section_data<'a>(image: &ElfImage<'a>, section: &Section) -> (r: Result<SectionData<'a>, elf::ParseError>)
    ensures
        section.sh_type == SHT_NOBITS ==> r is Ok && r->Ok_0.bytes@.len() == 0 && !r->Ok_0.compressed,
        section.sh_type != SHT_NOBITS && section.sh_offset + section.sh_size > image_bytes(*image).len() ==> r is Err,
        section.sh_type != SHT_NOBITS && section.sh_offset + section.sh_size <= image_bytes(*image).len()
            && section.sh_flags & SHF_COMPRESSED == 0 ==> r is Ok && !r->Ok_0.compressed && r->Ok_0.bytes@
            == image_bytes(*image).subrange(section.sh_offset as int, section.sh_offset + section.sh_size),
        section.sh_type != SHT_NOBITS && section.sh_flags & SHF_COMPRESSED != 0 && r is Ok ==> r->Ok_0.compressed,
{
    let header = elf::section::SectionHeader {
        sh_name: section.sh_name,
        sh_type: section.sh_type,
        sh_flags: section.sh_flags,
        sh_addr: section.sh_addr,
        sh_offset: section.sh_offset,
        sh_size: section.sh_size,
        sh_link: section.sh_link,
        sh_info: section.sh_info,
        sh_addralign: section.sh_addralign,
        sh_entsize: section.sh_entsize,
    };
    let (bytes, compression) = image.file.section_data(&header)?;
    Ok(SectionData { bytes, compressed: compression.is_some() })
}

/// What a lookup in the section table comes to: the header that was found, or
/// the reason why there is none.
pub fn found_section(lookup: Result<Option<Section>, elf::ParseError>) -> (r: Result<Section, LoadError>)
    ensures
        r == (match lookup {
            Ok(Some(section)) => Ok::<Section, LoadError>(section),
            Ok(None) => Err(LoadError::NoTextSection),
            Err(_) => Err(LoadError::SectionTable),
        }),
{
    match lookup {
        Ok(Some(section)) => Ok(section),
        Ok(None) => Err(LoadError::NoTextSection),
        Err(_) => Err(LoadError::SectionTable),
    }
}

/// What the data of a section comes to: the bytes, unless they are
/// compressed or could not be read.
pub fn plain_data<'a>(data: Result<SectionData<'a>, elf::ParseError>) -> (r: Result<&'a [u8], LoadError>)
    ensures
        r == (match data {
            Ok(found) => if found.compressed {
                Err(LoadError::Compressed)
            } else {
                Ok::<&[u8], LoadError>(found.bytes)
            },
            Err(_) => Err(LoadError::SectionData),
        }),
{
    match data {
        Ok(found) => if found.compressed {
            Err(LoadError::Compressed)
        } else {
            Ok(found.bytes)
        },
        Err(_) => Err(LoadError::SectionData),
    }
}

/// The header of the section `.text` of the image `data`, or the reason why
/// there is none.
pub open spec fn text_header_of(data: Seq<u8>) -> Result<Section, LoadError> {
    if !elf_parses(data) {
        Err(LoadError::NotElf)
    } else {
        match elf_section(data, ".text"@) {
            None => Err(LoadError::SectionTable),
            Some(None) => Err(LoadError::NoTextSection),
            Some(Some(section)) => Ok(section),
        }
    }
}

/// Whether `r` is what the search for the code of the image `data` may come
/// to.
///
/// The outcome is fixed by the image but where the section is marked as
/// compressed: then the search fails, either because the data is compressed
/// or because its compression header cannot be read.
pub open spec fn is_text_of(data: Seq<u8>, r: Result<Seq<u8>, LoadError>) -> bool {
    match text_header_of(data) {
        Err(e) => r == Err::<Seq<u8>, LoadError>(e),
        Ok(section) => if section.sh_type == SHT_NOBITS {
            r == Ok::<Seq<u8>, LoadError>(Seq::empty())
        } else if section.sh_offset + section.sh_size > data.len() {
            r == Err::<Seq<u8>, LoadError>(LoadError::SectionData)
        } else if section.sh_flags & SHF_COMPRESSED == 0 {
            r == Ok::<Seq<u8>, LoadError>(
                data.subrange(section.sh_offset as int, section.sh_offset + section.sh_size),
            )
        } else {
            r == Err::<Seq<u8>, LoadError>(LoadError::Compressed) || r == Err::<Seq<u8>, LoadError>(
                LoadError::SectionData,
            )
        },
    }
}

/// The view of an outcome.
pub open spec fn outcome_view(r: Result<&[u8], LoadError>) -> Result<Seq<u8>, LoadError> {
    match r {
        Ok(bytes) => Ok(bytes@),
        Err(e) => Err(e),
    }
}

/// The header of the section `.text` of an ELF image.
pub fn text_header(data: &[u8]) -> (r: Result<Section, LoadError>)
    ensures
        r == text_header_of(data@),
{
    match parse_image(data) {
        Ok(image) => found_section(section_header_by_name(&image, ".text")),
        Err(_) => Err(LoadError::NotElf),
    }
}

/// The data of the section `.text` of an ELF image.
pub fn text_section<'a>(data: &'a [u8]) -> (r: Result<&'a [u8], LoadError>)
    ensures
        is_text_of(data@, outcome_view(r)),
{
    let image = match parse_image(data) {
        Ok(image) => image,
        Err(_) => {
            return Err(LoadError::NotElf);
        },
    };
    let section = match found_section(section_header_by_name(&image, ".text")) {
        Ok(section) => section,
        Err(e) => {
            return Err(e);
        },
    };
    let r = plain_data(section_data(&image, &section));
    proof {
        if let Ok(bytes) = r {
            if section.sh_type == SHT_NOBITS {
                assert(bytes@ =~= Seq::empty());
            }
        }
    }
    r
}

/// The instructions that `bytes` hold from their start to their end: at
/// least one, since decoding goes on until nothing is left.
pub open spec fn decode_all(bytes: Seq<u8>) -> Result<Seq<Thumb>, Error>
    decreases bytes.len(),
{
    match decode(bytes) {
        Err(e) => Err(e),
        Ok((thumb, width)) => if 0 < width < bytes.len() {
            match decode_all(bytes.skip(width as int)) {
                Ok(rest) => Ok(seq![thumb] + rest),
                Err(e) => Err(e),
            }
        } else {
            Ok(seq![thumb])
        },
    }
}

/// A listing that begins with `listed` and goes on as `rest` does.
pub open spec fn continued(listed: Seq<Thumb>, rest: Result<Seq<Thumb>, Error>) -> Result<Seq<Thumb>, Error> {
    match rest {
        Ok(more) => Ok(listed + more),
        Err(e) => Err(e),
    }
}

/// Decodes instruction after instruction until the chunk is used up.
pub fn disassemble_all(chunk: &[u8]) -> (r: Result<Vec<Thumb>, Error>)
    ensures
        match decode_all(chunk@) {
            Ok(listing) => r matches Ok(list) && list@ == listing,
            Err(e) => r matches Err(err) && err == e,
        },
{
    let mut list: Vec<Thumb> = Vec::new();
    let mut rest: &[u8] = chunk;
    assert(continued(list@, decode_all(rest@)) == decode_all(chunk@)) by {
        match decode_all(chunk@) {
            Ok(listing) => assert(Seq::<Thumb>::empty() + listing =~= listing),
            Err(_) => {},
        }
    }
    loop
        invariant
            continued(list@, decode_all(rest@)) == decode_all(chunk@),
        decreases rest.len(),
    {
        let ghost before = rest@;
        let ghost listed = list@;
        match disassemble(rest) {
            Ok((thumb, tail)) => {
                list.push(thumb);
                proof {
                    let width = decode(before)->Ok_0.1;
                    assert(width == 2 || width == 4);
                    assert(tail@.len() == before.len() - width);
                    if tail@.len() > 0 {
                        match decode_all(tail@) {
                            Ok(more) => assert(listed + (seq![thumb] + more) =~= list@ + more),
                            Err(_) => {},
                        }
                    } else {
                        assert(listed + seq![thumb] =~= list@);
                    }
                }
                if tail.len() == 0 {
                    return Ok(list);
                }
                rest = tail;
            },
            Err(e) => {
                return Err(e);
            },
        }
    }
}

/// Whether `r` is the listing that goes with the outcome `text` of the
/// search for the code.
pub open spec fn is_listing_of(text: Result<Seq<u8>, LoadError>, r: Result<Seq<Thumb>, LoadError>) -> bool {
    match text {
        Ok(bytes) => match decode_all(bytes) {
            Ok(listing) => r == Ok::<Seq<Thumb>, LoadError>(listing),
            Err(e) => r == Err::<Seq<Thumb>, LoadError>(LoadError::Decode(e)),
        },
        Err(e) => r == Err::<Seq<Thumb>, LoadError>(e),
    }
}

/// The view of a listing.
pub open spec fn listing_view(r: Result<Vec<Thumb>, LoadError>) -> Result<Seq<Thumb>, LoadError> {
    match r {
        Ok(list) => Ok(list@),
        Err(e) => Err(e),
    }
}

/// The instructions of the section `.text` of an ELF image, in their order.
pub fn read_elf_file(file_data: &[u8]) -> (r: Result<Vec<Thumb>, LoadError>)
    ensures
        exists|text: Result<Seq<u8>, LoadError>|
            is_text_of(file_data@, text) && is_listing_of(text, listing_view(r)),
{
    let found = text_section(file_data);
    let text_data = match found {
        Ok(text_data) => text_data,
        Err(e) => {
            assert(is_listing_of(outcome_view(found), Err(e)));
            return Err(e);
        },
    };
    let r = match disassemble_all(text_data) {
        Ok(list) => Ok(list),
        Err(e) => Err(LoadError::Decode(e)),
    };
    assert(is_listing_of(outcome_view(found), listing_view(r)));
    r
}

} // verus!
