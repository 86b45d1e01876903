use disarm::ast::{Register, Thumb, Thumb16};
use disarm::loader::{
    disassemble_all, found_section, plain_data, text_section, LoadError, Section, SectionData, SHF_COMPRESSED,
    SHT_NOBITS,
};
use disarm::{read_elf_file, Error};

const SHT_PROGBITS: u32 = 1;
const SHT_STRTAB: u32 = 3;
const CODE: [u8; 6] = [0x40, 0x1c, 0x70, 0x47, 0x00, 0xbe];

fn word(out: &mut Vec<u8>, value: u32) {
    out.extend_from_slice(&value.to_le_bytes());
}

fn half(out: &mut Vec<u8>, value: u16) {
    out.extend_from_slice(&value.to_le_bytes());
}

fn section_header(out: &mut Vec<u8>, name: u32, kind: u32, flags: u32, addr: u32, offset: u32, size: u32) {
    for value in [name, kind, flags, addr, offset, size, 0, 0, 1, 0] {
        word(out, value);
    }
}

/// A 32-bit little-endian ELF image for ARM with one section besides the
/// table of section names.
fn image_with(name: &str, kind: u32, flags: u32, data: &[u8], size: u32, names_index: u16) -> Vec<u8> {
    let mut names = vec![0u8];
    names.extend_from_slice(name.as_bytes());
    names.push(0);
    let names_name = names.len() as u32;
    names.extend_from_slice(b".shstrtab\0");

    let data_offset = 52u32;
    let names_offset = data_offset + data.len() as u32;
    let table_offset = names_offset + names.len() as u32;

    let mut out = vec![0x7f, b'E', b'L', b'F', 1, 1, 1, 0, 0, 0, 0, 0, 0, 0, 0, 0];
    half(&mut out, 2); // executable
    half(&mut out, 40); // ARM
    word(&mut out, 1);
    word(&mut out, 0x100); // entry
    word(&mut out, 0); // no program headers
    word(&mut out, table_offset);
    word(&mut out, 0);
    half(&mut out, 52);
    half(&mut out, 32);
    half(&mut out, 0);
    half(&mut out, 40);
    half(&mut out, 3);
    half(&mut out, names_index);
    assert_eq!(out.len(), 52);
    out.extend_from_slice(data);
    out.extend_from_slice(&names);
    section_header(&mut out, 0, 0, 0, 0, 0, 0);
    section_header(&mut out, 1, kind, flags, 0x100, data_offset, size);
    section_header(&mut out, names_name, SHT_STRTAB, 0, 0, names_offset, names.len() as u32);
    out
}

fn image(data: &[u8]) -> Vec<u8> {
    image_with(".text", SHT_PROGBITS, 6, data, data.len() as u32, 2)
}

fn some_section() -> Section {
    Section {
        sh_name: 1,
        sh_type: SHT_PROGBITS,
        sh_flags: 6,
        sh_addr: 0x100,
        sh_offset: 52,
        sh_size: 6,
        sh_link: 0,
        sh_info: 0,
        sh_addralign: 1,
        sh_entsize: 0,
    }
}

#[test]
fn the_text_of_an_image_is_found() {
    let file = image(&CODE);
    assert_eq!(text_section(&file), Ok(&CODE[..]));
    // Where the section lies is read from its header, not guessed.
    let mut padded = vec![0xAA; 10];
    padded.extend_from_slice(&CODE);
    let mut file = image_with(".text", SHT_PROGBITS, 6, &padded, CODE.len() as u32, 2);
    let header_at = file.len() - 2 * 40;
    file[header_at + 16..header_at + 20].copy_from_slice(&62u32.to_le_bytes());
    assert_eq!(text_section(&file), Ok(&CODE[..]));
}

#[test]
fn the_listing_of_an_image_is_made() {
    let file = image(&CODE);
    assert_eq!(
        read_elf_file(&file),
        Ok(vec![
            Thumb::Thumb16(Thumb16::AddsImmT1(1, Register::R0, Register::R0)),
            Thumb::Thumb16(Thumb16::BxT1(Register::LR)),
            Thumb::Thumb16(Thumb16::Bkpt(0)),
        ])
    );
}

#[test]
fn what_is_no_image_is_refused() {
    assert_eq!(text_section(&[]), Err(LoadError::NotElf));
    assert_eq!(text_section(&CODE), Err(LoadError::NotElf));
    assert_eq!(read_elf_file(b"\x7fELF"), Err(LoadError::NotElf));
    let mut file = image(&CODE);
    file[1] = b'F';
    assert_eq!(read_elf_file(&file), Err(LoadError::NotElf));
}

#[test]
fn an_image_without_text_is_refused() {
    let file = image_with(".data", SHT_PROGBITS, 3, &CODE, CODE.len() as u32, 2);
    assert_eq!(text_section(&file), Err(LoadError::NoTextSection));
    assert_eq!(read_elf_file(&file), Err(LoadError::NoTextSection));
}

#[test]
fn an_image_with_a_broken_section_table_is_refused() {
    // The table of section names is said to be a section that does not exist.
    let file = image_with(".text", SHT_PROGBITS, 6, &CODE, CODE.len() as u32, 7);
    assert_eq!(text_section(&file), Err(LoadError::SectionTable));
    assert_eq!(read_elf_file(&file), Err(LoadError::SectionTable));
}

#[test]
fn text_that_lies_outside_the_image_is_refused() {
    let file = image_with(".text", SHT_PROGBITS, 6, &CODE, 0x10_0000, 2);
    assert_eq!(text_section(&file), Err(LoadError::SectionData));
    assert_eq!(read_elf_file(&file), Err(LoadError::SectionData));
}

#[test]
fn compressed_text_is_refused() {
    // A compression header (zlib, 6 bytes, alignment 1) and then the data.
    let mut data = vec![];
    word(&mut data, 1);
    word(&mut data, 6);
    word(&mut data, 1);
    data.extend_from_slice(&CODE);
    let file = image_with(".text", SHT_PROGBITS, 6 | SHF_COMPRESSED as u32, &data, data.len() as u32, 2);
    assert_eq!(text_section(&file), Err(LoadError::Compressed));
    assert_eq!(read_elf_file(&file), Err(LoadError::Compressed));
    // Too short for a compression header.
    let file = image_with(".text", SHT_PROGBITS, 6 | SHF_COMPRESSED as u32, &CODE, CODE.len() as u32, 2);
    assert_eq!(text_section(&file), Err(LoadError::SectionData));
}

#[test]
fn text_that_takes_no_space_is_empty() {
    let file = image_with(".text", SHT_NOBITS, 6, &CODE, CODE.len() as u32, 2);
    assert_eq!(text_section(&file), Ok(&[][..]));
    assert_eq!(read_elf_file(&file), Err(LoadError::Decode(Error::ChunkNotLongEnough)));
}

#[test]
fn text_that_does_not_decode_is_refused() {
    // adds r0, r0, #1; pop {r4, r5, r7, pc}
    let file = image(&[0x40, 0x1c, 0xb0, 0xbd]);
    assert_eq!(read_elf_file(&file), Err(LoadError::Decode(Error::IllegalEncoding)));
    let file = image(&[0x40, 0x1c, 0x70]);
    assert_eq!(read_elf_file(&file), Err(LoadError::Decode(Error::ChunkNotLongEnough)));
}

#[test]
fn a_lookup_comes_to_a_header_or_a_reason() {
    assert_eq!(found_section(Ok(Some(some_section()))), Ok(some_section()));
    assert_eq!(found_section(Ok(None)), Err(LoadError::NoTextSection));
    assert_eq!(found_section(Err(elf::ParseError::IntegerOverflow)), Err(LoadError::SectionTable));
    assert_eq!(found_section(Err(elf::ParseError::BadOffset(9))), Err(LoadError::SectionTable));
}

#[test]
fn section_data_comes_to_bytes_or_a_reason() {
    let plain = SectionData { bytes: &CODE, compressed: false };
    let packed = SectionData { bytes: &CODE, compressed: true };
    assert_eq!(plain_data(Ok(plain)), Ok(&CODE[..]));
    assert_eq!(plain_data(Ok(packed)), Err(LoadError::Compressed));
    assert_eq!(plain_data(Err(elf::ParseError::SliceReadError((52, 99)))), Err(LoadError::SectionData));
}

#[test]
fn a_chunk_is_decoded_to_its_end() {
    assert_eq!(
        disassemble_all(&[0x40, 0x1c, 0x00, 0xf0, 0xe8, 0xfb]),
        Ok(vec![
            Thumb::Thumb16(Thumb16::AddsImmT1(1, Register::R0, Register::R0)),
            Thumb::Thumb32(disarm::ast::Thumb32::BlT1(2000)),
        ])
    );
    assert_eq!(disassemble_all(&[0x00, 0xbe]), Ok(vec![Thumb::Thumb16(Thumb16::Bkpt(0))]));
    assert_eq!(disassemble_all(&[]), Err(Error::ChunkNotLongEnough));
    assert_eq!(disassemble_all(&[0x40, 0x1c, 0x70]), Err(Error::ChunkNotLongEnough));
    assert_eq!(disassemble_all(&[0x40, 0x1c, 0x00, 0xf0]), Err(Error::ChunkNotLongEnough));
    assert_eq!(disassemble_all(&[0x40, 0x1c, 0x00, 0x00, 0x70, 0x47]), Err(Error::IllegalEncoding));
}
