use cortex_m4_sim::disassembler::parser::{
    analyze_image, clip_code_segments, has_reset_handler_name, parse_axf_image, CodeSegment,
};
use cortex_m4_sim::disassembler::listing::disassemble_layout;
use cortex_m4_sim::disassembler::parser::{ImageLayout, ImageRegion, SectionLayout};
use cortex_m4_sim::disassembler::{ImageError, RegionKind};

fn push_u16(out: &mut Vec<u8>, v: u16) {
    out.extend_from_slice(&v.to_le_bytes());
}

fn push_u32(out: &mut Vec<u8>, v: u32) {
    out.extend_from_slice(&v.to_le_bytes());
}

/// The code section: the two vector table words, `movs r0, #1; b .`, then two data halfwords.
fn text_contents() -> Vec<u8> {
    let mut t = Vec::new();
    push_u32(&mut t, 0x2000_5000);
    push_u32(&mut t, 0x0800_0009);
    t.extend_from_slice(&[0x01, 0x20, 0xFE, 0xE7]);
    t.extend_from_slice(&[0x34, 0x12, 0x78, 0x56]);
    t
}

/// A little ELF32 image for ARM with one code section at 0x0800_0000 holding `text`, mapping
/// symbols `$d` (vector table), `$t` (code at +8), `$d` (data at +12) and a function
/// `Reset_Handler` at +8; `text_size` is the size the section header states.
fn build_elf(text: &[u8], text_size: u32) -> Vec<u8> {
    let strtab: &[u8] = b"\0$d\0$t\0Reset_Handler\0";
    let shstrtab: &[u8] = b"\0.text\0.symtab\0.strtab\0.shstrtab\0";
    let text_off = 52u32;
    let symtab_off = text_off + text.len() as u32;
    let symtab_len = 5 * 16u32;
    let strtab_off = symtab_off + symtab_len;
    let shstrtab_off = strtab_off + strtab.len() as u32;
    let sh_off = (shstrtab_off + shstrtab.len() as u32 + 3) & !3;

    let mut out = Vec::new();
    out.extend_from_slice(&[0x7F, b'E', b'L', b'F', 1, 1, 1, 0]);
    out.extend_from_slice(&[0; 8]);
    push_u16(&mut out, 2);
    push_u16(&mut out, 40);
    push_u32(&mut out, 1);
    push_u32(&mut out, 0x0800_0009);
    push_u32(&mut out, 0);
    push_u32(&mut out, sh_off);
    push_u32(&mut out, 0x0500_0000);
    push_u16(&mut out, 52);
    push_u16(&mut out, 32);
    push_u16(&mut out, 0);
    push_u16(&mut out, 40);
    push_u16(&mut out, 5);
    push_u16(&mut out, 4);
    assert_eq!(out.len(), 52);

    out.extend_from_slice(text);

    let symbols: [(u32, u32, u8); 5] = [
        (0, 0, 0),
        (1, 0x0800_0000, 0x00),
        (4, 0x0800_0008, 0x00),
        (1, 0x0800_000C, 0x00),
        (7, 0x0800_0009, 0x12),
    ];
    for (name, value, info) in symbols.iter() {
        push_u32(&mut out, *name);
        push_u32(&mut out, *value);
        push_u32(&mut out, 0);
        out.push(*info);
        out.push(0);
        push_u16(&mut out, if *name == 0 { 0 } else { 1 });
    }
    out.extend_from_slice(strtab);
    out.extend_from_slice(shstrtab);
    while (out.len() as u32) < sh_off {
        out.push(0);
    }

    let headers: [[u32; 10]; 5] = [
        [0; 10],
        [1, 1, 6, 0x0800_0000, text_off, text_size, 0, 0, 4, 0],
        [7, 2, 0, 0, symtab_off, symtab_len, 3, 4, 4, 16],
        [15, 3, 0, 0, strtab_off, strtab.len() as u32, 0, 0, 1, 0],
        [23, 3, 0, 0, shstrtab_off, shstrtab.len() as u32, 0, 0, 1, 0],
    ];
    for h in headers.iter() {
        for w in h.iter() {
            push_u32(&mut out, *w);
        }
    }
    out
}

fn sample_image() -> Vec<u8> {
    let text = text_contents();
    build_elf(&text, text.len() as u32)
}

#[test]
fn image_vector_table_and_reset_handler() {
    let layout = analyze_image(&sample_image()).unwrap();
    assert_eq!(layout.initial_sp, 0x2000_5000);
    assert_eq!(layout.reset_handler_ptr, 0x0800_0009);
    assert_eq!(layout.reset_handler, Some(0x0800_0008));
}

#[test]
fn image_code_section_splits_at_mapping_symbols() {
    let layout = analyze_image(&sample_image()).unwrap();
    assert_eq!(layout.sections.len(), 1);
    let regions = &layout.sections[0].regions;
    assert_eq!(regions.len(), 3);
    assert_eq!((regions[0].start, regions[0].end, regions[0].kind), (0x0800_0000, 0x0800_0008, RegionKind::Data));
    assert_eq!((regions[1].start, regions[1].end, regions[1].kind), (0x0800_0008, 0x0800_000C, RegionKind::Thumb));
    assert_eq!((regions[2].start, regions[2].end, regions[2].kind), (0x0800_000C, 0x0800_0010, RegionKind::Data));
    assert_eq!(regions[1].bytes, vec![0x01, 0x20, 0xFE, 0xE7]);
    assert_eq!(regions[0].function, None);
    assert_eq!(regions[1].function, Some(3));
    let name: String = layout.symbols[3].name.as_ref().unwrap().iter().collect();
    assert_eq!(name, "Reset_Handler");
    assert_eq!(layout.symbols.len(), 4);
}

#[test]
fn image_data_halfwords_by_address() {
    let layout = analyze_image(&sample_image()).unwrap();
    assert_eq!(
        layout.dcw,
        vec![
            (0x0800_0000, 0x5000),
            (0x0800_0002, 0x2000),
            (0x0800_0004, 0x0009),
            (0x0800_0006, 0x0800),
            (0x0800_000C, 0x1234),
            (0x0800_000E, 0x5678),
        ]
    );
}

#[test]
fn image_code_segments_are_the_thumb_regions() {
    let layout = analyze_image(&sample_image()).unwrap();
    assert_eq!(layout.code_segments.len(), 1);
    assert_eq!(layout.code_segments[0].address, 0x0800_0008);
    assert_eq!(layout.code_segments[0].bytes, vec![0x01, 0x20, 0xFE, 0xE7]);
}

#[test]
fn axf_image_starts_at_reset_handler() {
    let axf = parse_axf_image(&sample_image()).unwrap();
    assert_eq!(axf.start_address, 0x0800_0008);
    assert_eq!(axf.code, vec![0x01, 0x20, 0xFE, 0xE7, 0x34, 0x12, 0x78, 0x56]);
    assert_eq!(axf.dcw.len(), 6);
}

#[test]
fn image_rejects_garbage() {
    assert_eq!(analyze_image(&[1, 2, 3, 4]).err(), Some(ImageError::Parse));
    assert_eq!(parse_axf_image(&[]).err(), Some(ImageError::Parse));
}

#[test]
fn image_reports_unreadable_code_section() {
    let text = text_contents();
    let bytes = build_elf(&text, 0x10_0000);
    assert_eq!(analyze_image(&bytes).err(), Some(ImageError::SectionData { address: 0x0800_0000 }));
}

#[test]
fn segments_below_flash_are_cut_or_dropped() {
    let raw = vec![
        CodeSegment { address: 0x0700_0000, bytes: vec![1, 2] },
        CodeSegment { address: 0x07FF_FFFE, bytes: vec![1, 2, 3, 4] },
        CodeSegment { address: 0x0800_0000, bytes: vec![] },
        CodeSegment { address: 0x0800_0010, bytes: vec![9] },
    ];
    let clipped = clip_code_segments(&raw, 0x0800_0000);
    assert_eq!(clipped.len(), 2);
    assert_eq!((clipped[0].address, clipped[0].bytes.clone()), (0x0800_0000, vec![3, 4]));
    assert_eq!((clipped[1].address, clipped[1].bytes.clone()), (0x0800_0010, vec![9]));
}

#[test]
fn reset_handler_name_ignores_case() {
    let n: Vec<char> = "my_RESET_Handler_x".chars().collect();
    assert!(has_reset_handler_name(&n));
    let n: Vec<char> = "reset_handle".chars().collect();
    assert!(!has_reset_handler_name(&n));
    let n: Vec<char> = "Reset_Handler".chars().collect();
    assert!(has_reset_handler_name(&n));
}

#[test]
fn image_disassembly_lists_the_code_from_flash_on() {
    let layout = analyze_image(&sample_image()).unwrap();
    let d = disassemble_layout(&layout).unwrap();
    assert_eq!(d.start_address, 0x0800_0000);
    assert_eq!(d.instructions.len(), 2);
    assert_eq!(d.instructions[0].address, 0x0800_0008);
    assert_eq!(d.instructions[0].mnemonic, "movs");
    assert_eq!(d.instructions[1].address, 0x0800_000A);
    assert_eq!(d.instructions[1].mnemonic, "b");
}

fn region(start: u64, kind: RegionKind, bytes: &[u8]) -> ImageRegion {
    ImageRegion { start, end: start + bytes.len() as u64, kind, bytes: bytes.to_vec(), function: None }
}

fn layout_of(regions: Vec<ImageRegion>) -> ImageLayout {
    ImageLayout {
        initial_sp: 0,
        reset_handler_ptr: 0,
        reset_handler: None,
        sections: vec![SectionLayout { address: 0x07FF_FFFC, regions }],
        code_segments: Vec::new(),
        dcw: Vec::new(),
        symbols: Vec::new(),
    }
}

#[test]
fn disassembly_drops_code_below_flash_and_skips_data() {
    let layout = layout_of(vec![
        region(0x07FF_FFFC, RegionKind::Thumb, &[0x00, 0xBF, 0x00, 0xBF]),
        region(0x0800_0000, RegionKind::Thumb, &[0x01, 0x20]),
        region(0x0800_0002, RegionKind::Data, &[0x00, 0xBF]),
    ]);
    let d = disassemble_layout(&layout).unwrap();
    assert_eq!(d.instructions.len(), 1);
    assert_eq!(d.instructions[0].address, 0x0800_0000);
    assert_eq!(d.instructions[0].bytes, vec![0x01, 0x20]);
}

#[test]
fn disassembly_of_nothing_is_empty() {
    let d = disassemble_layout(&layout_of(Vec::new())).unwrap();
    assert!(d.instructions.is_empty());
}
