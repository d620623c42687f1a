use cg_decode::{
    decode_sprites, dump_cg, palette_sidecar, Container, DecodeError, Failure, Rgba,
};

const DESCRIPTOR_AT: usize = 8212;
const OFFSETS_AT: usize = 8260;
const ALIGN_POINTER_AT: usize = 20260;
const BODY_AT: usize = 20264;

fn put_u32(data: &mut [u8], at: usize, v: u32) {
    data[at..at + 4].copy_from_slice(&v.to_le_bytes());
}

fn record(name: &[u8], type_id: i32, size: (u32, u32), bpp: u32, aligns: (u32, u32), payload: &[u8]) -> Vec<u8> {
    let mut out = vec![0u8; 32];
    out[..name.len()].copy_from_slice(name);
    out.extend_from_slice(&type_id.to_le_bytes());
    out.extend_from_slice(&size.0.to_le_bytes());
    out.extend_from_slice(&size.1.to_le_bytes());
    out.extend_from_slice(&bpp.to_le_bytes());
    out.extend_from_slice(&[0; 16]);
    out.extend_from_slice(&aligns.0.to_le_bytes());
    out.extend_from_slice(&aligns.1.to_le_bytes());
    out.extend_from_slice(payload);
    out
}

fn entry(block: [u32; 4], source: [u16; 3], backref: bool) -> Vec<u8> {
    let mut out = Vec::new();
    for f in block {
        out.extend_from_slice(&f.to_le_bytes());
    }
    for s in source {
        out.extend_from_slice(&s.to_le_bytes());
    }
    out.extend_from_slice(&(backref as u16).to_le_bytes());
    out
}

fn palette() -> Vec<u8> {
    let mut pal = Vec::new();
    for i in 0..256u32 {
        pal.extend_from_slice(&[i as u8, (i + 1) as u8, (i + 2) as u8, 0x55]);
    }
    pal
}

fn gray(v: u8) -> Rgba {
    Rgba { r: v, g: v.wrapping_add(1), b: v.wrapping_add(2), a: 255 }
}

fn container(records: &[Vec<u8>], entries: &[Vec<u8>]) -> Vec<u8> {
    let mut data = vec![0u8; BODY_AT];
    data[20..1044].copy_from_slice(&palette());
    put_u32(&mut data, DESCRIPTOR_AT, 2);
    put_u32(&mut data, DESCRIPTOR_AT + 4, 0);
    put_u32(&mut data, DESCRIPTOR_AT + 8, entries.len() as u32);
    put_u32(&mut data, DESCRIPTOR_AT + 12, records.len() as u32);
    for (n, rec) in records.iter().enumerate() {
        let at = data.len() as u32;
        put_u32(&mut data, OFFSETS_AT + 4 * n, at);
        data.extend_from_slice(rec);
    }
    let at = data.len() as u32;
    put_u32(&mut data, ALIGN_POINTER_AT, at);
    for e in entries {
        data.extend_from_slice(e);
    }
    data
}

fn two_sprites() -> Vec<u8> {
    let mut local = palette();
    local.extend_from_slice(&[7, 8]);
    container(
        &[
            record(b"one.bmp", 2, (2, 1), 16, (0, 1), &local),
            record(b"two.bmp", 3, (3, 1), 16, (1, 2), &[200, 100, 50, 0, 77, 88, 99]),
        ],
        &[
            entry([0, 0, 2, 1], [0, 0, 1], false),
            entry([0, 0, 2, 1], [0, 0, 1], true),
            entry([2, 0, 1, 1], [5, 5, 1], false),
        ],
    )
}

#[test]
fn the_header_is_read_from_its_fixed_places() {
    let data = two_sprites();
    let c = Container::read(&data).unwrap();
    assert_eq!(c.palette, &palette()[..]);
    assert_eq!(c.num_sheets, 2);
    assert_eq!(c.num_aligns, 3);
    assert_eq!(c.image_count, 2);
    assert_eq!(c.offset_table, vec![BODY_AT as u32, (BODY_AT + 72 + 1026) as u32]);
    assert_eq!(c.align_base as usize, BODY_AT + 72 + 1026 + 72 + 7);
}

#[test]
fn the_offset_table_has_one_offset_for_each_sprite() {
    for count in [0usize, 1, 5] {
        let records: Vec<Vec<u8>> =
            (0..count).map(|_| record(b"s", 1, (0, 0), 32, (0, 0), &[])).collect();
        let data = container(&records, &[]);
        let c = Container::read(&data).unwrap();
        assert_eq!(c.image_count as usize, count);
        assert_eq!(c.offset_table.len(), count);
        assert!(c.offset_table.iter().all(|o| (*o as usize) < data.len()));
        assert!(c.align_base as usize <= data.len());
    }
}

#[test]
fn a_reserved_number_that_is_not_zero_is_malformed() {
    let mut data = two_sprites();
    put_u32(&mut data, DESCRIPTOR_AT + 4, 1);
    assert_eq!(Container::read(&data).err(), Some(DecodeError::Format));
    assert_eq!(dump_cg(&data).err().map(|f| f.kind), Some(DecodeError::Format));
    put_u32(&mut data, DESCRIPTOR_AT + 4, 0x0100_0000);
    assert_eq!(Container::read(&data).err(), Some(DecodeError::Format));
}

#[test]
fn a_header_cut_short_is_malformed() {
    let data = container(&[], &[]);
    assert_eq!(data.len(), BODY_AT);
    assert!(Container::read(&data).is_ok());
    assert_eq!(Container::read(&data[..BODY_AT - 1]).err(), Some(DecodeError::Format));
    assert_eq!(Container::read(&data[..100]).err(), Some(DecodeError::Format));
    assert_eq!(Container::read(&[]).err(), Some(DecodeError::Format));
}

#[test]
fn an_offset_outside_the_container_is_malformed() {
    let mut data = two_sprites();
    let len = data.len() as u32;
    put_u32(&mut data, OFFSETS_AT + 4, len);
    assert_eq!(Container::read(&data).err(), Some(DecodeError::Format));
    put_u32(&mut data, OFFSETS_AT + 4, len - 1);
    assert!(Container::read(&data).is_ok());
    assert_eq!(dump_cg(&data).err().map(|f| f.kind), Some(DecodeError::Format));
    put_u32(&mut data, OFFSETS_AT + 4, u32::MAX);
    assert_eq!(Container::read(&data).err(), Some(DecodeError::Format));
}

#[test]
fn an_alignment_table_outside_the_container_is_malformed() {
    let mut data = two_sprites();
    let len = data.len() as u32;
    put_u32(&mut data, ALIGN_POINTER_AT, len + 1);
    assert_eq!(Container::read(&data).err(), Some(DecodeError::Format));
    put_u32(&mut data, ALIGN_POINTER_AT, len);
    assert!(Container::read(&data).is_ok());
}

#[test]
fn an_offset_table_longer_than_the_container_is_malformed() {
    let mut data = container(&[], &[]);
    put_u32(&mut data, DESCRIPTOR_AT + 12, u32::MAX);
    assert_eq!(Container::read(&data).err(), Some(DecodeError::Format));
    put_u32(&mut data, DESCRIPTOR_AT + 12, ((BODY_AT - OFFSETS_AT) / 4 + 1) as u32);
    assert_eq!(Container::read(&data).err(), Some(DecodeError::Format));
}

#[test]
fn the_palette_file_is_the_palette_after_four_bytes() {
    let pal = palette();
    let file = palette_sidecar(&pal);
    assert_eq!(file.len(), 4 + pal.len());
    assert_eq!(&file[..4], &[0x40, 0x00, 0x00, 0x00]);
    assert_eq!(&file[4..], &pal[..]);
    assert_eq!(palette_sidecar(&[]), vec![0x40, 0, 0, 0]);
    assert_eq!(palette_sidecar(&[9, 8]), vec![0x40, 0, 0, 0, 9, 8]);
}

#[test]
fn a_container_is_decoded_sprite_by_sprite() {
    let data = two_sprites();
    let dump = dump_cg(&data).unwrap();
    assert_eq!(dump.palette_file.len(), 4 + 1024);
    assert_eq!(&dump.palette_file[..4], &[0x40, 0, 0, 0]);
    assert_eq!(&dump.palette_file[4..], &palette()[..]);
    assert_eq!(dump.sprites.len(), 2);

    let one = &dump.sprites[0];
    assert_eq!(one.name, "one.bmp");
    assert_eq!((one.canvas.width, one.canvas.height), (2, 1));
    assert_eq!(one.canvas.pixels, vec![gray(7), gray(8)]);
    assert_eq!(one.local_palette.as_deref(), Some(&palette()[..]));
    assert!(one.alpha_marker.is_none());
    assert!(one.solid_color.is_none());

    // the second sprite copies the first one's block from the cache
    let two = &dump.sprites[1];
    assert_eq!(two.name, "two.bmp");
    assert_eq!(
        two.canvas.pixels,
        vec![gray(7), gray(8), Rgba { r: 200, g: 100, b: 50, a: 77 }]
    );
    assert!(two.local_palette.is_none());
    assert_eq!(two.solid_color.as_deref(), Some(&b"200 100 50"[..]));
}

#[test]
fn decoding_twice_gives_the_same_bytes() {
    let data = two_sprites();
    let first = dump_cg(&data).unwrap();
    let second = dump_cg(&data.clone()).unwrap();
    assert_eq!(first.palette_file, second.palette_file);
    assert_eq!(first.sprites.len(), second.sprites.len());
    for (a, b) in first.sprites.iter().zip(second.sprites.iter()) {
        assert_eq!(a.name, b.name);
        assert_eq!(a.canvas.width, b.canvas.width);
        assert_eq!(a.canvas.height, b.canvas.height);
        assert_eq!(a.canvas.to_rgba8(), b.canvas.to_rgba8());
        assert_eq!(a.local_palette, b.local_palette);
        assert_eq!(a.alpha_marker, b.alpha_marker);
        assert_eq!(a.solid_color, b.solid_color);
    }
}

#[test]
fn each_decoding_starts_from_an_empty_cache() {
    // one sprite that only copies from the cache: nothing was written, ever
    let data = container(
        &[record(b"s", 1, (1, 1), 32, (0, 1), &[1, 2, 3, 4])],
        &[entry([0, 0, 1, 1], [0, 0, 0], true)],
    );
    assert_eq!(dump_cg(&two_sprites()).map(|d| d.sprites.len()).ok(), Some(2));
    assert_eq!(dump_cg(&data).err().map(|f| f.kind), Some(DecodeError::CacheMiss));
    assert_eq!(dump_cg(&data).err().map(|f| f.kind), Some(DecodeError::CacheMiss));
}

#[test]
fn a_sprite_whose_values_exceed_the_container_fails_the_whole_decoding() {
    let data = container(
        &[
            record(b"good", 1, (1, 1), 32, (0, 1), &[1, 2, 3, 4]),
            record(b"bad", 1, (2, 2), 32, (0, 0), &[0; 15]),
        ],
        &[entry([0, 0, 1, 1], [0, 0, 0], false)],
    );
    // the alignment table follows the records, so cut it off to end the buffer
    let cut = data.len() - 24;
    let mut data = data[..cut].to_vec();
    put_u32(&mut data, ALIGN_POINTER_AT, cut as u32);
    assert_eq!(dump_cg(&data).err().map(|f| f.kind), Some(DecodeError::Format));
}

#[test]
fn a_later_failure_hands_out_nothing() {
    let data = container(
        &[
            record(b"good", 1, (1, 1), 32, (0, 1), &[1, 2, 3, 4]),
            record(b"odd", 9, (9, 8), 32, (0, 1), &[]),
        ],
        &[entry([0, 0, 1, 1], [0, 0, 0], false)],
    );
    assert_eq!(dump_cg(&data).err().map(|f| f.kind), Some(DecodeError::UnsupportedVariant));
}

#[test]
fn an_empty_container_has_a_palette_file_and_no_sprite() {
    let data = container(&[], &[]);
    let dump = dump_cg(&data).unwrap();
    assert!(dump.sprites.is_empty());
    assert_eq!(dump.palette_file.len(), 1028);
}

#[test]
fn sprites_are_decoded_in_the_order_of_the_table() {
    // the second record in the buffer is the first in the table
    let mut data = container(
        &[
            record(b"reader", 1, (1, 1), 32, (1, 1), &[]),
            record(b"writer", 1, (1, 1), 32, (0, 1), &[1, 2, 3, 4]),
        ],
        &[
            entry([0, 0, 1, 1], [0, 0, 0], false),
            entry([0, 0, 1, 1], [0, 0, 0], true),
        ],
    );
    assert_eq!(dump_cg(&data).err().map(|f| f.kind), Some(DecodeError::CacheMiss));
    let first = u32::from_le_bytes(data[OFFSETS_AT..OFFSETS_AT + 4].try_into().unwrap());
    let second = u32::from_le_bytes(data[OFFSETS_AT + 4..OFFSETS_AT + 8].try_into().unwrap());
    put_u32(&mut data, OFFSETS_AT, second);
    put_u32(&mut data, OFFSETS_AT + 4, first);
    let dump = dump_cg(&data).unwrap();
    assert_eq!(dump.sprites[0].name, "writer");
    assert_eq!(dump.sprites[1].name, "reader");
    assert_eq!(dump.sprites[1].canvas.pixels, vec![Rgba { r: 3, g: 2, b: 1, a: 4 }]);
}

#[test]
fn decode_sprites_follows_the_offset_table_it_is_given() {
    let data = two_sprites();
    let mut c = Container::read(&data).unwrap();
    assert_eq!(decode_sprites(&data, &c).map(|s| s.len()).ok(), Some(2));
    c.offset_table.truncate(1);
    assert_eq!(decode_sprites(&data, &c).map(|s| s.len()).ok(), Some(1));
    c.offset_table.push(u32::MAX);
    assert_eq!(decode_sprites(&data, &c).err().map(|f| f.kind), Some(DecodeError::Format));
    c.offset_table.clear();
    c.align_base = u32::MAX;
    assert_eq!(decode_sprites(&data, &c).err().map(|f| f.kind), Some(DecodeError::Format));
}

#[test]
fn failures_describe_themselves() {
    assert_eq!(DecodeError::Format.message(), "malformed container");
    assert_eq!(
        DecodeError::CacheMiss.message(),
        "back-reference to a tile that was never written"
    );
    assert_eq!(DecodeError::UnsupportedVariant.message(), "unhandled type");
}

#[test]
fn a_failure_of_the_header_tells_no_place() {
    assert_eq!(dump_cg(&[]).err(), Some(Failure::bare(DecodeError::Format)));
    assert_eq!(
        Failure::bare(DecodeError::CacheMiss),
        Failure { kind: DecodeError::CacheMiss, sprite: None, offset: None, entry: None }
    );
}

#[test]
fn a_failure_of_a_sprite_tells_its_place() {
    let data = container(
        &[
            record(b"good", 1, (1, 1), 32, (0, 1), &[1, 2, 3, 4]),
            record(b"miss", 1, (1, 1), 32, (0, 2), &[1, 2, 3, 4]),
            record(b"cut", 1, (9, 9), 32, (0, 0), &[]),
        ],
        &[
            entry([0, 0, 1, 1], [0, 0, 0], false),
            entry([0, 0, 1, 1], [1, 0, 0], true),
        ],
    );
    let second = (BODY_AT + 76) as u32;
    assert_eq!(
        dump_cg(&data).err(),
        Some(Failure {
            kind: DecodeError::CacheMiss,
            sprite: Some(1),
            offset: Some(second),
            entry: Some(1)
        })
    );
    // without the second sprite the third is reached, whose values are cut
    let mut data = data;
    let third = u32::from_le_bytes(data[OFFSETS_AT + 8..OFFSETS_AT + 12].try_into().unwrap());
    put_u32(&mut data, OFFSETS_AT + 4, third);
    put_u32(&mut data, DESCRIPTOR_AT + 12, 2);
    assert_eq!(
        dump_cg(&data).err(),
        Some(Failure {
            kind: DecodeError::Format,
            sprite: Some(1),
            offset: Some(third),
            entry: None
        })
    );
}
