use cg_decode::{Align, DecodeError, Sprite};

fn sprite(align_start: u32) -> Sprite<'static> {
    Sprite {
        index: 0,
        filename: String::new(),
        type_id: 1,
        bounds_x1: 0,
        bounds_x2: 0,
        bounds_y1: 0,
        bounds_y2: 0,
        width: 0,
        height: 0,
        bpp: 32,
        align_start,
        align_len: 0,
        r: 0,
        g: 0,
        b: 0,
        a: 0,
        values: &[],
        cpal: &[],
    }
}

fn entry(fields: [u32; 4], source: [u16; 3], backref: u16) -> Vec<u8> {
    let mut out = Vec::new();
    for f in fields {
        out.extend_from_slice(&f.to_le_bytes());
    }
    for s in source {
        out.extend_from_slice(&s.to_le_bytes());
    }
    out.extend_from_slice(&backref.to_le_bytes());
    out
}

#[test]
fn an_entry_is_24_bytes_in_field_order() {
    let table = entry([1, 2, 3, 4], [5, 6, 7], 0);
    assert_eq!(table.len(), 24);
    let a = Align::new(&sprite(0), &table, 0).unwrap();
    assert_eq!(
        a,
        Align {
            x: 1,
            y: 2,
            width: 3,
            height: 4,
            source_x: 5,
            source_y: 6,
            source_img: 7,
            backref: false
        }
    );
}

#[test]
fn wide_fields_are_little_endian() {
    let table = entry([0x0403_0201, u32::MAX, 0x8000_0000, 70_000], [0xffff, 0x0100, 0x00ff], 1);
    let a = Align::new(&sprite(0), &table, 0).unwrap();
    assert_eq!(a.x, 0x0403_0201);
    assert_eq!(a.y, u32::MAX);
    assert_eq!(a.width, 0x8000_0000);
    assert_eq!(a.height, 70_000);
    assert_eq!(a.source_x, 65_535);
    assert_eq!(a.source_y, 256);
    assert_eq!(a.source_img, 255);
    assert!(a.backref);
}

#[test]
fn any_flag_but_zero_marks_a_back_reference() {
    for flag in [1u16, 2, 0x0100, 0xffff] {
        let table = entry([0; 4], [0; 3], flag);
        assert!(Align::new(&sprite(0), &table, 0).unwrap().backref);
    }
    let table = entry([0; 4], [0; 3], 0);
    assert!(!Align::new(&sprite(0), &table, 0).unwrap().backref);
}

#[test]
fn entries_are_counted_from_the_start_of_the_sprite() {
    let mut table = Vec::new();
    for i in 0..5u32 {
        table.extend_from_slice(&entry([i, 0, 0, 0], [0; 3], 0));
    }
    assert_eq!(Align::new(&sprite(0), &table, 3).unwrap().x, 3);
    assert_eq!(Align::new(&sprite(2), &table, 0).unwrap().x, 2);
    assert_eq!(Align::new(&sprite(2), &table, 2).unwrap().x, 4);
    assert_eq!(Align::new(&sprite(4), &table, 0).unwrap().x, 4);
}

#[test]
fn an_entry_beyond_the_table_is_malformed() {
    let mut table = Vec::new();
    for i in 0..5u32 {
        table.extend_from_slice(&entry([i, 0, 0, 0], [0; 3], 0));
    }
    assert_eq!(Align::new(&sprite(0), &table, 5).err(), Some(DecodeError::Format));
    assert_eq!(Align::new(&sprite(2), &table, 3).err(), Some(DecodeError::Format));
    assert_eq!(Align::new(&sprite(5), &table, 0).err(), Some(DecodeError::Format));
    assert_eq!(Align::new(&sprite(u32::MAX), &table, usize::MAX).err(), Some(DecodeError::Format));
    assert_eq!(Align::new(&sprite(0), &table, usize::MAX).err(), Some(DecodeError::Format));
    assert_eq!(Align::new(&sprite(0), &[], 0).err(), Some(DecodeError::Format));
}

#[test]
fn an_entry_cut_short_is_malformed() {
    let mut table = entry([1, 2, 3, 4], [5, 6, 7], 0);
    table.extend_from_slice(&[0; 23]);
    assert!(Align::new(&sprite(0), &table, 0).is_ok());
    assert_eq!(Align::new(&sprite(0), &table, 1).err(), Some(DecodeError::Format));
    assert_eq!(Align::new(&sprite(0), &table[..23], 0).err(), Some(DecodeError::Format));
}
