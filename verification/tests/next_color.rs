use cg_decode::{palette_color, DecodeError, Rgba, Sprite};

fn sprite<'a>(type_id: i32, bpp: u32, values: &'a [u8], cpal: &'a [u8]) -> Sprite<'a> {
    Sprite {
        index: 0,
        filename: String::from("s"),
        type_id,
        bounds_x1: 0,
        bounds_x2: 0,
        bounds_y1: 0,
        bounds_y2: 0,
        width: 2,
        height: 1,
        bpp,
        align_start: 0,
        align_len: 0,
        r: 200,
        g: 100,
        b: 50,
        a: 0,
        values,
        cpal,
    }
}

fn palette() -> Vec<u8> {
    let mut pal = Vec::new();
    for i in 0..256u32 {
        pal.extend_from_slice(&[i as u8, (i * 2) as u8, (255 - i) as u8, 7]);
    }
    pal
}

#[test]
fn bgra_quads_are_reordered_to_rgba() {
    let s = sprite(1, 32, &[10, 20, 30, 255, 40, 50, 60, 128], &[]);
    let mut j = 0;
    assert_eq!(s.next_color(&[], &mut j), Ok(Rgba { r: 30, g: 20, b: 10, a: 255 }));
    assert_eq!(j, 4);
    assert_eq!(s.next_color(&[], &mut j), Ok(Rgba { r: 60, g: 50, b: 40, a: 128 }));
    assert_eq!(j, 8);
    assert_eq!(s.next_color(&[], &mut j), Err(DecodeError::Format));
    assert_eq!(j, 8);
}

#[test]
fn a_quad_cut_short_is_malformed() {
    let s = sprite(1, 32, &[10, 20, 30, 255, 40, 50, 60], &[]);
    let mut j = 4;
    assert_eq!(s.next_color(&[], &mut j), Err(DecodeError::Format));
    assert_eq!(j, 4);
}

#[test]
fn solid_color_takes_its_alpha_from_the_stream() {
    let s = sprite(3, 32, &[77], &[]);
    let mut j = 0;
    assert_eq!(s.next_color(&[], &mut j), Ok(Rgba { r: 200, g: 100, b: 50, a: 77 }));
    assert_eq!(j, 1);
}

#[test]
fn eight_bits_per_pixel_go_through_the_global_palette() {
    let mut pal = palette();
    pal[12..16].copy_from_slice(&[9, 8, 7, 6]);
    for type_id in [-1, 0, 1, 2, 3, 4, 5] {
        let s = sprite(type_id, 8, &[3], &[]);
        let mut j = 0;
        assert_eq!(s.next_color(&pal, &mut j), Ok(Rgba { r: 9, g: 8, b: 7, a: 255 }));
        assert_eq!(j, 1);
    }
}

#[test]
fn local_palette_sprites_go_through_their_own_palette() {
    let cpal = palette();
    let global = vec![0u8; 1024];
    for type_id in [2, 4] {
        let s = sprite(type_id, 16, &[5, 255], &cpal);
        let mut j = 0;
        assert_eq!(s.next_color(&global, &mut j), Ok(Rgba { r: 5, g: 10, b: 250, a: 255 }));
        assert_eq!(s.next_color(&global, &mut j), Ok(Rgba { r: 255, g: 254, b: 0, a: 255 }));
        assert_eq!(j, 2);
    }
}

#[test]
fn other_types_are_unsupported_unless_eight_bits_per_pixel() {
    for type_id in [0, 5, -1, i32::MAX, i32::MIN] {
        let s = sprite(type_id, 32, &[1, 2, 3, 4], &[]);
        let mut j = 0;
        assert_eq!(s.next_color(&palette(), &mut j), Err(DecodeError::UnsupportedVariant));
        assert_eq!(j, 0);
    }
    let s = sprite(9, 32, &[], &[]);
    let mut j = 3;
    assert_eq!(s.next_color(&[], &mut j), Err(DecodeError::UnsupportedVariant));
}

#[test]
fn an_exhausted_stream_is_malformed() {
    for (type_id, bpp) in [(0, 8), (2, 16), (3, 16), (4, 16)] {
        let cpal = palette();
        let s = sprite(type_id, bpp, &[1], &cpal);
        let mut j = 1;
        assert_eq!(s.next_color(&palette(), &mut j), Err(DecodeError::Format));
        assert_eq!(j, 1);
        let mut j = usize::MAX;
        assert_eq!(s.next_color(&palette(), &mut j), Err(DecodeError::Format));
    }
}

#[test]
fn a_palette_that_ends_before_the_entry_is_malformed() {
    let s = sprite(0, 8, &[2], &[]);
    let mut j = 0;
    assert_eq!(s.next_color(&[0; 10], &mut j), Err(DecodeError::Format));
    assert_eq!(j, 0);
    assert_eq!(s.next_color(&[1, 2, 3, 4, 5, 6, 7, 8, 9, 10, 11], &mut j), Ok(Rgba { r: 9, g: 10, b: 11, a: 255 }));
    let s = sprite(2, 16, &[1], &[0; 6]);
    let mut j = 0;
    assert_eq!(s.next_color(&palette(), &mut j), Err(DecodeError::Format));
}

#[test]
fn palette_color_forces_full_opacity() {
    let pal = [1, 2, 3, 0, 4, 5, 6, 99];
    assert_eq!(palette_color(&pal, 0), Some(Rgba { r: 1, g: 2, b: 3, a: 255 }));
    assert_eq!(palette_color(&pal, 1), Some(Rgba { r: 4, g: 5, b: 6, a: 255 }));
    assert_eq!(palette_color(&pal, 2), None);
    assert_eq!(palette_color(&pal[..7], 1), Some(Rgba { r: 4, g: 5, b: 6, a: 255 }));
    assert_eq!(palette_color(&pal[..6], 1), None);
    assert_eq!(palette_color(&[], 0), None);
    assert_eq!(palette_color(&[], 255), None);
}
