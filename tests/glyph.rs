use sandfall::glyph::{encode_block, glyph_of, GlyphError, BRAILLE_BASE};
use sandfall::grid::ParticleGrid;
use sandfall::world::GameWorld;

fn block_with(cells: &[(usize, usize)]) -> ParticleGrid {
    let mut g = ParticleGrid::new(2, 4);
    for &(x, y) in cells {
        g.set(y * 2 + x, true);
    }
    g
}

#[test]
fn empty_block_is_the_base_glyph() {
    let g = block_with(&[]);
    let m = encode_block(&g, 0, 0);
    assert_eq!(m, 0);
    assert_eq!(GameWorld::convert_to_char(m), Ok('\u{2800}'));
}

#[test]
fn full_block_is_base_plus_255() {
    let all: Vec<(usize, usize)> = (0..4).flat_map(|y| (0..2).map(move |x| (x, y))).collect();
    let g = block_with(&all);
    let m = encode_block(&g, 0, 0);
    assert_eq!(m, 255);
    assert_eq!(GameWorld::convert_to_char(m), Ok('\u{28FF}'));
}

#[test]
fn bottom_right_dot_weighs_128() {
    let g = block_with(&[(1, 3)]);
    let m = encode_block(&g, 0, 0);
    assert_eq!(m, 128);
    assert_eq!(GameWorld::convert_to_char(m).map(|c| c as u32), Ok(BRAILLE_BASE + 128));
}

#[test]
fn each_dot_has_its_weight() {
    let table = [
        ((0, 0), 1u8),
        ((0, 1), 2),
        ((0, 2), 4),
        ((1, 0), 8),
        ((1, 1), 16),
        ((1, 2), 32),
        ((0, 3), 64),
        ((1, 3), 128),
    ];
    for &(cell, weight) in table.iter() {
        let g = block_with(&[cell]);
        assert_eq!(encode_block(&g, 0, 0), weight);
    }
    let g = block_with(&[(0, 0), (1, 1), (0, 3)]);
    assert_eq!(encode_block(&g, 0, 0), 1 + 16 + 64);
}

#[test]
fn block_offset_follows_screen_position() {
    let mut g = ParticleGrid::new(4, 8);
    g.set(5 * 4 + 3, true);
    assert_eq!(encode_block(&g, 1, 1), 16);
    assert_eq!(encode_block(&g, 0, 1), 0);
    assert_eq!(encode_block(&g, 1, 0), 0);
}

#[test]
fn glyph_of_rejects_surrogates_and_overflow() {
    assert_eq!(glyph_of(0xD7FF, 0), Ok('\u{D7FF}'));
    assert_eq!(glyph_of(0xD7FF, 1), Err(GlyphError::InvalidCodepoint { base: 0xD7FF, mask: 1 }));
    assert_eq!(glyph_of(0x10FFFF, 1), Err(GlyphError::InvalidCodepoint { base: 0x10FFFF, mask: 1 }));
    assert_eq!(glyph_of(u32::MAX, 1), Err(GlyphError::InvalidCodepoint { base: u32::MAX, mask: 1 }));
    assert_eq!(glyph_of(0x41, 1), Ok('B'));
}

#[test]
fn frame_lists_screen_cells_in_row_major_order() {
    let mut g = ParticleGrid::new(4, 8);
    g.set(0, true);
    g.set(7 * 4 + 3, true);
    let w = GameWorld::from_grid(g);
    let f = w.encode_frame().unwrap();
    assert_eq!(
        f,
        vec![
            (0, 0, '\u{2801}'),
            (1, 0, '\u{2800}'),
            (0, 1, '\u{2800}'),
            (1, 1, '\u{2880}'),
        ]
    );
}

#[test]
fn frame_skips_partial_blocks() {
    let mut g = ParticleGrid::new(3, 5);
    g.set(14, true);
    let w = GameWorld::from_grid(g);
    let f = w.encode_frame().unwrap();
    assert_eq!(f, vec![(0, 0, '\u{2800}')]);
    let tiny = GameWorld::from_grid(ParticleGrid::new(1, 1));
    assert!(tiny.encode_frame().unwrap().is_empty());
}

#[test]
fn encoding_twice_gives_the_same_frame() {
    let mut w = GameWorld::new(3, 2);
    w.inject(1);
    w.inject(4);
    w.update();
    let a = w.encode_frame().unwrap();
    let b = w.encode_frame().unwrap();
    assert_eq!(a, b);
    assert_eq!(a.len(), 6);
}
