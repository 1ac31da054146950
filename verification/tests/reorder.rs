use spotifast::reorder::{
    already_visual, atom_key, char_starts, line_levels, line_span, reads_rtl_at, remapped,
    repack_glyph_vertices, sorted_order, split_atoms, visual_indices, visual_key, ShapedGlyph,
};

fn glyph(cluster: u32, chr: char) -> ShapedGlyph {
    ShapedGlyph {
        cluster,
        chr,
        zero_width: false,
        has_quad: true,
        rtl: false,
        first_vertex: 0,
    }
}

fn stand_in(cluster: u32, chr: char) -> ShapedGlyph {
    ShapedGlyph {
        zero_width: true,
        has_quad: false,
        ..glyph(cluster, chr)
    }
}

#[test]
fn a_left_to_right_run_in_buffer_order_moves_as_one() {
    let gs = [glyph(0, 'a'), glyph(1, 'b'), glyph(2, ' '), glyph(3, 'c')];
    assert_eq!(split_atoms(&gs, &[0, 1, 2, 3]), [(0, 4)]);
}

#[test]
fn a_space_shown_after_a_number_moves_on_its_own() {
    // The space is earlier in the buffer and later on screen.
    let gs = [glyph(0, 'x'), glyph(1, ' '), glyph(2, '1')];
    assert_eq!(split_atoms(&gs, &[0, 2, 1]), [(0, 2), (2, 3)]);
}

#[test]
fn a_run_shaped_right_to_left_is_never_split() {
    // ابج shaped right to left: its clusters descend.
    let gs = [glyph(4, 'ج'), glyph(2, 'ب'), glyph(0, 'ا'), glyph(6, ' ')];
    assert_eq!(split_atoms(&gs, &[2, 1, 0, 3]), [(0, 3), (3, 4)]);
}

#[test]
fn a_ligature_keeps_the_letters_it_absorbed() {
    // لا is one glyph and a zero-width stand-in carrying the alef's offset.
    let gs = [glyph(4, 'ل'), stand_in(6, 'ا'), glyph(2, 'ب'), glyph(0, 'ج')];
    assert_eq!(split_atoms(&gs, &[3, 4, 1, 0]), [(0, 4)]);
}

#[test]
fn a_single_hebrew_letter_is_a_block_of_its_own() {
    let gs = [glyph(0, 'א'), glyph(2, ' '), glyph(3, 'b')];
    assert_eq!(split_atoms(&gs, &[1, 0, 2]), [(0, 1), (1, 3)]);
}

#[test]
fn the_blocks_cover_every_glyph_once() {
    let gs = [
        glyph(0, 'x'),
        glyph(1, ' '),
        glyph(6, 'ج'),
        glyph(4, 'ب'),
        glyph(2, 'ا'),
        glyph(8, 'א'),
        glyph(10, '1'),
    ];
    let keys = [0, 5, 4, 3, 2, 1, 6];
    let atoms = split_atoms(&gs, &keys);
    assert_eq!(atoms.first().unwrap().0, 0);
    assert_eq!(atoms.last().unwrap().1, gs.len());
    for pair in atoms.windows(2) {
        assert!(pair[0].0 < pair[0].1);
        assert_eq!(pair[0].1, pair[1].0);
    }
    assert!(split_atoms(&[], &[]).is_empty());
}

#[test]
fn a_row_already_in_logical_order_with_directions_is_left_alone() {
    let mut gs = [glyph(0, 'a'), glyph(2, 'ب'), glyph(4, 'c')];
    assert!(!already_visual(&gs));
    gs[1].rtl = true;
    assert!(already_visual(&gs));
    gs.swap(0, 2);
    assert!(!already_visual(&gs));
    assert!(!already_visual(&[]));
}

#[test]
fn each_byte_offset_names_its_character() {
    // a, é, €, 😀 and b take 1, 2, 3, 4 and 1 bytes.
    assert_eq!(
        char_starts("aé€😀b"),
        [0, 1, 0, 2, 0, 0, 3, 0, 0, 0, 4, 0]
    );
    assert_eq!(char_starts(""), [0]);
}

#[test]
fn visual_positions_invert_the_display_order() {
    // unicode_bidi shows these levels as [0, 1, 2, 6, 7, 5, 4, 3].
    assert_eq!(
        visual_indices(&[0, 0, 0, 1, 1, 1, 2, 2]),
        [0, 1, 2, 7, 6, 5, 3, 4]
    );
    assert_eq!(visual_indices(&[0, 0, 0]), [0, 1, 2]);
    assert_eq!(visual_indices(&[1, 1, 1]), [2, 1, 0]);
    assert!(visual_indices(&[]).is_empty());
}

#[test]
fn a_row_spans_from_its_first_character_to_the_end_of_its_last() {
    let text = "ab€c";
    assert_eq!(line_span(&[glyph(2, '€'), glyph(0, 'a')], text), Some((0, 5)));
    assert_eq!(line_span(&[glyph(5, 'c')], text), Some((5, 6)));
    assert_eq!(line_span(&[glyph(3, '?')], text), None);
    assert_eq!(line_span(&[glyph(6, '?')], text), None);
    assert_eq!(line_span(&[], text), None);
}

#[test]
fn glyphs_find_their_place_and_direction_through_their_character() {
    // A line starting at byte 4 whose characters start at bytes 4, 5 and 7.
    let char_at_byte = [0, 1, 0, 2, 0];
    let visual = [2, 1, 0];
    assert_eq!(visual_key(7, 4, &char_at_byte, &visual), Some(0));
    assert_eq!(visual_key(4, 4, &char_at_byte, &visual), Some(2));
    assert_eq!(visual_key(3, 4, &char_at_byte, &visual), None);
    assert_eq!(visual_key(9, 4, &char_at_byte, &visual), None);
    assert_eq!(visual_key(7, 4, &char_at_byte, &[5]), Some(2));
    let levels = [0, 1, 2];
    assert!(!reads_rtl_at(4, 4, &char_at_byte, &levels));
    assert!(reads_rtl_at(5, 4, &char_at_byte, &levels));
    assert!(!reads_rtl_at(7, 4, &char_at_byte, &levels));
    assert!(!reads_rtl_at(2, 4, &char_at_byte, &levels));
}

#[test]
fn a_block_sorts_by_its_leftmost_glyph() {
    let keys = [None, Some(5), Some(2), None];
    assert_eq!(atom_key(&keys, 0, 4), Some(2));
    assert_eq!(atom_key(&keys, 1, 2), Some(5));
    assert_eq!(atom_key(&keys, 0, 1), None);
    assert_eq!(atom_key(&keys, 3, 3), None);
}

#[test]
fn sorting_keeps_equal_items_in_order() {
    assert_eq!(sorted_order(&[(3, 0), (1, 5), (1, 2), (3, 0)]), [2, 1, 0, 3]);
    assert!(sorted_order(&[]).is_empty());
}

fn quad(first_vertex: u32) -> ShapedGlyph {
    ShapedGlyph {
        first_vertex,
        ..glyph(0, 'x')
    }
}

#[test]
fn quads_are_packed_in_glyph_order() {
    let gs = [quad(6), stand_in(1, 'y'), quad(2)];
    let packed = repack_glyph_vertices(10, (2, 10), &gs).unwrap();
    assert_eq!(packed.sources, [0, 1, 6, 7, 8, 9, 2, 3, 4, 5]);
    assert_eq!(packed.remap, [0, 1, 6, 7, 8, 9, 2, 3, 4, 5]);
    assert_eq!(packed.first_vertices, [2, 6, 6]);
    assert_eq!(packed.glyph_range, (2, 10));
}

#[test]
fn vertices_after_the_glyphs_shift_and_stray_quads_are_left_out() {
    // The second quad would run past the mesh.
    let gs = [quad(2), quad(9)];
    let packed = repack_glyph_vertices(10, (2, 6), &gs).unwrap();
    assert_eq!(packed.sources, [0, 1, 2, 3, 4, 5, 6, 7, 8, 9]);
    assert_eq!(packed.remap, [0, 1, 2, 3, 4, 5, 6, 7, 8, 9]);
    assert_eq!(packed.first_vertices, [2, 6]);
    assert_eq!(packed.glyph_range, (2, 10));
    let shrunk = repack_glyph_vertices(12, (2, 10), &[quad(4)]).unwrap();
    assert_eq!(shrunk.sources, [0, 1, 4, 5, 6, 7, 10, 11]);
    assert_eq!(shrunk.remap, [0, 1, u32::MAX, u32::MAX, 2, 3, 4, 5, u32::MAX, u32::MAX, 6, 7]);
}

#[test]
fn a_glyph_range_outside_the_mesh_is_left_alone() {
    assert!(repack_glyph_vertices(10, (4, 2), &[quad(0)]).is_none());
    assert!(repack_glyph_vertices(10, (2, 11), &[quad(0)]).is_none());
}

#[test]
fn mesh_indices_follow_their_vertices() {
    let packed = repack_glyph_vertices(6, (0, 6), &[quad(2)]).unwrap();
    assert_eq!(packed.remap, [u32::MAX, u32::MAX, 0, 1, 2, 3]);
    assert_eq!(remapped(&packed.remap, 3), 1);
    assert_eq!(remapped(&packed.remap, 0), 0);
    assert_eq!(remapped(&packed.remap, 9), 9);
}

#[test]
fn left_to_right_levels_keep_their_order() {
    assert_eq!(visual_indices(&[0, 2, 2, 4, 0]), [0, 1, 2, 3, 4]);
    assert_eq!(visual_indices(&[2, 2]), [0, 1]);
}

#[test]
fn a_line_takes_its_levels_from_its_own_paragraph() {
    let text = "abc ابج\nxyz";
    // The first line stops at the line break, ten bytes in.
    assert_eq!(line_levels(text, 0, text.len()), (vec![0, 0, 0, 0, 1, 1, 1], 10));
    assert_eq!(line_levels(text, 11, 14), (vec![0, 0, 0], 14));
    // Left-to-right words in a right-to-left paragraph sit a level up.
    let rtl = "ابج abc";
    assert_eq!(line_levels(rtl, 0, rtl.len()), (vec![1, 1, 1, 1, 2, 2, 2], 10));
    // A row that is only part of its paragraph keeps the paragraph's direction.
    assert_eq!(line_levels(rtl, 7, 10), (vec![2, 2, 2], 10));
    assert_eq!(line_levels("", 0, 0), (vec![], 0));
}
