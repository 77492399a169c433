//! Autotiling: all sixteen neighbor combinations resolve to exactly one
//! variant identifier, and wall adjacency is read from the grid correctly.

use beeline::world::{neighbor_mask, wall_variant, GameWorld};

fn bits(m: u8) -> [bool; 4] {
    [m & 8 != 0, m & 4 != 0, m & 2 != 0, m & 1 != 0]
}

#[test]
fn every_mask_has_exactly_one_variant() {
    let mut seen: Vec<&'static str> = Vec::new();
    for m in 0u8..16 {
        let n = bits(m);
        assert_eq!(neighbor_mask(n), m);
        let name = wall_variant(n);
        assert_eq!(name.len(), 4);
        // Each letter spells its direction's flag.
        for (i, c) in name.bytes().enumerate() {
            assert_eq!(c, if n[i] { b'w' } else { b'e' });
        }
        // No two combinations share a variant.
        assert!(!seen.contains(&name));
        seen.push(name);
    }
    assert_eq!(seen.len(), 16);
}

#[test]
fn variant_table_matches_the_art_names() {
    assert_eq!(wall_variant([true, false, true, false]), "wewe");
    assert_eq!(wall_variant([false, false, false, false]), "eeee");
    assert_eq!(wall_variant([true, true, true, true]), "wwww");
    assert_eq!(wall_variant([false, true, true, false]), "ewwe");
}

#[test]
fn wall_neighbors_read_the_grid() {
    let doc: Vec<Vec<u8>> = vec![b".\t#\t.".to_vec(), b"#\t#\t#".to_vec(), b".\t#\t.".to_vec()];
    let w = GameWorld::load_level(&doc, 0).unwrap();
    // The centre sees walls on all four sides.
    assert_eq!(w.get_wall_neighbors(1, 1), [true, true, true, true]);
    // The top wall sees only the centre below it.
    assert_eq!(w.get_wall_neighbors(1, 0), [false, false, true, false]);
    // The left wall sees only the centre to its east.
    assert_eq!(w.get_wall_neighbors(0, 1), [false, true, false, false]);
}

#[test]
fn out_of_bounds_neighbors_are_absent() {
    let doc: Vec<Vec<u8>> = vec![b"#".to_vec()];
    let w = GameWorld::load_level(&doc, 0).unwrap();
    assert_eq!(w.get_wall_neighbors(0, 0), [false, false, false, false]);
}
