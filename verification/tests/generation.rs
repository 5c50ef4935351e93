//! The terrain generator on crafted noise samples: layer rules, ore
//! stratification, decorations, and determinism.

use classicl_server::blocks;
use classicl_server::worldgen::{
    apply_decoration, generate_base, tree_height, CellSample, ColumnSample, Decoration,
    DecorationType,
};

fn flat(xs: i16, zs: i16, x: i16, y: i16, z: i16) -> usize {
    (x as usize) + (xs as usize) * ((z as usize) + (zs as usize) * (y as usize))
}

fn quiet_column(height_floor: i16) -> ColumnSample {
    ColumnSample {
        height_floor,
        tree_milli: 0,
        trunk_milli: 0,
        rose_milli: 0,
    }
}

fn quiet_cell() -> CellSample {
    CellSample {
        cave_milli: 0,
        ore_milli: 0,
    }
}

#[test]
fn layers_follow_the_height_field() {
    // One column, twelve layers, ground at 10.
    let cols = vec![quiet_column(10)];
    let mut cells = vec![quiet_cell(); 12];
    cells[0].ore_milli = 950;
    cells[1].ore_milli = 850;
    cells[2].ore_milli = 750;
    cells[3].ore_milli = 700;
    let (t, decs) = generate_base((1, 12, 1), (0, 0, 0), &cols, &cells);
    assert_eq!(t.inner.len(), 12);
    assert_eq!(t.inner[0], blocks::GOLD_ORE);
    assert_eq!(t.inner[1], blocks::IRON_ORE);
    assert_eq!(t.inner[2], blocks::COAL_ORE);
    assert_eq!(t.inner[3], blocks::STONE);
    assert_eq!(t.inner[4], blocks::STONE);
    for y in 5..10 {
        assert_eq!(t.inner[y], blocks::DIRT, "layer {}", y);
    }
    assert_eq!(t.inner[10], blocks::GRASS);
    assert_eq!(t.inner[11], blocks::AIR);
    assert!(decs.is_empty());
}

#[test]
fn caves_carve_air() {
    let cols = vec![quiet_column(10)];
    let mut cells = vec![quiet_cell(); 12];
    cells[3].cave_milli = 400;
    let (t, _) = generate_base((1, 12, 1), (0, 0, 0), &cols, &cells);
    assert_eq!(t.inner[3], blocks::AIR);
    assert_eq!(t.inner[2], blocks::STONE);
}

#[test]
fn decorations_are_collected_in_scan_order() {
    let mut cols = vec![quiet_column(0); 9];
    cols[0].tree_milli = 900; // (x=0, z=0): a tree
    cols[0].trunk_milli = 500; // |0.5| * 7 = 3.5, trunk height 3
    cols[1].rose_milli = 800; // (x=1, z=0): a rose
    cols[1].tree_milli = 801; // tree wins over rose
    cols[3].rose_milli = 701; // (x=0, z=1): a rose
    let cells = vec![quiet_cell(); 27];
    let (t, decs) = generate_base((3, 3, 3), (0, 0, 0), &cols, &cells);
    assert_eq!(t.inner[flat(3, 3, 0, 0, 0)], blocks::GRASS);
    assert_eq!(t.inner[flat(3, 3, 0, 1, 0)], blocks::AIR);
    assert_eq!(decs.len(), 3);
    assert_eq!(
        decs[0],
        Decoration {
            x: 0,
            y: 1,
            z: 0,
            t: DecorationType::Tree(3)
        }
    );
    assert_eq!(
        decs[1],
        Decoration {
            x: 1,
            y: 1,
            z: 0,
            t: DecorationType::Tree(0)
        }
    );
    assert_eq!(
        decs[2],
        Decoration {
            x: 0,
            y: 1,
            z: 1,
            t: DecorationType::Rose
        }
    );
}

#[test]
fn trunk_height_formula() {
    assert_eq!(tree_height(0), 0);
    assert_eq!(tree_height(500), 3);
    assert_eq!(tree_height(-500), 3);
    assert_eq!(tree_height(1000), 7);
    assert_eq!(tree_height(143), 1);
}

#[test]
fn rose_overwrites_unless_floating() {
    let cols = vec![quiet_column(0); 9];
    let cells = vec![quiet_cell(); 27];
    let (mut t, _) = generate_base((3, 3, 3), (0, 0, 0), &cols, &cells);
    let rose = Decoration {
        x: 1,
        y: 1,
        z: 1,
        t: DecorationType::Rose,
    };
    apply_decoration(&mut t, &rose, &vec![0; 100]);
    assert_eq!(t.inner[flat(3, 3, 1, 1, 1)], blocks::ROSE);

    // Carve the ground below another cell: the rose there is dropped.
    let idx_below = flat(3, 3, 0, 0, 0);
    t.inner[idx_below] = blocks::AIR;
    let floating = Decoration {
        x: 0,
        y: 1,
        z: 0,
        t: DecorationType::Rose,
    };
    apply_decoration(&mut t, &floating, &vec![0; 100]);
    assert_eq!(t.inner[flat(3, 3, 0, 1, 0)], blocks::AIR);
}

#[test]
fn tree_grows_trunk_and_canopy() {
    // A 7x10x7 world with ground at 0 and a tree of trunk height 2 in the
    // middle.
    let cols = vec![quiet_column(0); 49];
    let cells = vec![quiet_cell(); 490];
    let (mut t, _) = generate_base((7, 10, 7), (0, 0, 0), &cols, &cells);
    let tree = Decoration {
        x: 3,
        y: 1,
        z: 3,
        t: DecorationType::Tree(2),
    };
    apply_decoration(&mut t, &tree, &vec![1000; 100]);
    // Trunk: y = 1..=3.
    assert_eq!(t.inner[flat(7, 7, 3, 1, 3)], blocks::LOG);
    assert_eq!(t.inner[flat(7, 7, 3, 2, 3)], blocks::LOG);
    assert_eq!(t.inner[flat(7, 7, 3, 3, 3)], blocks::LOG);
    assert_eq!(t.inner[flat(7, 7, 3, 4, 3)], blocks::LEAVES);
    // Canopy fills air around the top (y = 3 is the tree top layer dy=0).
    assert_eq!(t.inner[flat(7, 7, 2, 2, 3)], blocks::LEAVES);
    assert_eq!(t.inner[flat(7, 7, 5, 2, 5)], blocks::LEAVES); // corner, sample high
    assert_eq!(t.inner[flat(7, 7, 4, 3, 3)], blocks::LEAVES);
    // Outside the 5x4x5 neighborhood nothing changes.
    assert_eq!(t.inner[flat(7, 7, 0, 2, 0)], blocks::AIR);
    // The top layer (dy=1) keeps its corners clear.
    assert_eq!(t.inner[flat(7, 7, 4, 4, 4)], blocks::AIR);
}

#[test]
fn corner_leaves_follow_the_leaf_samples() {
    let cols = vec![quiet_column(0); 49];
    let cells = vec![quiet_cell(); 490];
    let (mut low, _) = generate_base((7, 10, 7), (0, 0, 0), &cols, &cells);
    let (mut high, _) = generate_base((7, 10, 7), (0, 0, 0), &cols, &cells);
    let tree = Decoration {
        x: 3,
        y: 1,
        z: 3,
        t: DecorationType::Tree(2),
    };
    apply_decoration(&mut low, &tree, &vec![0; 100]);
    apply_decoration(&mut high, &tree, &vec![1000; 100]);
    // An outer corner below the top: leaves only with a high sample.
    assert_eq!(low.inner[flat(7, 7, 5, 2, 5)], blocks::AIR);
    assert_eq!(high.inner[flat(7, 7, 5, 2, 5)], blocks::LEAVES);
    // The inner cross is filled either way.
    assert_eq!(low.inner[flat(7, 7, 2, 2, 3)], blocks::LEAVES);
}

#[test]
fn generation_is_deterministic_in_the_samples() {
    let mut cols = Vec::new();
    for i in 0..16 {
        cols.push(ColumnSample {
            height_floor: (i % 4) as i16,
            tree_milli: 900 - 50 * (i as i32),
            trunk_milli: 100 * (i as i32),
            rose_milli: 650 + 10 * (i as i32),
        });
    }
    let mut cells = Vec::new();
    for i in 0..128 {
        cells.push(CellSample {
            cave_milli: (i * 37 % 700) as i32,
            ore_milli: (i * 91 % 1000) as i32,
        });
    }
    let (t1, d1) = generate_base((4, 8, 4), (0, 0, 0), &cols, &cells);
    let (t2, d2) = generate_base((4, 8, 4), (0, 0, 0), &cols, &cells);
    assert_eq!(t1.inner, t2.inner);
    assert_eq!(d1, d2);
}
