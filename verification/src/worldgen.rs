//! Procedural terrain: the deterministic fill of the grid from sampled
//! noise fields, and the decoration pass that plants trees and roses.
//!
//! The noise fields themselves are sampled by the driver (they are
//! floating-point); the samples arrive here as plain integers in
//! thousandths, and everything from the thresholds down is verified. Given
//! equal samples the generated grid bytes are equal.

use vstd::prelude::*;

use crate::blocks;
use crate::terrain::{spec_flat, Terrain};

verus! {

/// Per-column noise samples at `(x, z)`, in thousandths.
#[derive(Clone, Copy, Debug, PartialEq, Eq, Structural)]
pub struct ColumnSample {
    /// Floor of the height field: the ground height of the column.
    pub height_floor: i16,
    /// The tree field at `(x, z, height_floor)`.
    pub tree_milli: i32,
    /// The cell-noise field governing trunk height at `(x, z)`.
    pub trunk_milli: i32,
    /// The rose field at `(x, z)`.
    pub rose_milli: i32,
}

/// Per-cell noise samples at `(x, y, z)`, in thousandths.
#[derive(Clone, Copy, Debug, PartialEq, Eq, Structural)]
pub struct CellSample {
    /// The cave field; above 0.3 a subterranean cell becomes air.
    pub cave_milli: i32,
    /// The ore field, read in deep stone layers.
    pub ore_milli: i32,
}

/// What the decoration pass will plant.
#[derive(Clone, Copy, Debug, PartialEq, Eq, Structural)]
pub enum DecorationType {
    Rose,
    /// A tree with the given trunk height.
    Tree(i16),
}

/// A decoration collected during the base pass, rooted at the cell just
/// above ground.
#[derive(Clone, Copy, Debug, PartialEq, Eq, Structural)]
pub struct Decoration {
    pub x: i16,
    pub y: i16,
    pub z: i16,
    pub t: DecorationType,
}

/// The block of the base pass at height `y` of a column: air above
/// ground, air in caves, ore or stone deep down, dirt below the surface,
/// grass on top.
pub open spec fn base_block(col: ColumnSample, cell: CellSample, y: int) -> u8 {
    if y > col.height_floor as int {
        blocks::AIR
    } else if cell.cave_milli > 300 {
        blocks::AIR
    } else if col.height_floor as int - y > 5 {
        if cell.ore_milli > 900 {
            blocks::GOLD_ORE
        } else if cell.ore_milli > 800 {
            blocks::IRON_ORE
        } else if cell.ore_milli > 700 {
            blocks::COAL_ORE
        } else {
            blocks::STONE
        }
    } else if col.height_floor as int - y > 0 {
        blocks::DIRT
    } else {
        blocks::GRASS
    }
}

/// The trunk height grown from the cell-noise sample:
/// `|sample| * 7 / 1000`, capped at the widest i16.
pub open spec fn tree_height_of(trunk_milli: i32) -> i16 {
    let a = if trunk_milli < 0 {
        -(trunk_milli as int)
    } else {
        trunk_milli as int
    };
    let h = (a * 7) / 1000;
    if h > 32767 {
        32767i16
    } else {
        h as i16
    }
}

/// The decoration a column carries, if its above-ground cell lies in the
/// grid: a tree where the tree field exceeds 0.8, else a rose where the
/// rose field exceeds 0.7.
pub open spec fn column_decoration(col: ColumnSample, x: int, z: int, ys: int) -> Option<
    Decoration,
> {
    let y = col.height_floor as int + 1;
    if 0 <= y < ys {
        if col.tree_milli > 800 {
            Some(
                Decoration {
                    x: x as i16,
                    y: y as i16,
                    z: z as i16,
                    t: DecorationType::Tree(tree_height_of(col.trunk_milli)),
                },
            )
        } else if col.rose_milli > 700 {
            Some(Decoration { x: x as i16, y: y as i16, z: z as i16, t: DecorationType::Rose })
        } else {
            None
        }
    } else {
        None
    }
}

/// The vertical layer of flat cell index `c`.
pub open spec fn y_of(xs: int, zs: int, c: int) -> int {
    c / (xs * zs)
}

/// The depth coordinate of flat cell index `c`.
pub open spec fn z_of(xs: int, zs: int, c: int) -> int {
    (c % (xs * zs)) / xs
}

/// The width coordinate of flat cell index `c`.
pub open spec fn x_of(xs: int, zs: int, c: int) -> int {
    (c % (xs * zs)) % xs
}

/// Recovering the cell coordinates from a flat index.
pub proof fn lemma_flat_unflatten(xs: int, zs: int, x: int, y: int, z: int)
    requires
        1 <= xs,
        1 <= zs,
        0 <= x < xs,
        0 <= z < zs,
        0 <= y,
    ensures
        y_of(xs, zs, spec_flat(xs, zs, x, y, z)) == y,
        z_of(xs, zs, spec_flat(xs, zs, x, y, z)) == z,
        x_of(xs, zs, spec_flat(xs, zs, x, y, z)) == x,
{
    let c = spec_flat(xs, zs, x, y, z);
    let col = x + xs * z;
    assert(0 <= col < xs * zs) by (nonlinear_arith)
        requires
            col == x + xs * z,
            1 <= xs,
            1 <= zs,
            0 <= x < xs,
            0 <= z < zs,
    ;
    assert(c == y * (xs * zs) + col) by (nonlinear_arith)
        requires
            c == x + xs * (z + zs * y),
            col == x + xs * z,
    ;
    vstd::arithmetic::div_mod::lemma_fundamental_div_mod_converse(c, xs * zs, y, col);
    assert(col == z * xs + x) by (nonlinear_arith)
        requires
            col == x + xs * z,
    ;
    vstd::arithmetic::div_mod::lemma_fundamental_div_mod_converse(col, xs, z, x);
}

/// The base-pass block of flat cell `c`.
pub open spec fn cell_value(
    cols: Seq<ColumnSample>,
    cells: Seq<CellSample>,
    xs: int,
    zs: int,
    c: int,
) -> u8 {
    base_block(cols[x_of(xs, zs, c) + xs * z_of(xs, zs, c)], cells[c], y_of(xs, zs, c))
}

/// `g` is the base grid grown from the given samples.
pub open spec fn is_base_grid(
    g: Seq<u8>,
    cols: Seq<ColumnSample>,
    cells: Seq<CellSample>,
    xs: int,
    ys: int,
    zs: int,
) -> bool {
    &&& g.len() == xs * ys * zs
    &&& forall|c: int| 0 <= c < g.len() ==> g[c] == cell_value(cols, cells, xs, zs, c)
}

/// Generation determinism, the grid half: the base grid is a function of
/// the dimensions and the samples; two grids grown from equal samples are
/// equal.
pub proof fn lemma_base_grid_unique(
    g1: Seq<u8>,
    g2: Seq<u8>,
    cols: Seq<ColumnSample>,
    cells: Seq<CellSample>,
    xs: int,
    ys: int,
    zs: int,
)
    requires
        is_base_grid(g1, cols, cells, xs, ys, zs),
        is_base_grid(g2, cols, cells, xs, ys, zs),
    ensures
        g1 == g2,
{
    assert(g1 =~= g2);
}

/// The decorations collected while scanning the first `k` cells in
/// y-major, then z-major, then x-major order: each column contributes its
/// decoration when the scan passes the cell just above its ground.
pub open spec fn decorations_upto(
    cols: Seq<ColumnSample>,
    xs: int,
    ys: int,
    zs: int,
    k: int,
) -> Seq<Decoration>
    decreases k,
{
    if k <= 0 {
        Seq::empty()
    } else {
        let c = k - 1;
        let x = x_of(xs, zs, c);
        let z = z_of(xs, zs, c);
        let y = y_of(xs, zs, c);
        decorations_upto(cols, xs, ys, zs, c) + (if y == cols[x + xs * z].height_floor as int
            + 1 {
            match column_decoration(cols[x + xs * z], x, z, ys) {
                Some(d) => seq![d],
                None => Seq::empty(),
            }
        } else {
            Seq::empty()
        })
    }
}

/// The trunk height grown from the cell-noise sample.
pub fn tree_height(trunk_milli: i32) -> (r: i16)
    ensures
        r == tree_height_of(trunk_milli),
{
    let a: u64 = if trunk_milli < 0 {
        (-(trunk_milli as i64)) as u64
    } else {
        trunk_milli as u64
    };
    let h: u64 = (a * 7) / 1000;
    if h > 32767 {
        32767
    } else {
        h as i16
    }
}

/// Grows the base grid and collects the decorations, in one y-major scan.
///
/// `cols` holds one sample per column, indexed `x + X*z`; `cells` one per
/// cell, indexed `x + X*(z + Z*y)`. The grid byte of every cell is exactly
/// `base_block` of its samples, and the decoration list is exactly the
/// scan's harvest, so generation is deterministic in the samples.
pub fn generate_base(
    size: (i16, i16, i16),
    spawn_point: (i16, i16, i16),
    cols: &Vec<ColumnSample>,
    cells: &Vec<CellSample>,
) -> (r: (Terrain, Vec<Decoration>))
    requires
        1 <= size.0,
        1 <= size.1,
        1 <= size.2,
        size.0 as int * size.1 as int * size.2 as int <= u32::MAX as int,
        cols@.len() == size.0 as int * size.2 as int,
        cells@.len() == size.0 as int * size.1 as int * size.2 as int,
    ensures
        r.0.wf(),
        r.0.size == size,
        r.0.spawn_point == spawn_point,
        is_base_grid(r.0.inner@, cols@, cells@, size.0 as int, size.1 as int, size.2 as int),
        r.1@ == decorations_upto(
            cols@,
            size.0 as int,
            size.1 as int,
            size.2 as int,
            size.0 as int * size.1 as int * size.2 as int,
        ),
{
    let xs = size.0;
    let ys = size.1;
    let zs = size.2;
    let ghost xi = xs as int;
    let ghost yi = ys as int;
    let ghost zi = zs as int;
    let mut buf: Vec<u8> = Vec::new();
    let mut decs: Vec<Decoration> = Vec::new();
    let mut y: i16 = 0;
    proof {
        assert(xi * (zi * 0) == 0) by (nonlinear_arith);
    }
    while y < ys
        invariant
            0 <= y <= ys,
            1 <= xs && 1 <= ys && 1 <= zs,
            xi == xs as int && yi == ys as int && zi == zs as int,
            xi * yi * zi <= u32::MAX as int,
            cols@.len() == xi * zi,
            cells@.len() == xi * yi * zi,
            buf@.len() == xi * (zi * y as int),
            forall|c: int|
                0 <= c < buf@.len() ==> buf@[c] == cell_value(cols@, cells@, xi, zi, c),
            decs@ == decorations_upto(cols@, xi, yi, zi, buf@.len() as int),
        decreases ys - y,
    {
        let mut z: i16 = 0;
        proof {
            assert(xi * (zi * y as int) + xi * 0 == xi * (0 + zi * y as int)) by (nonlinear_arith);
        }
        while z < zs
            invariant
                0 <= z <= zs,
                0 <= y < ys,
                1 <= xs && 1 <= ys && 1 <= zs,
                xi == xs as int && yi == ys as int && zi == zs as int,
                xi * yi * zi <= u32::MAX as int,
                cols@.len() == xi * zi,
                cells@.len() == xi * yi * zi,
                buf@.len() == xi * (z as int + zi * y as int),
                forall|c: int|
                    0 <= c < buf@.len() ==> buf@[c] == cell_value(cols@, cells@, xi, zi, c),
                decs@ == decorations_upto(cols@, xi, yi, zi, buf@.len() as int),
            decreases zs - z,
        {
            let mut x: i16 = 0;
            while x < xs
                invariant
                    0 <= x <= xs,
                    0 <= z < zs,
                    0 <= y < ys,
                    1 <= xs && 1 <= ys && 1 <= zs,
                    xi == xs as int && yi == ys as int && zi == zs as int,
                    xi * yi * zi <= u32::MAX as int,
                    cols@.len() == xi * zi,
                    cells@.len() == xi * yi * zi,
                    buf@.len() == x as int + xi * (z as int + zi * y as int),
                    forall|c: int|
                        0 <= c < buf@.len() ==> buf@[c] == cell_value(cols@, cells@, xi, zi, c),
                    decs@ == decorations_upto(cols@, xi, yi, zi, buf@.len() as int),
                decreases xs - x,
            {
                let ghost c = buf@.len() as int;
                proof {
                    assert(c == spec_flat(xi, zi, x as int, y as int, z as int));
                    lemma_flat_unflatten(xi, zi, x as int, y as int, z as int);
                    crate::terrain::lemma_flat_in_range(
                        xi,
                        yi,
                        zi,
                        x as int,
                        y as int,
                        z as int,
                    );
                    assert((0 <= (x as int) + xi * (z as int)) && ((x as int) + xi * (z as int)
                        < xi * zi)) by (nonlinear_arith)
                        requires
                            1 <= xi,
                            1 <= zi,
                            0 <= x as int,
                            (x as int) < xi,
                            0 <= z as int,
                            (z as int) < zi,
                    ;
                }
                let ci: usize = buf.len();
                proof {
                    assert((xs as int) * (z as int) <= 0x7fff * 0x7fff) by (nonlinear_arith)
                        requires
                            1 <= xs as int <= 0x7fff,
                            0 <= z as int <= 0x7fff,
                    ;
                }
                let colx: usize = (x as usize) + (xs as usize) * (z as usize);
                let col = cols[colx];
                let cell = cells[ci];
                let hf: i32 = col.height_floor as i32;
                let yy: i32 = y as i32;
                let b: u8 = if yy > hf {
                    blocks::AIR
                } else if cell.cave_milli > 300 {
                    blocks::AIR
                } else if hf - yy > 5 {
                    if cell.ore_milli > 900 {
                        blocks::GOLD_ORE
                    } else if cell.ore_milli > 800 {
                        blocks::IRON_ORE
                    } else if cell.ore_milli > 700 {
                        blocks::COAL_ORE
                    } else {
                        blocks::STONE
                    }
                } else if hf - yy > 0 {
                    blocks::DIRT
                } else {
                    blocks::GRASS
                };
                buf.push(b);
                assert(buf@[c] == cell_value(cols@, cells@, xi, zi, c));
                if yy == hf + 1 {
                    if col.tree_milli > 800 {
                        decs.push(
                            Decoration {
                                x,
                                y,
                                z,
                                t: DecorationType::Tree(tree_height(col.trunk_milli)),
                            },
                        );
                    } else if col.rose_milli > 700 {
                        decs.push(Decoration { x, y, z, t: DecorationType::Rose });
                    }
                }
                assert(decs@ == decorations_upto(cols@, xi, yi, zi, c + 1));
                proof {
                    assert(x as int + 1 + xi * (z as int + zi * y as int) == c + 1);
                }
                x = x + 1;
            }
            proof {
                assert(xi + xi * (z as int + zi * y as int) == xi * (z as int + 1 + zi
                    * y as int)) by (nonlinear_arith);
            }
            z = z + 1;
        }
        proof {
            assert(xi * (zi as int + zi * y as int) == xi * (zi * (y as int + 1)))
                by (nonlinear_arith);
        }
        y = y + 1;
    }
    proof {
        assert(xi * (zi * yi) == xi * yi * zi) by (nonlinear_arith);
    }
    let t = Terrain { size, spawn_point, inner: buf };
    (t, decs)
}

/// `g` with the block at `(x, y, z)` set to `t`, when the cell lies in
/// the grid; otherwise `g` unchanged.
pub open spec fn cell_set(
    g: Seq<u8>,
    xs: int,
    ys: int,
    zs: int,
    x: int,
    y: int,
    z: int,
    t: u8,
) -> Seq<u8> {
    if 0 <= x < xs && 0 <= y < ys && 0 <= z < zs {
        g.update(spec_flat(xs, zs, x, y, z), t)
    } else {
        g
    }
}

/// The cell directly below the decoration exists and is air; such a
/// decoration is dropped.
pub open spec fn below_is_air(
    g: Seq<u8>,
    xs: int,
    ys: int,
    zs: int,
    x: int,
    y: int,
    z: int,
) -> bool {
    &&& 0 <= x < xs
    &&& 0 <= y - 1 < ys
    &&& 0 <= z < zs
    &&& g[spec_flat(xs, zs, x, y - 1, z)] == blocks::AIR
}

/// The grid after the first `steps` trunk blocks, grown upward from
/// `(x, y, z)`.
pub open spec fn trunk_applied(
    g: Seq<u8>,
    xs: int,
    ys: int,
    zs: int,
    x: int,
    y: int,
    z: int,
    steps: int,
) -> Seq<u8>
    decreases steps,
{
    if steps <= 0 {
        g
    } else {
        cell_set(
            trunk_applied(g, xs, ys, zs, x, y, z, steps - 1),
            xs,
            ys,
            zs,
            x,
            y + (steps - 1),
            z,
            blocks::LOG,
        )
    }
}

/// One cell of the 5x4x5 canopy around the tree top. `step` encodes
/// `(dy, dx, dz)` with `dy` in -2..=1 outermost. Leaves fill air cells;
/// at the outer corners below the top, and at the inner corners of the
/// top layer, only where the leaf sample exceeds 0.3.
pub open spec fn canopy_step(
    g: Seq<u8>,
    xs: int,
    ys: int,
    zs: int,
    x: int,
    ytop: int,
    z: int,
    leaf: i32,
    step: int,
) -> Seq<u8> {
    let dy = step / 25 - 2;
    let rem = step % 25;
    let dx = rem / 5 - 2;
    let dz = rem % 5 - 2;
    let cx = x + dx;
    let cy = ytop + dy;
    let cz = z + dz;
    if 0 <= cx < xs && 0 <= cy < ys && 0 <= cz < zs {
        let i = spec_flat(xs, zs, cx, cy, cz);
        if dy < 0 {
            if (dx == 2 || dx == -2) && (dz == 2 || dz == -2) {
                if leaf > 300 && g[i] == blocks::AIR {
                    g.update(i, blocks::LEAVES)
                } else {
                    g
                }
            } else if g[i] == blocks::AIR {
                g.update(i, blocks::LEAVES)
            } else {
                g
            }
        } else if -2 < dx < 2 && -2 < dz < 2 {
            if (dx == 1 || dx == -1) && (dz == 1 || dz == -1) {
                if dy == 0 && leaf > 300 && g[i] == blocks::AIR {
                    g.update(i, blocks::LEAVES)
                } else {
                    g
                }
            } else if g[i] == blocks::AIR {
                g.update(i, blocks::LEAVES)
            } else {
                g
            }
        } else {
            g
        }
    } else {
        g
    }
}

/// The grid after the first `step` canopy cells, each fed its own leaf
/// sample.
pub open spec fn canopy_applied(
    g: Seq<u8>,
    xs: int,
    ys: int,
    zs: int,
    x: int,
    ytop: int,
    z: int,
    leaves: Seq<i32>,
    step: int,
) -> Seq<u8>
    decreases step,
{
    if step <= 0 {
        g
    } else {
        canopy_step(
            canopy_applied(g, xs, ys, zs, x, ytop, z, leaves, step - 1),
            xs,
            ys,
            zs,
            x,
            ytop,
            z,
            leaves[step - 1],
            step - 1,
        )
    }
}

/// The grid after one decoration: nothing over an air cell; a rose
/// overwrites its own cell; a tree writes its trunk, then its canopy.
pub open spec fn decoration_applied(
    g: Seq<u8>,
    xs: int,
    ys: int,
    zs: int,
    d: Decoration,
    leaves: Seq<i32>,
) -> Seq<u8> {
    if below_is_air(g, xs, ys, zs, d.x as int, d.y as int, d.z as int) {
        g
    } else {
        match d.t {
            DecorationType::Rose => cell_set(
                g,
                xs,
                ys,
                zs,
                d.x as int,
                d.y as int,
                d.z as int,
                blocks::ROSE,
            ),
            DecorationType::Tree(th) => {
                let steps = if th < 0 {
                    0
                } else {
                    th as int + 1
                };
                let after_trunk = trunk_applied(
                    g,
                    xs,
                    ys,
                    zs,
                    d.x as int,
                    d.y as int,
                    d.z as int,
                    steps,
                );
                canopy_applied(
                    after_trunk,
                    xs,
                    ys,
                    zs,
                    d.x as int,
                    d.y as int + th as int,
                    d.z as int,
                    leaves,
                    100,
                )
            },
        }
    }
}

/// Reads the block at signed coordinates; `None` exactly outside the
/// grid.
fn peek(t: &Terrain, x: i64, y: i64, z: i64) -> (r: Option<u8>)
    requires
        t.wf(),
        -100_000 <= x <= 100_000,
        -100_000 <= y <= 100_000,
        -100_000 <= z <= 100_000,
    ensures
        ({
            let xs = t.size.0 as int;
            let ys = t.size.1 as int;
            let zs = t.size.2 as int;
            &&& (r matches Some(b) <==> (0 <= x < xs && 0 <= y < ys && 0 <= z < zs))
            &&& (r matches Some(b) ==> b == t.inner@[spec_flat(xs, zs, x as int, y as int, z as int)])
        }),
{
    let ghost xs = t.size.0 as int;
    let ghost ys = t.size.1 as int;
    let ghost zs = t.size.2 as int;
    let n = t.inner.len();
    match crate::terrain::index(t.size.0, t.size.2, x, y, z) {
        Some(i) => {
            proof {
                if y < t.size.1 as i64 {
                    crate::terrain::lemma_flat_in_range(xs, ys, zs, x as int, y as int, z as int);
                } else {
                    crate::terrain::lemma_flat_above_grid(xs, ys, zs, x as int, y as int, z as int);
                }
            }
            if i < n {
                Some(t.inner[i])
            } else {
                None
            }
        },
        None => {
            proof {
                if 0 <= x < xs && 0 <= y < ys && 0 <= z < zs {
                    crate::terrain::lemma_flat_in_range(xs, ys, zs, x as int, y as int, z as int);
                }
            }
            None
        },
    }
}

/// Writes block `b` at signed coordinates; a no-op outside the grid.
fn poke(t: &mut Terrain, x: i64, y: i64, z: i64, b: u8)
    requires
        old(t).wf(),
        -100_000 <= x <= 100_000,
        -100_000 <= y <= 100_000,
        -100_000 <= z <= 100_000,
    ensures
        final(t).wf(),
        final(t).size == old(t).size,
        final(t).spawn_point == old(t).spawn_point,
        final(t).inner@ == cell_set(
            old(t).inner@,
            old(t).size.0 as int,
            old(t).size.1 as int,
            old(t).size.2 as int,
            x as int,
            y as int,
            z as int,
            b,
        ),
{
    let ghost xs = t.size.0 as int;
    let ghost ys = t.size.1 as int;
    let ghost zs = t.size.2 as int;
    let n = t.inner.len();
    match crate::terrain::index(t.size.0, t.size.2, x, y, z) {
        Some(i) => {
            proof {
                if y < t.size.1 as i64 {
                    crate::terrain::lemma_flat_in_range(xs, ys, zs, x as int, y as int, z as int);
                } else {
                    crate::terrain::lemma_flat_above_grid(xs, ys, zs, x as int, y as int, z as int);
                }
            }
            if i < n {
                t.inner.set(i, b);
            }
        },
        None => {
            proof {
                if 0 <= x < xs && 0 <= y < ys && 0 <= z < zs {
                    crate::terrain::lemma_flat_in_range(xs, ys, zs, x as int, y as int, z as int);
                }
            }
        },
    }
}

/// Applies one collected decoration to the world: dropped over air;
/// otherwise a rose overwrites its cell, a tree writes its trunk and then
/// the canopy, each canopy cell governed by its leaf sample in
/// thousandths.
pub fn apply_decoration(t: &mut Terrain, d: &Decoration, leaves_milli: &Vec<i32>)
    requires
        old(t).wf(),
        leaves_milli@.len() == 100,
    ensures
        final(t).wf(),
        final(t).size == old(t).size,
        final(t).spawn_point == old(t).spawn_point,
        final(t).inner@ == decoration_applied(
            old(t).inner@,
            old(t).size.0 as int,
            old(t).size.1 as int,
            old(t).size.2 as int,
            *d,
            leaves_milli@,
        ),
{
    let ghost xs = t.size.0 as int;
    let ghost ys = t.size.1 as int;
    let ghost zs = t.size.2 as int;
    let ghost g0 = t.inner@;
    match peek(t, d.x as i64, d.y as i64 - 1, d.z as i64) {
        Some(b) => {
            if b == blocks::AIR {
                return ;
            }
        },
        None => {},
    }
    match d.t {
        DecorationType::Rose => {
            poke(t, d.x as i64, d.y as i64, d.z as i64, blocks::ROSE);
        },
        DecorationType::Tree(th) => {
            let steps: i32 = if th < 0 {
                0
            } else {
                th as i32 + 1
            };
            let mut dy: i32 = 0;
            while dy < steps
                invariant
                    0 <= dy <= steps,
                    steps == (if th < 0 {
                        0int
                    } else {
                        th as int + 1
                    }),
                    -0x8000 <= d.x as int <= 0x7fff,
                    -0x8000 <= d.y as int <= 0x7fff,
                    -0x8000 <= d.z as int <= 0x7fff,
                    t.wf(),
                    t.size == old(t).size,
                    t.spawn_point == old(t).spawn_point,
                    xs == t.size.0 as int && ys == t.size.1 as int && zs == t.size.2 as int,
                    t.inner@ == trunk_applied(
                        g0,
                        xs,
                        ys,
                        zs,
                        d.x as int,
                        d.y as int,
                        d.z as int,
                        dy as int,
                    ),
                decreases steps - dy,
            {
                poke(t, d.x as i64, d.y as i64 + dy as i64, d.z as i64, blocks::LOG);
                dy = dy + 1;
            }
            let ghost g1 = t.inner@;
            let ytop: i64 = d.y as i64 + th as i64;
            let mut step: usize = 0;
            while step < 100
                invariant
                    0 <= step <= 100,
                    leaves_milli@.len() == 100,
                    ytop == d.y as int + th as int,
                    -0x8000 <= d.x as int <= 0x7fff,
                    -0x8000 <= d.z as int <= 0x7fff,
                    -0x10000 <= ytop <= 0x10000,
                    t.wf(),
                    t.size == old(t).size,
                    t.spawn_point == old(t).spawn_point,
                    xs == t.size.0 as int && ys == t.size.1 as int && zs == t.size.2 as int,
                    t.inner@ == canopy_applied(
                        g1,
                        xs,
                        ys,
                        zs,
                        d.x as int,
                        ytop as int,
                        d.z as int,
                        leaves_milli@,
                        step as int,
                    ),
                decreases 100 - step,
            {
                let dy2: i64 = (step / 25) as i64 - 2;
                let rem: usize = step % 25;
                let dx: i64 = (rem / 5) as i64 - 2;
                let dz: i64 = (rem % 5) as i64 - 2;
                let leaf: i32 = leaves_milli[step];
                let cx: i64 = d.x as i64 + dx;
                let cy: i64 = ytop + dy2;
                let cz: i64 = d.z as i64 + dz;
                let ghost gpre = t.inner@;
                match peek(t, cx, cy, cz) {
                    Some(b) => {
                        let place: bool = if dy2 < 0 {
                            if (dx == 2 || dx == -2) && (dz == 2 || dz == -2) {
                                leaf > 300 && b == blocks::AIR
                            } else {
                                b == blocks::AIR
                            }
                        } else if -2 < dx && dx < 2 && -2 < dz && dz < 2 {
                            if (dx == 1 || dx == -1) && (dz == 1 || dz == -1) {
                                dy2 == 0 && leaf > 300 && b == blocks::AIR
                            } else {
                                b == blocks::AIR
                            }
                        } else {
                            false
                        };
                        if place {
                            poke(t, cx, cy, cz, blocks::LEAVES);
                        }
                    },
                    None => {},
                }
                proof {
                    assert(t.inner@ == canopy_step(
                        gpre,
                        xs,
                        ys,
                        zs,
                        d.x as int,
                        ytop as int,
                        d.z as int,
                        leaf,
                        step as int,
                    ));
                }
                step = step + 1;
            }
        },
    }
}

} // verus!
