//! The world: a dense byte grid addressed as `x + X*(z + Z*y)`, with
//! bounded in-place updates and reads. Writes whose coordinates fall
//! outside the grid are silently ignored; that protection is a design
//! invariant, not an error.

use vstd::prelude::*;

verus! {

/// The flat grid index of cell `(x, y, z)` in a world of width `xs` and
/// depth `zs`.
pub open spec fn spec_flat(xs: int, zs: int, x: int, y: int, z: int) -> int {
    x + xs * (z + zs * y)
}

pub proof fn lemma_flat_in_range(xs: int, ys: int, zs: int, x: int, y: int, z: int)
    requires
        1 <= xs,
        1 <= ys,
        1 <= zs,
        0 <= x < xs,
        0 <= y < ys,
        0 <= z < zs,
    ensures
        0 <= spec_flat(xs, zs, x, y, z) < xs * ys * zs,
{
    assert(x + xs * (z + zs * y) < xs * ys * zs) by (nonlinear_arith)
        requires
            1 <= xs,
            1 <= ys,
            1 <= zs,
            0 <= x < xs,
            0 <= y < ys,
            0 <= z < zs,
    ;
    assert(0 <= x + xs * (z + zs * y)) by (nonlinear_arith)
        requires
            1 <= xs,
            1 <= zs,
            0 <= x,
            0 <= y,
            0 <= z,
    ;
}

pub proof fn lemma_flat_above_grid(xs: int, ys: int, zs: int, x: int, y: int, z: int)
    requires
        1 <= xs,
        1 <= ys,
        1 <= zs,
        0 <= x,
        0 <= z,
        ys <= y,
    ensures
        spec_flat(xs, zs, x, y, z) >= xs * ys * zs,
{
    assert(x + xs * (z + zs * y) >= xs * ys * zs) by (nonlinear_arith)
        requires
            1 <= xs,
            1 <= ys,
            1 <= zs,
            0 <= x,
            0 <= z,
            ys <= y,
    ;
}

/// The flat index of `(x, y, z)`, when all three coordinates are inside
/// the lower bounds and the index fits the machine. The vertical bound is
/// the caller's: the grid length caps it.
pub fn index(x_size: i16, z_size: i16, x: i64, y: i64, z: i64) -> (r: Option<usize>)
    requires
        1 <= x_size,
        1 <= z_size,
        -100_000 <= x <= 100_000,
        -100_000 <= y <= 100_000,
        -100_000 <= z <= 100_000,
    ensures
        r matches Some(i) <==> 0 <= x < x_size && 0 <= z < z_size && 0 <= y && spec_flat(
            x_size as int,
            z_size as int,
            x as int,
            y as int,
            z as int,
        ) <= usize::MAX,
        r matches Some(i) ==> i == spec_flat(
            x_size as int,
            z_size as int,
            x as int,
            y as int,
            z as int,
        ),
{
    let xs = x_size as i64;
    let zs = z_size as i64;
    if !(0 <= x && x < xs && 0 <= z && z < zs && 0 <= y) {
        return None;
    }
    assert(0 <= zs * y <= 0x7fff * 100_000) by (nonlinear_arith)
        requires
            1 <= zs <= 0x7fff,
            0 <= y <= 100_000,
    ;
    let zy: i64 = zs * y;
    let col: i64 = z + zy;
    assert(0 <= xs * col <= 0x7fff * (100_000 + 0x7fff * 100_000)) by (nonlinear_arith)
        requires
            1 <= xs <= 0x7fff,
            0 <= col <= 100_000 + 0x7fff * 100_000,
    ;
    let f: i64 = x + xs * col;
    assert(f == spec_flat(xs as int, zs as int, x as int, y as int, z as int));
    assert(f >= 0);
    let fu: u64 = f as u64;
    if fu <= usize::MAX as u64 {
        Some(fu as usize)
    } else {
        None
    }
}

/// The world: dimensions, a fixed-point spawn triple, and the grid bytes.
pub struct Terrain {
    /// Dimensions `(X, Y, Z)`, each at least 1.
    pub size: (i16, i16, i16),
    /// Spawn point in 1/32-block fixed-point units.
    pub spawn_point: (i16, i16, i16),
    /// The dense grid, `X * Y * Z` bytes.
    pub inner: Vec<u8>,
}

impl Terrain {
    /// The structural invariant: positive dimensions, the grid exactly
    /// filling them, and a volume the level stream's 32-bit header can
    /// carry.
    pub open spec fn wf(self) -> bool {
        &&& 1 <= self.size.0
        &&& 1 <= self.size.1
        &&& 1 <= self.size.2
        &&& self.inner@.len() == self.size.0 as int * self.size.1 as int * self.size.2 as int
        &&& self.size.0 as int * self.size.1 as int * self.size.2 as int <= u32::MAX as int
    }

    /// The cell coordinates address a grid cell.
    pub open spec fn in_bounds(self, x: int, y: int, z: int) -> bool {
        &&& 0 <= x < self.size.0 as int
        &&& 0 <= y < self.size.1 as int
        &&& 0 <= z < self.size.2 as int
    }

    /// Assembles a world from its parts, accepting exactly the well-formed
    /// combinations.
    pub fn from_parts(size: (i16, i16, i16), spawn_point: (i16, i16, i16), grid: Vec<u8>) -> (r:
        Option<Terrain>)
        ensures
            match r {
                Some(t) => {
                    &&& t.wf()
                    &&& t.size == size
                    &&& t.spawn_point == spawn_point
                    &&& t.inner@ == grid@
                },
                None => !(1 <= size.0 && 1 <= size.1 && 1 <= size.2 && grid@.len() == size.0 as int
                    * size.1 as int * size.2 as int && size.0 as int * size.1 as int
                    * size.2 as int <= u32::MAX as int),
            },
    {
        if size.0 < 1 || size.1 < 1 || size.2 < 1 {
            return None;
        }
        let a: u64 = size.0 as u64;
        let b: u64 = size.1 as u64;
        let c: u64 = size.2 as u64;
        assert(1 <= a * b <= 0x7fff * 0x7fff) by (nonlinear_arith)
            requires
                1 <= a <= 0x7fff,
                1 <= b <= 0x7fff,
        ;
        let ab: u64 = a * b;
        assert(1 <= ab * c <= 0x7fff * 0x7fff * 0x7fff) by (nonlinear_arith)
            requires
                1 <= ab <= 0x7fff * 0x7fff,
                1 <= c <= 0x7fff,
        ;
        let volume: u64 = ab * c;
        assert(volume == size.0 as int * size.1 as int * size.2 as int);
        if volume > u32::MAX as u64 {
            return None;
        }
        if (grid.len() as u64) != volume {
            return None;
        }
        Some(Terrain { size, spawn_point, inner: grid })
    }

    /// Reads the block at `(x, y, z)`; `None` exactly when the cell is
    /// outside the grid.
    pub fn get_block(&self, x: i16, y: i16, z: i16) -> (r: Option<u8>)
        requires
            self.wf(),
        ensures
            r matches Some(t) <==> self.in_bounds(x as int, y as int, z as int),
            r matches Some(t) ==> t == self.inner@[spec_flat(
                self.size.0 as int,
                self.size.2 as int,
                x as int,
                y as int,
                z as int,
            )],
    {
        let ghost xs = self.size.0 as int;
        let ghost ys = self.size.1 as int;
        let ghost zs = self.size.2 as int;
        let n = self.inner.len();
        match index(self.size.0, self.size.2, x as i64, y as i64, z as i64) {
            Some(i) => {
                proof {
                    if y < self.size.1 {
                        lemma_flat_in_range(xs, ys, zs, x as int, y as int, z as int);
                    } else {
                        lemma_flat_above_grid(xs, ys, zs, x as int, y as int, z as int);
                    }
                }
                if i < n {
                    Some(self.inner[i])
                } else {
                    None
                }
            },
            None => {
                proof {
                    if self.in_bounds(x as int, y as int, z as int) {
                        lemma_flat_in_range(xs, ys, zs, x as int, y as int, z as int);
                    }
                }
                None
            },
        }
    }

    /// Writes block `t` at `(x, y, z)`.
    ///
    /// A no-op exactly when one of the coordinates falls outside the grid;
    /// otherwise exactly the one byte at `x + X*(z + Z*y)` becomes `t`.
    pub fn set_block(&mut self, x: i16, y: i16, z: i16, t: u8)
        requires
            old(self).wf(),
        ensures
            final(self).wf(),
            final(self).size == old(self).size,
            final(self).spawn_point == old(self).spawn_point,
            old(self).in_bounds(x as int, y as int, z as int) ==> final(self).inner@ == old(
                self,
            ).inner@.update(
                spec_flat(
                    old(self).size.0 as int,
                    old(self).size.2 as int,
                    x as int,
                    y as int,
                    z as int,
                ),
                t,
            ),
            !old(self).in_bounds(x as int, y as int, z as int) ==> final(self).inner@ == old(
                self,
            ).inner@,
    {
        let ghost xs = self.size.0 as int;
        let ghost ys = self.size.1 as int;
        let ghost zs = self.size.2 as int;
        let n = self.inner.len();
        match index(self.size.0, self.size.2, x as i64, y as i64, z as i64) {
            Some(i) => {
                proof {
                    if y < self.size.1 {
                        lemma_flat_in_range(xs, ys, zs, x as int, y as int, z as int);
                    } else {
                        lemma_flat_above_grid(xs, ys, zs, x as int, y as int, z as int);
                    }
                }
                if i < n {
                    self.inner.set(i, t);
                }
            },
            None => {
                proof {
                    if self.in_bounds(x as int, y as int, z as int) {
                        lemma_flat_in_range(xs, ys, zs, x as int, y as int, z as int);
                    }
                }
            },
        }
    }
}

} // verus!
