//! Availability queries on one decoded subtree, and the walk that answers
//! them for any tile of the global tree, one subtree layer at a time.

use vstd::prelude::*;

use crate::bits::bytes_for_bits;
use crate::error::TilingError;
use crate::morton::{branching, encode, level_offset, level_offset_of, morton_of, power};
use crate::subtree::{
    availability_bit,
    child_bit_count,
    lemma_level_offset_monotone,
    read_availability,
    readable,
    tile_bit_count,
    DecodedSubtree,
};
use crate::tiling::{ImplicitTiling, SubdivisionScheme, TileCoordinate, z_of};

verus! {

/// `(x, y, z)` is a cell of the grid `2^level` cells wide of the scheme:
/// `z` is present exactly for an octree.
pub open spec fn local_valid(scheme: SubdivisionScheme, level: nat, x: u32, y: u32, z: Option<u32>) -> bool {
    &&& (z is Some <==> scheme == SubdivisionScheme::Octree)
    &&& x < power(2, level)
    &&& y < power(2, level)
    &&& (z matches Some(zz) ==> zz < power(2, level))
}

/// The third coordinate of a local cell, zero when absent.
pub open spec fn z_or_zero(z: Option<u32>) -> nat {
    match z {
        Some(v) => v as nat,
        None => 0,
    }
}

/// Position in the tile bitstream of the tile at local level `level`.
pub open spec fn tile_index(scheme: SubdivisionScheme, level: nat, x: u32, y: u32, z: Option<u32>) -> nat {
    level_offset_of(branching(scheme), level) + morton_of(scheme, x as nat, y as nat, z_or_zero(z))
}

/// `2^d` for `d < 64`.
pub fn pow2(d: u32) -> (r: u64)
    requires
        d < 64,
    ensures
        r as nat == power(2, d as nat),
{
    let mut p: u64 = 1;
    let mut i: u32 = 0;
    while i < d
        invariant
            i <= d < 64,
            p as nat == power(2, i as nat),
        decreases d - i,
    {
        proof {
            crate::morton::lemma_power_increases(2, (i + 1) as nat, 63);
            crate::morton::lemma_power_values_wide();
        }
        p = p * 2;
        i = i + 1;
    }
    p
}

/// Checks the shape and range of a local cell.
fn check_local(scheme: SubdivisionScheme, level: u32, x: u32, y: u32, z: Option<u32>) -> (r: bool)
    requires
        level < 64,
    ensures
        r == local_valid(scheme, level as nat, x, y, z),
{
    let p = pow2(level);
    let shape = match scheme {
        SubdivisionScheme::Quadtree => z.is_none(),
        SubdivisionScheme::Octree => z.is_some(),
    };
    let z_ok = match z {
        Some(zz) => (zz as u64) < p,
        None => true,
    };
    shape && (x as u64) < p && (y as u64) < p && z_ok
}

fn z_value(z: Option<u32>) -> (r: u32)
    ensures
        r as nat == z_or_zero(z),
{
    match z {
        Some(v) => v,
        None => 0,
    }
}

impl DecodedSubtree {
    /// Whether the tile at local level `level` and cell `(x, y, z)` exists:
    /// bit `levelOffset(level) + morton(x, y, z)` of the tile availability.
    /// `IndexOutOfRange` unless `level < subtree_levels` and the cell lies
    /// in that level's grid.
    pub fn is_tile_available(&self, level: u32, x: u32, y: u32, z: Option<u32>) -> (r: Result<
        bool,
        TilingError,
    >)
        requires
            self.wf(),
        ensures
            (level < self.subtree_levels && local_valid(self.scheme, level as nat, x, y, z))
                ==> r == Ok::<bool, TilingError>(
                self.tile_bit(tile_index(self.scheme, level as nat, x, y, z) as int),
            ),
            !(level < self.subtree_levels && local_valid(self.scheme, level as nat, x, y, z))
                ==> r == Err::<bool, TilingError>(TilingError::IndexOutOfRange),
    {
        match self.tile_offset(level, x, y, z) {
            Some(i) => Ok(read_availability(&self.buffers, &self.views, self.tile_availability, i)),
            None => Err(TilingError::IndexOutOfRange),
        }
    }

    /// Whether content `slot` of the tile at local level `level` and cell
    /// `(x, y, z)` exists. `InvalidContentSlot` when the subtree has no such
    /// slot, else as `is_tile_available`.
    pub fn is_content_available(&self, level: u32, x: u32, y: u32, z: Option<u32>, slot: u32) -> (r:
        Result<bool, TilingError>)
        requires
            self.wf(),
        ensures
            slot >= self.content_availability@.len() ==> r == Err::<bool, TilingError>(
                TilingError::InvalidContentSlot,
            ),
            (slot < self.content_availability@.len() && level < self.subtree_levels && local_valid(
                self.scheme,
                level as nat,
                x,
                y,
                z,
            )) ==> r == Ok::<bool, TilingError>(
                self.content_bit(slot as int, tile_index(self.scheme, level as nat, x, y, z) as int),
            ),
            (slot < self.content_availability@.len() && !(level < self.subtree_levels
                && local_valid(self.scheme, level as nat, x, y, z))) ==> r == Err::<
                bool,
                TilingError,
            >(TilingError::IndexOutOfRange),
    {
        if slot as usize >= self.content_availability.len() {
            return Err(TilingError::InvalidContentSlot);
        }
        let a = self.content_availability[slot as usize];
        assert(readable(a, self.views@, tile_bit_count(self.scheme, self.subtree_levels as nat)));
        match self.tile_offset(level, x, y, z) {
            Some(i) => Ok(read_availability(&self.buffers, &self.views, a, i)),
            None => Err(TilingError::IndexOutOfRange),
        }
    }

    /// Whether the child subtree whose root is cell `(x, y, z)` of the level
    /// just below this subtree's bottom level exists: bit `morton(x, y, z)`
    /// of the child subtree availability. `IndexOutOfRange` unless the cell
    /// lies in that level's grid of `2^subtree_levels` cells.
    pub fn has_child_subtree(&self, x: u32, y: u32, z: Option<u32>) -> (r: Result<bool, TilingError>)
        requires
            self.wf(),
        ensures
            local_valid(self.scheme, self.subtree_levels as nat, x, y, z) ==> r == Ok::<
                bool,
                TilingError,
            >(self.child_bit(morton_of(self.scheme, x as nat, y as nat, z_or_zero(z)) as int)),
            !local_valid(self.scheme, self.subtree_levels as nat, x, y, z) ==> r == Err::<
                bool,
                TilingError,
            >(TilingError::IndexOutOfRange),
    {
        let levels = self.subtree_levels;
        proof {
            self.lemma_levels_small();
        }
        if !check_local(self.scheme, levels, x, y, z) {
            return Err(TilingError::IndexOutOfRange);
        }
        let zz = z_value(z);
        let m = encode(self.scheme, x, y, zz, levels, levels);
        let ghost bits = child_bit_count(self.scheme, levels as nat);
        assert(m < bits);
        assert(m / 8 < bytes_for_bits(bits));
        Ok(read_availability(&self.buffers, &self.views, self.child_subtree_availability, m))
    }

    proof fn lemma_levels_small(&self)
        requires
            self.wf(),
        ensures
            self.subtree_levels < 64,
    {
        let n = branching(self.scheme);
        let l = self.subtree_levels as nat;
        if l >= 64 {
            crate::morton::lemma_power_increases(n, 64, l);
            crate::morton::lemma_power_values_wide();
            lemma_power_ge_two(n, 64);
        }
    }

    /// Position in the tile bitstream of a local tile, or `None` when the
    /// tile lies outside the subtree.
    fn tile_offset(&self, level: u32, x: u32, y: u32, z: Option<u32>) -> (r: Option<u64>)
        requires
            self.wf(),
        ensures
            (level < self.subtree_levels && local_valid(self.scheme, level as nat, x, y, z))
                ==> (r is Some && r->Some_0 as nat == tile_index(self.scheme, level as nat, x, y, z)),
            !(level < self.subtree_levels && local_valid(self.scheme, level as nat, x, y, z))
                ==> r is None,
            r matches Some(i) ==> i < tile_bit_count(self.scheme, self.subtree_levels as nat) && i
                / 8 < bytes_for_bits(tile_bit_count(self.scheme, self.subtree_levels as nat)),
    {
        proof {
            self.lemma_levels_small();
        }
        if level >= self.subtree_levels {
            return None;
        }
        if !check_local(self.scheme, level, x, y, z) {
            return None;
        }
        let zz = z_value(z);
        let m = encode(self.scheme, x, y, zz, level, self.subtree_levels);
        proof {
            lemma_level_offset_monotone(branching(self.scheme), (level + 1) as nat, self.subtree_levels as nat);
            crate::morton::lemma_level_offset_closed_form(branching(self.scheme), self.subtree_levels as nat);
        }
        let off = match level_offset(level, self.scheme) {
            Ok(o) => o,
            Err(_) => {
                proof {
                    crate::morton::lemma_power_increases(branching(self.scheme), level as nat, self.subtree_levels as nat);
                }
                return None;
            },
        };
        let ghost tiles = tile_bit_count(self.scheme, self.subtree_levels as nat);
        assert(level_offset_of(branching(self.scheme), (level + 1) as nat) == off + power(branching(self.scheme), level as nat));
        assert(off + m < tiles);
        let i = off + m;
        assert(i / 8 < bytes_for_bits(tiles));
        Some(i)
    }
}

proof fn lemma_power_ge_two(n: nat, e: nat)
    requires
        n >= 2,
    ensures
        power(n, e) >= power(2, e),
    decreases e,
{
    if e > 0 {
        lemma_power_ge_two(n, (e - 1) as nat);
        let a = power(n, (e - 1) as nat);
        let b = power(2, (e - 1) as nat);
        assert(n * a >= 2 * b) by (nonlinear_arith)
            requires
                n >= 2,
                a >= b,
                b >= 0,
        ;
    }
}

/// What a caller asks of a tile of the global tree.
#[derive(PartialEq, Eq, Structural, Clone, Copy, Debug)]
pub enum Query {
    /// Does the tile exist?
    Tile,
    /// Does the tile's content in this slot exist?
    Content(u32),
    /// Is a subtree rooted at this tile (whose level is a multiple of the
    /// subtree depth)?
    Subtree,
}

/// What the walk needs next, or how it ended.
#[derive(PartialEq, Eq, Structural, Clone, Copy, Debug)]
pub enum Step {
    Resolved(bool),
    /// Decode the subtree rooted at this tile and hand it to `advance`.
    Fetch(TileCoordinate),
    Failed(TilingError),
}

/// A query under way: the subtree layer `layer` (rooted at level
/// `layer * subtree_levels`) is the next one to consult.
#[derive(PartialEq, Eq, Structural, Clone, Copy, Debug)]
pub struct Resolution {
    pub target: TileCoordinate,
    pub query: Query,
    pub layer: u32,
}

/// The root tile of the global tree.
pub open spec fn root_of(scheme: SubdivisionScheme) -> TileCoordinate {
    TileCoordinate {
        level: 0,
        x: 0,
        y: 0,
        z: if scheme == SubdivisionScheme::Octree { Some(0u32) } else { None },
    }
}

/// The ancestor at `level` of tile `c` (`level <= c.level`).
pub open spec fn ancestor(c: TileCoordinate, level: nat) -> TileCoordinate {
    let p = power(2, (c.level - level) as nat);
    TileCoordinate {
        level: level as u32,
        x: (c.x as nat / p) as u32,
        y: (c.y as nat / p) as u32,
        z: match c.z {
            Some(z) => Some((z as nat / p) as u32),
            None => None,
        },
    }
}

/// How a query begins: a malformed coordinate fails; a tile below the
/// available levels is unavailable; the root subtree always exists; else
/// the root subtree is fetched.
pub open spec fn start_spec(tiling: ImplicitTiling, target: TileCoordinate, query: Query) -> Step {
    let levels = tiling.subtree_levels as nat;
    if !target.valid_for(tiling.subdivision_scheme) {
        Step::Failed(TilingError::IndexOutOfRange)
    } else if query == Query::Subtree && target.level as nat % levels != 0 {
        Step::Failed(TilingError::IndexOutOfRange)
    } else if target.level >= tiling.available_levels {
        Step::Resolved(false)
    } else if query == Query::Subtree && target.level == 0 {
        Step::Resolved(true)
    } else {
        Step::Fetch(root_of(tiling.subdivision_scheme))
    }
}

impl Resolution {
    /// The query is well formed and the layer to consult lies above the
    /// target (strictly above it, for a subtree query).
    pub open spec fn valid(self, tiling: ImplicitTiling) -> bool {
        let levels = tiling.subtree_levels as nat;
        &&& self.target.valid_for(tiling.subdivision_scheme)
        &&& self.target.level < tiling.available_levels
        &&& self.layer * levels <= self.target.level
        &&& self.query == Query::Subtree ==> {
            &&& self.target.level as nat % levels == 0
            &&& (self.layer + 1) * levels <= self.target.level
        }
    }
}

/// What consulting `sub`, the subtree of the current layer, decides. When
/// the target lies in this layer the tile (or content) bit answers. Else the
/// child subtree bit of the target's ancestor one layer down answers a
/// subtree query about that ancestor; for other queries an unset bit means
/// that nothing below exists, and a set bit sends the walk into that child
/// subtree.
pub open spec fn advance_spec(tiling: ImplicitTiling, st: Resolution, sub: DecodedSubtree) -> (
    Resolution,
    Step,
) {
    let scheme = tiling.subdivision_scheme;
    let levels = tiling.subtree_levels as nat;
    let base = st.layer * levels;
    let t = st.target;
    if st.query != Query::Subtree && t.level < base + levels {
        let ll = (t.level - base) as nat;
        let p = power(2, ll);
        let idx = level_offset_of(branching(scheme), ll) + morton_of(
            scheme,
            t.x as nat % p,
            t.y as nat % p,
            z_of(t) % p,
        );
        match st.query {
            Query::Content(slot) => if slot >= sub.content_availability@.len() {
                (st, Step::Failed(TilingError::InvalidContentSlot))
            } else {
                (st, Step::Resolved(sub.content_bit(slot as int, idx as int)))
            },
            _ => (st, Step::Resolved(sub.tile_bit(idx as int))),
        }
    } else {
        let r = ancestor(t, (base + levels) as nat);
        let p = power(2, levels);
        let bit = sub.child_bit(
            morton_of(scheme, r.x as nat % p, r.y as nat % p, z_of(r) % p) as int,
        );
        if st.query == Query::Subtree && t.level == base + levels {
            (st, Step::Resolved(bit))
        } else if !bit {
            (st, Step::Resolved(false))
        } else {
            (Resolution { layer: (st.layer + 1) as u32, ..st }, Step::Fetch(r))
        }
    }
}

/// Begins answering `query` about `target`.
pub fn start(tiling: &ImplicitTiling, target: TileCoordinate, query: Query) -> (r: (Resolution, Step))
    requires
        tiling.wf(),
    ensures
        r.1 == start_spec(*tiling, target, query),
        r.0 == (Resolution { target, query, layer: 0 }),
        r.1 is Fetch ==> r.0.valid(*tiling),
{
    let st = Resolution { target, query, layer: 0 };
    let scheme = tiling.subdivision_scheme;
    let levels = tiling.subtree_levels;
    let lv: u32 = if target.level > 32 {
        32
    } else {
        target.level
    };
    let valid = check_local(scheme, lv, target.x, target.y, target.z);
    proof {
        crate::morton::lemma_power_values();
        crate::morton::lemma_power_increases(2, lv as nat, target.level as nat);
        if target.level > 32 {
            assert(power(2, lv as nat) == 0x1_0000_0000);
        }
        assert(target.valid_for(scheme) == local_valid(scheme, lv as nat, target.x, target.y, target.z));
    }
    assert(valid == target.valid_for(scheme));
    if !valid {
        return (st, Step::Failed(TilingError::IndexOutOfRange));
    }
    if query == Query::Subtree && target.level % levels != 0 {
        return (st, Step::Failed(TilingError::IndexOutOfRange));
    }
    if target.level >= tiling.available_levels {
        return (st, Step::Resolved(false));
    }
    if query == Query::Subtree && target.level == 0 {
        return (st, Step::Resolved(true));
    }
    let root = TileCoordinate {
        level: 0,
        x: 0,
        y: 0,
        z: match scheme {
            SubdivisionScheme::Octree => Some(0),
            SubdivisionScheme::Quadtree => None,
        },
    };
    proof {
        assert(st.layer * levels == 0 && (st.layer + 1) * levels == levels) by (nonlinear_arith)
            requires
                st.layer == 0,
        ;
        if query == Query::Subtree {
            assert(target.level as nat % (levels as nat) == 0);
            assert(target.level >= levels) by (nonlinear_arith)
                requires
                    target.level as nat % (levels as nat) == 0,
                    target.level > 0,
                    levels > 0,
            ;
        }
    }
    (st, Step::Fetch(root))
}

/// `v / 2^d`.
fn shift_down(v: u32, d: u32) -> (r: u32)
    ensures
        r as nat == v as nat / power(2, d as nat),
{
    if d >= 32 {
        proof {
            crate::morton::lemma_power_values();
            crate::morton::lemma_power_increases(2, 32, d as nat);
            let p = power(2, d as nat);
            assert(v < p);
            assert(v as nat / p == 0) by (nonlinear_arith)
                requires
                    0 <= v < p,
            ;
        }
        0
    } else {
        proof {
            crate::morton::lemma_power_values();
            crate::morton::lemma_power_increases(2, d as nat, 32);
            crate::morton::lemma_power_positive(2, d as nat);
        }
        let p = pow2(d);
        let q = (v as u64) / p;
        assert(q <= v) by (nonlinear_arith)
            requires
                q == v as nat / p as nat,
                p >= 1,
        ;
        assert(q as nat == v as nat / power(2, d as nat));
        let r = q as u32;
        assert(r as nat == q as nat);
        r
    }
}

/// `v mod 2^d`, for `d < 64`.
fn low_bits(v: u32, d: u32) -> (r: u32)
    requires
        d < 64,
    ensures
        r as nat == v as nat % power(2, d as nat),
        (r as nat) < power(2, d as nat),
{
    proof {
        crate::morton::lemma_power_positive(2, d as nat);
    }
    let p = pow2(d);
    let q = (v as u64) % p;
    assert(q <= v) by (nonlinear_arith)
        requires
            q == v as nat % p as nat,
            p >= 1,
    ;
    q as u32
}

fn option_low_bits(z: Option<u32>, d: u32) -> (r: u32)
    requires
        d < 64,
    ensures
        r as nat == z_or_zero(z) % power(2, d as nat),
        (r as nat) < power(2, d as nat),
{
    match z {
        Some(v) => low_bits(v, d),
        None => low_bits(0, d),
    }
}

/// Consults `sub`, the subtree of the current layer, and says what comes
/// next.
pub fn advance(tiling: &ImplicitTiling, st: Resolution, sub: &DecodedSubtree) -> (r: (Resolution, Step))
    requires
        tiling.wf(),
        st.valid(*tiling),
        sub.wf(),
        sub.scheme == tiling.subdivision_scheme,
        sub.subtree_levels == tiling.subtree_levels,
    ensures
        r == advance_spec(*tiling, st, *sub),
        r.1 is Fetch ==> r.0.valid(*tiling) && r.0.layer == st.layer + 1,
{
    let scheme = tiling.subdivision_scheme;
    let levels = tiling.subtree_levels;
    let t = st.target;
    proof {
        sub.lemma_levels_small();
        assert(st.layer * levels <= t.level);
    }
    let base: u32 = st.layer * levels;
    let end: u64 = base as u64 + levels as u64;
    assert((st.layer + 1) * levels == base + levels) by (nonlinear_arith)
        requires
            base == st.layer * levels,
    ;
    assert(st.layer + 1 <= (st.layer + 1) * levels) by (nonlinear_arith)
        requires
            levels >= 1,
    ;
    if st.query != Query::Subtree && (t.level as u64) < end {
        let ll: u32 = t.level - base;
        let x = low_bits(t.x, ll);
        let y = low_bits(t.y, ll);
        let zz = option_low_bits(t.z, ll);
        let z = match t.z {
            Some(_) => Some(zz),
            None => None,
        };
        assert(z_or_zero(z) == zz);
        match st.query {
            Query::Content(slot) => {
                let r = sub.is_content_available(ll, x, y, z, slot);
                match r {
                    Ok(b) => (st, Step::Resolved(b)),
                    Err(e) => (st, Step::Failed(e)),
                }
            },
            _ => {
                let r = sub.is_tile_available(ll, x, y, z);
                match r {
                    Ok(b) => (st, Step::Resolved(b)),
                    Err(e) => (st, Step::Failed(e)),
                }
            },
        }
    } else {
        assert(base + levels <= t.level);
        let top: u32 = base + levels;
        let d: u32 = t.level - top;
        let rx = shift_down(t.x, d);
        let ry = shift_down(t.y, d);
        let rz = match t.z {
            Some(v) => Some(shift_down(v, d)),
            None => None,
        };
        let r = TileCoordinate { level: top, x: rx, y: ry, z: rz };
        assert(r == ancestor(t, (base + levels) as nat));
        let cx = low_bits(rx, levels);
        let cy = low_bits(ry, levels);
        let cz = option_low_bits(rz, levels);
        let cz_opt = match rz {
            Some(_) => Some(cz),
            None => None,
        };
        let bit = match sub.has_child_subtree(cx, cy, cz_opt) {
            Ok(b) => b,
            Err(e) => {
                return (st, Step::Failed(e));
            },
        };
        if st.query == Query::Subtree && t.level == top {
            (st, Step::Resolved(bit))
        } else if !bit {
            (st, Step::Resolved(false))
        } else {
            let next = Resolution { target: t, query: st.query, layer: st.layer + 1 };
            proof {
                assert((st.layer + 1) * levels == base + levels) by (nonlinear_arith)
                    requires
                        base == st.layer * levels,
                ;
                if st.query == Query::Subtree {
                    assert((st.layer + 2) * levels <= t.level) by (nonlinear_arith)
                        requires
                            t.level as nat % (levels as nat) == 0,
                            t.level > (st.layer + 1) * levels,
                            levels > 0,
                    ;
                }
            }
            (next, Step::Fetch(r))
        }
    }
}

} // verus!
