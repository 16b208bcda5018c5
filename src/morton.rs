//! Morton (Z-order) indexing of quadtree and octree grids, and the sizes of
//! the availability bitstreams that follow from it.

use vstd::prelude::*;

use crate::error::TilingError;
use crate::tiling::SubdivisionScheme;

verus! {

/// `base` raised to `exp`.
pub open spec fn power(base: nat, exp: nat) -> nat
    decreases exp,
{
    if exp == 0 {
        1
    } else {
        base * power(base, (exp - 1) as nat)
    }
}

/// Morton index of a quadtree cell: bit `2i` is bit `i` of `x`, bit `2i+1`
/// is bit `i` of `y`.
pub open spec fn morton2(x: nat, y: nat) -> nat
    decreases x + y,
{
    if x == 0 && y == 0 {
        0
    } else {
        (x % 2) + 2 * (y % 2) + 4 * morton2(x / 2, y / 2)
    }
}

/// Cell of a quadtree grid whose Morton index is `m`.
pub open spec fn unmorton2(m: nat) -> (nat, nat)
    decreases m,
{
    if m == 0 {
        (0, 0)
    } else {
        let r = unmorton2(m / 4);
        (m % 2 + 2 * r.0, (m / 2) % 2 + 2 * r.1)
    }
}

/// A power of a positive base is positive.
pub proof fn lemma_power_positive(base: nat, exp: nat)
    requires
        base >= 1,
    ensures
        power(base, exp) >= 1,
    decreases exp,
{
    if exp > 0 {
        lemma_power_positive(base, (exp - 1) as nat);
        assert(base * power(base, (exp - 1) as nat) >= 1) by (nonlinear_arith)
            requires
                base >= 1,
                power(base, (exp - 1) as nat) >= 1,
        ;
    }
}

/// A cell of a grid `2^k` cells wide has a quadtree Morton index below `4^k`.
pub proof fn lemma_morton2_bound(x: nat, y: nat, k: nat)
    requires
        x < power(2, k),
        y < power(2, k),
    ensures
        morton2(x, y) < power(4, k),
    decreases k,
{
    if k == 0 {
        assert(x == 0 && y == 0);
    } else {
        let k1 = (k - 1) as nat;
        assert(x / 2 < power(2, k1));
        assert(y / 2 < power(2, k1));
        lemma_morton2_bound(x / 2, y / 2, k1);
        if !(x == 0 && y == 0) {
            assert(morton2(x, y) == (x % 2) + 2 * (y % 2) + 4 * morton2(x / 2, y / 2));
        }
    }
}

proof fn lemma_split4(m: nat, a: nat, rest: nat)
    requires
        a < 4,
        m == a + 4 * rest,
    ensures
        m / 4 == rest,
        m % 2 == a % 2,
        (m / 2) % 2 == a / 2,
{
}

proof fn lemma_morton2_zero(x: nat, y: nat)
    ensures
        morton2(x, y) == 0 <==> (x == 0 && y == 0),
    decreases x + y,
{
    if !(x == 0 && y == 0) {
        lemma_morton2_zero(x / 2, y / 2);
    }
}

/// Decoding a quadtree Morton index gives back the cell that was encoded.
pub proof fn lemma_morton2_round_trip(x: nat, y: nat)
    ensures
        unmorton2(morton2(x, y)) == (x, y),
    decreases x + y,
{
    if !(x == 0 && y == 0) {
        lemma_morton2_round_trip(x / 2, y / 2);
        lemma_morton2_zero(x, y);
        let m = morton2(x, y);
        let a = (x % 2) + 2 * (y % 2);
        let mr = morton2(x / 2, y / 2);
        lemma_split4(m, a, mr);
        assert(a % 2 == x % 2);
        assert(a / 2 == y % 2);
        let c = unmorton2(m);
        assert(c == (m % 2 + 2 * unmorton2(m / 4).0, (m / 2) % 2 + 2 * unmorton2(m / 4).1));
    }
}

/// Encoding the cell that a quadtree Morton index names gives back the index.
pub proof fn lemma_unmorton2_round_trip(m: nat)
    ensures
        morton2(unmorton2(m).0, unmorton2(m).1) == m,
    decreases m,
{
    if m > 0 {
        lemma_unmorton2_round_trip(m / 4);
        let r = unmorton2(m / 4);
        let c = unmorton2(m);
        assert(c.0 / 2 == r.0 && c.1 / 2 == r.1);
        assert(c.0 % 2 == m % 2 && c.1 % 2 == (m / 2) % 2);
        assert(!(c.0 == 0 && c.1 == 0));
    }
}

/// Powers that bound coordinates and Morton indices.
pub proof fn lemma_power_values()
    ensures
        power(2, 21) == 0x20_0000,
        power(2, 22) == 0x40_0000,
        power(2, 32) == 0x1_0000_0000,
        power(4, 32) == 0x1_0000_0000_0000_0000,
        power(8, 21) == 0x8000_0000_0000_0000,
        power(8, 22) == 0x4_0000_0000_0000_0000,
{
    reveal_with_fuel(power, 33);
}

/// Powers of two at the width of 64-bit integers.
pub proof fn lemma_power_values_wide()
    ensures
        power(2, 63) == 0x8000_0000_0000_0000,
        power(2, 64) == 0x1_0000_0000_0000_0000,
{
    reveal_with_fuel(power, 65);
}

/// Morton index of the quadtree cell `(x, y)`.
pub fn encode_2d(x: u32, y: u32) -> (r: u64)
    ensures
        r == morton2(x as nat, y as nat),
{
    proof {
        lemma_power_values();
        lemma_morton2_bound(x as nat, y as nat, 32);
    }
    let ghost total = morton2(x as nat, y as nat);
    let mut xr: u32 = x;
    let mut yr: u32 = y;
    let mut acc: u64 = 0;
    let mut p: u64 = 1;
    while xr > 0 || yr > 0
        invariant
            total == acc + p * morton2(xr as nat, yr as nat),
            total <= u64::MAX,
            p >= 1,
        decreases xr + yr,
    {
        let ghost mr = morton2(xr as nat, yr as nat);
        let ghost mn = morton2((xr / 2) as nat, (yr / 2) as nat);
        let a: u64 = (xr % 2) as u64 + 2 * (yr % 2) as u64;
        assert(mr == a + 4 * mn);
        assert(a * p <= p * mr) by (nonlinear_arith)
            requires
                mr == a + 4 * mn,
                p >= 1,
        ;
        acc = acc + a * p;
        xr = xr / 2;
        yr = yr / 2;
        if xr > 0 || yr > 0 {
            proof {
                lemma_morton2_zero((xr as nat), (yr as nat));
            }
            assert(mn >= 1);
            assert(p * 4 <= p * mr) by (nonlinear_arith)
                requires
                    mr == a + 4 * mn,
                    mn >= 1,
                    p >= 1,
            ;
            assert(total == acc + (p * 4) * mn) by (nonlinear_arith)
                requires
                    total == (acc - a * p) + p * mr,
                    mr == a + 4 * mn,
            ;
            p = p * 4;
        } else {
            assert(mn == 0);
            assert(total == acc + p * morton2(xr as nat, yr as nat)) by (nonlinear_arith)
                requires
                    total == (acc - a * p) + p * mr,
                    mr == a + 4 * mn,
                    mn == 0,
                    morton2(xr as nat, yr as nat) == 0,
            ;
        }
    }
    assert(morton2(xr as nat, yr as nat) == 0);
    assert(p * 0 == 0);
    acc
}

proof fn lemma_unmorton2_bound(m: nat, k: nat)
    requires
        m < power(4, k),
    ensures
        unmorton2(m).0 < power(2, k),
        unmorton2(m).1 < power(2, k),
    decreases k,
{
    lemma_power_positive(2, k);
    if k > 0 && m > 0 {
        let k1 = (k - 1) as nat;
        assert(m / 4 < power(4, k1));
        lemma_unmorton2_bound(m / 4, k1);
        let r = unmorton2(m / 4);
        assert(unmorton2(m).0 == m % 2 + 2 * r.0);
        assert(unmorton2(m).1 == (m / 2) % 2 + 2 * r.1);
        assert(power(2, k) == 2 * power(2, k1));
    }
}

/// Quadtree cell whose Morton index is `m`.
pub fn decode_2d(m: u64) -> (r: (u32, u32))
    ensures
        (r.0 as nat, r.1 as nat) == unmorton2(m as nat),
{
    proof {
        lemma_power_values();
        lemma_unmorton2_bound(m as nat, 32);
    }
    let ghost c = unmorton2(m as nat);
    let mut mr: u64 = m;
    let mut ax: u64 = 0;
    let mut ay: u64 = 0;
    let mut unit: u64 = 1;
    let mut span: u64 = 1;
    while mr > 0
        invariant
            c.0 == ax + unit * unmorton2(mr as nat).0,
            c.1 == ay + unit * unmorton2(mr as nat).1,
            c.0 < 0x1_0000_0000,
            c.1 < 0x1_0000_0000,
            1 <= unit <= span,
            span * mr <= m,
        decreases mr,
    {
        let ghost r = unmorton2((mr / 4) as nat);
        let ghost cur = unmorton2(mr as nat);
        let bx: u64 = mr % 2;
        let by: u64 = (mr / 2) % 2;
        assert(cur.0 == bx + 2 * r.0 && cur.1 == by + 2 * r.1);
        assert(bx * unit <= unit * cur.0 && by * unit <= unit * cur.1) by (nonlinear_arith)
            requires
                cur.0 == bx + 2 * r.0,
                cur.1 == by + 2 * r.1,
                unit >= 1,
        ;
        assert(c.0 == (ax + bx * unit) + (2 * unit) * r.0 && c.1 == (ay + by * unit) + (2 * unit) * r.1)
            by (nonlinear_arith)
            requires
                c.0 == ax + unit * cur.0,
                c.1 == ay + unit * cur.1,
                cur.0 == bx + 2 * r.0,
                cur.1 == by + 2 * r.1,
        ;
        ax = ax + bx * unit;
        ay = ay + by * unit;
        let ghost old_mr = mr;
        mr = mr / 4;
        assert(r == unmorton2(mr as nat));
        if mr > 0 {
            assert(span * 4 * mr <= span * old_mr && span * 4 <= span * 4 * mr) by (nonlinear_arith)
                requires
                    mr == old_mr / 4,
                    mr >= 1,
                    span >= 1,
            ;
            let ghost old_unit = unit;
            unit = unit * 2;
            span = span * 4;
            assert(old_unit * 2 * r.0 == unit * r.0 && old_unit * 2 * r.1 == unit * r.1);
            assert((2 * old_unit) * r.0 == unit * r.0 && (2 * old_unit) * r.1 == unit * r.1) by (nonlinear_arith)
                requires
                    unit == old_unit * 2,
            ;
        } else {
            assert(r == (0nat, 0nat));
            assert((2 * unit) * r.0 == 0 && (2 * unit) * r.1 == 0) by (nonlinear_arith)
                requires
                    r.0 == 0,
                    r.1 == 0,
            ;
            assert(unit * unmorton2(mr as nat).0 == 0 && unit * unmorton2(mr as nat).1 == 0);
        }
    }
    assert(unmorton2(0) == (0nat, 0nat));
    (ax as u32, ay as u32)
}

/// Morton index of an octree cell: bits `3i`, `3i+1` and `3i+2` are bit `i`
/// of `x`, `y` and `z`.
pub open spec fn morton3(x: nat, y: nat, z: nat) -> nat
    decreases x + y + z,
{
    if x == 0 && y == 0 && z == 0 {
        0
    } else {
        (x % 2) + 2 * (y % 2) + 4 * (z % 2) + 8 * morton3(x / 2, y / 2, z / 2)
    }
}

/// Cell of an octree grid whose Morton index is `m`.
pub open spec fn unmorton3(m: nat) -> (nat, nat, nat)
    decreases m,
{
    if m == 0 {
        (0, 0, 0)
    } else {
        let r = unmorton3(m / 8);
        (m % 2 + 2 * r.0, (m / 2) % 2 + 2 * r.1, (m / 4) % 2 + 2 * r.2)
    }
}

proof fn lemma_split8(m: nat, a: nat, rest: nat)
    requires
        a < 8,
        m == a + 8 * rest,
    ensures
        m / 8 == rest,
        m % 2 == a % 2,
        (m / 2) % 2 == (a / 2) % 2,
        (m / 4) % 2 == a / 4,
{
}

proof fn lemma_morton3_zero(x: nat, y: nat, z: nat)
    ensures
        morton3(x, y, z) == 0 <==> (x == 0 && y == 0 && z == 0),
    decreases x + y + z,
{
    if !(x == 0 && y == 0 && z == 0) {
        lemma_morton3_zero(x / 2, y / 2, z / 2);
    }
}

/// A cell of a grid `2^k` cells wide has an octree Morton index below `8^k`.
pub proof fn lemma_morton3_bound(x: nat, y: nat, z: nat, k: nat)
    requires
        x < power(2, k),
        y < power(2, k),
        z < power(2, k),
    ensures
        morton3(x, y, z) < power(8, k),
    decreases k,
{
    if k == 0 {
        assert(x == 0 && y == 0 && z == 0);
    } else {
        let k1 = (k - 1) as nat;
        lemma_morton3_bound(x / 2, y / 2, z / 2, k1);
        if !(x == 0 && y == 0 && z == 0) {
            assert(morton3(x, y, z) == (x % 2) + 2 * (y % 2) + 4 * (z % 2) + 8 * morton3(
                x / 2,
                y / 2,
                z / 2,
            ));
        }
    }
}

/// Decoding an octree Morton index gives back the cell that was encoded.
pub proof fn lemma_morton3_round_trip(x: nat, y: nat, z: nat)
    ensures
        unmorton3(morton3(x, y, z)) == (x, y, z),
    decreases x + y + z,
{
    if !(x == 0 && y == 0 && z == 0) {
        lemma_morton3_round_trip(x / 2, y / 2, z / 2);
        lemma_morton3_zero(x, y, z);
        let m = morton3(x, y, z);
        let a = (x % 2) + 2 * (y % 2) + 4 * (z % 2);
        let mr = morton3(x / 2, y / 2, z / 2);
        lemma_split8(m, a, mr);
        assert(a % 2 == x % 2);
        assert((a / 2) % 2 == y % 2);
        assert(a / 4 == z % 2);
        let r = unmorton3(m / 8);
        assert(unmorton3(m) == (m % 2 + 2 * r.0, (m / 2) % 2 + 2 * r.1, (m / 4) % 2 + 2 * r.2));
    }
}

proof fn lemma_digits8(a: nat)
    requires
        a < 8,
    ensures
        a == a % 2 + 2 * ((a / 2) % 2) + 4 * (a / 4),
{
}

/// Encoding the cell that an octree Morton index names gives back the index.
pub proof fn lemma_unmorton3_round_trip(m: nat)
    ensures
        morton3(unmorton3(m).0, unmorton3(m).1, unmorton3(m).2) == m,
    decreases m,
{
    if m > 0 {
        lemma_unmorton3_round_trip(m / 8);
        let r = unmorton3(m / 8);
        let c = unmorton3(m);
        assert(c == (m % 2 + 2 * r.0, (m / 2) % 2 + 2 * r.1, (m / 4) % 2 + 2 * r.2));
        assert(c.0 / 2 == r.0 && c.1 / 2 == r.1 && c.2 / 2 == r.2);
        assert(c.0 % 2 == m % 2 && c.1 % 2 == (m / 2) % 2 && c.2 % 2 == (m / 4) % 2);
        let a = m % 8;
        lemma_split8(m, a, m / 8);
        lemma_digits8(a);
        assert(!(c.0 == 0 && c.1 == 0 && c.2 == 0));
        assert(morton3(c.0, c.1, c.2) == (c.0 % 2) + 2 * (c.1 % 2) + 4 * (c.2 % 2) + 8 * morton3(
            r.0,
            r.1,
            r.2,
        ));
    }
}

proof fn lemma_unmorton3_bound(m: nat, k: nat)
    requires
        m < power(8, k),
    ensures
        unmorton3(m).0 < power(2, k),
        unmorton3(m).1 < power(2, k),
        unmorton3(m).2 < power(2, k),
    decreases k,
{
    lemma_power_positive(2, k);
    if k > 0 && m > 0 {
        let k1 = (k - 1) as nat;
        assert(m / 8 < power(8, k1));
        lemma_unmorton3_bound(m / 8, k1);
        let r = unmorton3(m / 8);
        assert(unmorton3(m).0 == m % 2 + 2 * r.0);
        assert(unmorton3(m).1 == (m / 2) % 2 + 2 * r.1);
        assert(unmorton3(m).2 == (m / 4) % 2 + 2 * r.2);
        assert(power(2, k) == 2 * power(2, k1));
    }
}

/// Morton index of the octree cell `(x, y, z)`; each coordinate is below
/// 2^21 so that the index fits in 64 bits.
pub fn encode_3d(x: u32, y: u32, z: u32) -> (r: u64)
    requires
        x < 0x20_0000,
        y < 0x20_0000,
        z < 0x20_0000,
    ensures
        r == morton3(x as nat, y as nat, z as nat),
{
    proof {
        lemma_power_values();
        lemma_morton3_bound(x as nat, y as nat, z as nat, 21);
    }
    let ghost total = morton3(x as nat, y as nat, z as nat);
    let mut xr: u32 = x;
    let mut yr: u32 = y;
    let mut zr: u32 = z;
    let mut acc: u64 = 0;
    let mut p: u64 = 1;
    while xr > 0 || yr > 0 || zr > 0
        invariant
            total == acc + p * morton3(xr as nat, yr as nat, zr as nat),
            total <= u64::MAX,
            p >= 1,
        decreases xr + yr + zr,
    {
        let ghost mr = morton3(xr as nat, yr as nat, zr as nat);
        let ghost mn = morton3((xr / 2) as nat, (yr / 2) as nat, (zr / 2) as nat);
        let a: u64 = (xr % 2) as u64 + 2 * (yr % 2) as u64 + 4 * (zr % 2) as u64;
        assert(mr == a + 8 * mn);
        assert(a * p <= p * mr) by (nonlinear_arith)
            requires
                mr == a + 8 * mn,
                p >= 1,
        ;
        acc = acc + a * p;
        xr = xr / 2;
        yr = yr / 2;
        zr = zr / 2;
        if xr > 0 || yr > 0 || zr > 0 {
            proof {
                lemma_morton3_zero(xr as nat, yr as nat, zr as nat);
            }
            assert(mn >= 1);
            assert(p * 8 <= p * mr) by (nonlinear_arith)
                requires
                    mr == a + 8 * mn,
                    mn >= 1,
                    p >= 1,
            ;
            assert(total == acc + (p * 8) * mn) by (nonlinear_arith)
                requires
                    total == (acc - a * p) + p * mr,
                    mr == a + 8 * mn,
            ;
            p = p * 8;
        } else {
            assert(mn == 0);
            assert(total == acc + p * morton3(xr as nat, yr as nat, zr as nat)) by (nonlinear_arith)
                requires
                    total == (acc - a * p) + p * mr,
                    mr == a + 8 * mn,
                    mn == 0,
                    morton3(xr as nat, yr as nat, zr as nat) == 0,
            ;
        }
    }
    assert(morton3(xr as nat, yr as nat, zr as nat) == 0);
    assert(p * 0 == 0);
    acc
}

/// Octree cell whose Morton index is `m`.
pub fn decode_3d(m: u64) -> (r: (u32, u32, u32))
    ensures
        (r.0 as nat, r.1 as nat, r.2 as nat) == unmorton3(m as nat),
{
    proof {
        lemma_power_values();
        lemma_unmorton3_bound(m as nat, 22);
    }
    let ghost c = unmorton3(m as nat);
    let mut mr: u64 = m;
    let mut ax: u64 = 0;
    let mut ay: u64 = 0;
    let mut az: u64 = 0;
    let mut unit: u64 = 1;
    let mut span: u64 = 1;
    while mr > 0
        invariant
            c.0 == ax + unit * unmorton3(mr as nat).0,
            c.1 == ay + unit * unmorton3(mr as nat).1,
            c.2 == az + unit * unmorton3(mr as nat).2,
            c.0 < 0x40_0000,
            c.1 < 0x40_0000,
            c.2 < 0x40_0000,
            1 <= unit <= span,
            span * mr <= m,
        decreases mr,
    {
        let ghost r = unmorton3((mr / 8) as nat);
        let ghost cur = unmorton3(mr as nat);
        let bx: u64 = mr % 2;
        let by: u64 = (mr / 2) % 2;
        let bz: u64 = (mr / 4) % 2;
        assert(cur.0 == bx + 2 * r.0 && cur.1 == by + 2 * r.1 && cur.2 == bz + 2 * r.2);
        assert(bx * unit <= unit * cur.0 && by * unit <= unit * cur.1 && bz * unit <= unit * cur.2)
            by (nonlinear_arith)
            requires
                cur.0 == bx + 2 * r.0,
                cur.1 == by + 2 * r.1,
                cur.2 == bz + 2 * r.2,
                unit >= 1,
        ;
        assert(c.0 == (ax + bx * unit) + (2 * unit) * r.0) by (nonlinear_arith)
            requires
                c.0 == ax + unit * cur.0,
                cur.0 == bx + 2 * r.0,
        ;
        assert(c.1 == (ay + by * unit) + (2 * unit) * r.1) by (nonlinear_arith)
            requires
                c.1 == ay + unit * cur.1,
                cur.1 == by + 2 * r.1,
        ;
        assert(c.2 == (az + bz * unit) + (2 * unit) * r.2) by (nonlinear_arith)
            requires
                c.2 == az + unit * cur.2,
                cur.2 == bz + 2 * r.2,
        ;
        ax = ax + bx * unit;
        ay = ay + by * unit;
        az = az + bz * unit;
        let ghost old_mr = mr;
        mr = mr / 8;
        assert(r == unmorton3(mr as nat));
        if mr > 0 {
            assert(span * 8 * mr <= span * old_mr && span * 8 <= span * 8 * mr) by (nonlinear_arith)
                requires
                    mr == old_mr / 8,
                    mr >= 1,
                    span >= 1,
            ;
            let ghost old_unit = unit;
            unit = unit * 2;
            span = span * 8;
            assert((2 * old_unit) * r.0 == unit * r.0 && (2 * old_unit) * r.1 == unit * r.1 && (2 * old_unit)
                * r.2 == unit * r.2) by (nonlinear_arith)
                requires
                    unit == old_unit * 2,
            ;
        } else {
            assert(r == (0nat, 0nat, 0nat));
            assert((2 * unit) * r.0 == 0 && (2 * unit) * r.1 == 0 && (2 * unit) * r.2 == 0)
                by (nonlinear_arith)
                requires
                    r.0 == 0,
                    r.1 == 0,
                    r.2 == 0,
            ;
            assert(unit * unmorton3(mr as nat).0 == 0 && unit * unmorton3(mr as nat).1 == 0 && unit
                * unmorton3(mr as nat).2 == 0);
        }
    }
    assert(unmorton3(0) == (0nat, 0nat, 0nat));
    (ax as u32, ay as u32, az as u32)
}

/// Number of children of a node: 4 for a quadtree, 8 for an octree.
pub open spec fn branching(scheme: SubdivisionScheme) -> nat {
    match scheme {
        SubdivisionScheme::Quadtree => 4,
        SubdivisionScheme::Octree => 8,
    }
}

/// Number of nodes on all levels above `level`: the sum of `n^l` for
/// `l < level`.
pub open spec fn level_offset_of(n: nat, level: nat) -> nat
    decreases level,
{
    if level == 0 {
        0
    } else {
        level_offset_of(n, (level - 1) as nat) + power(n, (level - 1) as nat)
    }
}

/// The nodes above a level number `(n^level - 1) / (n - 1)`.
pub proof fn lemma_level_offset_closed_form(n: nat, level: nat)
    requires
        n >= 2,
    ensures
        level_offset_of(n, level) * ((n - 1) as nat) + 1 == power(n, level),
        level_offset_of(n, level) == ((power(n, level) - 1) as nat) / ((n - 1) as nat),
    decreases level,
{
    if level > 0 {
        let l1 = (level - 1) as nat;
        lemma_level_offset_closed_form(n, l1);
        let a = level_offset_of(n, l1);
        let p = power(n, l1);
        assert((a + p) * ((n - 1) as nat) + 1 == n * p) by (nonlinear_arith)
            requires
                a * ((n - 1) as nat) + 1 == p,
                n >= 2,
        ;
        assert(level_offset_of(n, level) == a + p);
        assert(power(n, level) == n * p);
        let q = level_offset_of(n, level);
        let d = (n - 1) as nat;
        assert(q * d + 1 == power(n, level)) by (nonlinear_arith)
            requires
                q == a + p,
                d == n - 1,
                power(n, level) == n * p,
                (a + p) * d + 1 == n * p,
        ;
    } else {
        assert(level_offset_of(n, level) == 0);
        assert(power(n, level) == 1);
        assert(level_offset_of(n, level) * ((n - 1) as nat) == 0);
    }
    let q = level_offset_of(n, level);
    let d = (n - 1) as nat;
    assert(q * d + 1 == power(n, level));
    assert(((power(n, level) - 1) as nat) == q * d);
    assert(q * d == d * q) by (nonlinear_arith);
    vstd::arithmetic::div_mod::lemma_div_multiples_vanish(q as int, d as int);
    assert((d * q) / d == q);
}

/// Powers of a positive base grow with the exponent.
pub proof fn lemma_power_increases(n: nat, a: nat, b: nat)
    requires
        n >= 1,
        a <= b,
    ensures
        power(n, a) <= power(n, b),
    decreases b,
{
    if a < b {
        let b1 = (b - 1) as nat;
        lemma_power_increases(n, a, b1);
        lemma_power_positive(n, b1);
        assert(power(n, b1) <= n * power(n, b1)) by (nonlinear_arith)
            requires
                n >= 1,
        ;
    }
}

/// Branching factor of a scheme.
pub fn branching_factor(scheme: SubdivisionScheme) -> (r: u64)
    ensures
        r as nat == branching(scheme),
{
    match scheme {
        SubdivisionScheme::Quadtree => 4,
        SubdivisionScheme::Octree => 8,
    }
}

/// `n^level`, or `ConfigurationOverflow` when it does not fit in 64 bits.
fn checked_power(n: u64, level: u32) -> (r: Result<u64, TilingError>)
    requires
        n >= 2,
    ensures
        power(n as nat, level as nat) <= u64::MAX ==> r == Ok::<u64, TilingError>(
            power(n as nat, level as nat) as u64,
        ),
        power(n as nat, level as nat) > u64::MAX ==> r == Err::<u64, TilingError>(
            TilingError::ConfigurationOverflow,
        ),
{
    let mut i: u32 = 0;
    let mut p: u64 = 1;
    while i < level
        invariant
            i <= level,
            n >= 2,
            p as nat == power(n as nat, i as nat),
        decreases level - i,
    {
        match p.checked_mul(n) {
            Some(q) => {
                assert(q == n * p) by (nonlinear_arith)
                    requires
                        q == p * n,
                ;
                p = q;
                i = i + 1;
            },
            None => {
                assert(power(n as nat, (i + 1) as nat) == n * p);
                proof {
                    lemma_power_increases(n as nat, (i + 1) as nat, level as nat);
                }
                return Err(TilingError::ConfigurationOverflow);
            },
        }
    }
    Ok(p)
}

/// Number of tiles on the levels of a subtree above `level`: the first bit
/// of that level's entries in the tile availability bitstream. Fails with
/// `ConfigurationOverflow` when `N^level` does not fit in 64 bits.
pub fn level_offset(level: u32, scheme: SubdivisionScheme) -> (r: Result<u64, TilingError>)
    ensures
        power(branching(scheme), level as nat) <= u64::MAX ==> r == Ok::<u64, TilingError>(
            level_offset_of(branching(scheme), level as nat) as u64,
        ),
        power(branching(scheme), level as nat) > u64::MAX ==> r == Err::<u64, TilingError>(
            TilingError::ConfigurationOverflow,
        ),
{
    let n = branching_factor(scheme);
    let top = checked_power(n, level);
    if top.is_err() {
        return Err(TilingError::ConfigurationOverflow);
    }
    let mut i: u32 = 0;
    let mut p: u64 = 1;
    let mut off: u64 = 0;
    while i < level
        invariant
            i <= level,
            n >= 2,
            n as nat == branching(scheme),
            power(n as nat, level as nat) <= u64::MAX,
            p as nat == power(n as nat, i as nat),
            off as nat == level_offset_of(n as nat, i as nat),
        decreases level - i,
    {
        proof {
            lemma_level_offset_closed_form(n as nat, (i + 1) as nat);
            lemma_power_increases(n as nat, (i + 1) as nat, level as nat);
        }
        assert(power(n as nat, (i + 1) as nat) == n * p);
        off = off + p;
        p = p * n;
        i = i + 1;
    }
    Ok(off)
}

/// Number of child subtrees below a subtree of `subtree_levels` levels,
/// `N^subtree_levels`: the size of the child subtree bitstream. Fails with
/// `ConfigurationOverflow` when it does not fit in 64 bits.
pub fn child_count(subtree_levels: u32, scheme: SubdivisionScheme) -> (r: Result<
    u64,
    TilingError,
>)
    ensures
        power(branching(scheme), subtree_levels as nat) <= u64::MAX ==> r == Ok::<
            u64,
            TilingError,
        >(power(branching(scheme), subtree_levels as nat) as u64),
        power(branching(scheme), subtree_levels as nat) > u64::MAX ==> r == Err::<
            u64,
            TilingError,
        >(TilingError::ConfigurationOverflow),
{
    checked_power(branching_factor(scheme), subtree_levels)
}

/// Morton index of a cell in the scheme's grid; `z` is ignored for a
/// quadtree.
pub open spec fn morton_of(scheme: SubdivisionScheme, x: nat, y: nat, z: nat) -> nat {
    match scheme {
        SubdivisionScheme::Quadtree => morton2(x, y),
        SubdivisionScheme::Octree => morton3(x, y, z),
    }
}

/// An octree whose `8^levels` fits in 64 bits is at most 21 levels deep.
pub proof fn lemma_octree_depth(levels: nat)
    requires
        power(8, levels) <= u64::MAX,
    ensures
        levels <= 21,
        power(2, levels) <= 0x20_0000,
{
    lemma_power_values();
    if levels > 21 {
        lemma_power_increases(8, 22, levels);
    }
    lemma_power_increases(2, levels, 21);
}

/// Morton index of the cell `(x, y, z)` of a grid `2^level` cells wide, in a
/// tiling whose `N^levels` fits in 64 bits and with `level <= levels`.
pub fn encode(scheme: SubdivisionScheme, x: u32, y: u32, z: u32, level: u32, levels: u32) -> (r: u64)
    requires
        level <= levels,
        power(branching(scheme), levels as nat) <= u64::MAX,
        x < power(2, level as nat),
        y < power(2, level as nat),
        z < power(2, level as nat),
    ensures
        r as nat == morton_of(scheme, x as nat, y as nat, z as nat),
        r < power(branching(scheme), level as nat),
{
    match scheme {
        SubdivisionScheme::Quadtree => {
            proof {
                lemma_morton2_bound(x as nat, y as nat, level as nat);
            }
            encode_2d(x, y)
        },
        SubdivisionScheme::Octree => {
            proof {
                lemma_octree_depth(levels as nat);
                lemma_power_increases(2, level as nat, levels as nat);
                lemma_morton3_bound(x as nat, y as nat, z as nat, level as nat);
            }
            encode_3d(x, y, z)
        },
    }
}

} // verus!
