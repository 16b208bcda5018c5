//! Subtree URIs: the template of the implicit tiling with `{level}`, `{x}`,
//! `{y}` and `{z}` replaced by a subtree root's coordinates.

use vstd::prelude::*;

use crate::text::{chars_of, string_from_chars};
use crate::tiling::{ImplicitTiling, TileCoordinate};

verus! {

/// The character of a decimal digit.
pub open spec fn digit_char(d: nat) -> char {
    if d == 0 {
        '0'
    } else if d == 1 {
        '1'
    } else if d == 2 {
        '2'
    } else if d == 3 {
        '3'
    } else if d == 4 {
        '4'
    } else if d == 5 {
        '5'
    } else if d == 6 {
        '6'
    } else if d == 7 {
        '7'
    } else if d == 8 {
        '8'
    } else {
        '9'
    }
}

/// Decimal digits of `n`, most significant first, without leading zeros.
pub open spec fn decimal(n: nat) -> Seq<char>
    decreases n,
{
    if n < 10 {
        seq![digit_char(n)]
    } else {
        decimal(n / 10).push(digit_char(n % 10))
    }
}

/// The `{level}` placeholder.
pub open spec fn level_pattern() -> Seq<char> {
    seq!['{', 'l', 'e', 'v', 'e', 'l', '}']
}

/// The `{x}` placeholder.
pub open spec fn x_pattern() -> Seq<char> {
    seq!['{', 'x', '}']
}

/// The `{y}` placeholder.
pub open spec fn y_pattern() -> Seq<char> {
    seq!['{', 'y', '}']
}

/// The `{z}` placeholder.
pub open spec fn z_pattern() -> Seq<char> {
    seq!['{', 'z', '}']
}

/// `t` begins with `p`.
pub open spec fn starts_with(t: Seq<char>, p: Seq<char>) -> bool {
    p.len() <= t.len() && t.subrange(0, p.len() as int) == p
}

/// The template `t` with each placeholder replaced, scanning from the left;
/// `{z}` is replaced only when the coordinate has a `z`.
pub open spec fn expand(t: Seq<char>, c: TileCoordinate) -> Seq<char>
    decreases t.len(),
{
    if t.len() == 0 {
        Seq::empty()
    } else if starts_with(t, level_pattern()) {
        decimal(c.level as nat) + expand(t.subrange(7, t.len() as int), c)
    } else if starts_with(t, x_pattern()) {
        decimal(c.x as nat) + expand(t.subrange(3, t.len() as int), c)
    } else if starts_with(t, y_pattern()) {
        decimal(c.y as nat) + expand(t.subrange(3, t.len() as int), c)
    } else if c.z is Some && starts_with(t, z_pattern()) {
        decimal(c.z->Some_0 as nat) + expand(t.subrange(3, t.len() as int), c)
    } else {
        seq![t[0]] + expand(t.subrange(1, t.len() as int), c)
    }
}

fn digit(d: u32) -> (r: char)
    requires
        d < 10,
    ensures
        r == digit_char(d as nat),
{
    match d {
        0 => '0',
        1 => '1',
        2 => '2',
        3 => '3',
        4 => '4',
        5 => '5',
        6 => '6',
        7 => '7',
        8 => '8',
        _ => '9',
    }
}

/// Appends the decimal digits of `n`.
fn push_decimal(out: &mut Vec<char>, n: u32)
    ensures
        final(out)@ == old(out)@ + decimal(n as nat),
    decreases n,
{
    if n >= 10 {
        push_decimal(out, n / 10);
    }
    out.push(digit(n % 10));
    proof {
        if n >= 10 {
            assert(old(out)@ + decimal(n as nat) =~= old(out)@ + decimal((n / 10) as nat) + seq![
                digit_char((n % 10) as nat),
            ]);
        } else {
            assert(old(out)@ + decimal(n as nat) =~= old(out)@.push(digit_char(n as nat)));
        }
    }
}

/// Whether `t` holds `p` from position `i` on.
fn matches_at(t: &Vec<char>, i: usize, p: &Vec<char>) -> (r: bool)
    requires
        i <= t@.len(),
    ensures
        r == starts_with(t@.subrange(i as int, t@.len() as int), p@),
{
    let ghost rest = t@.subrange(i as int, t@.len() as int);
    if p.len() > t.len() - i {
        return false;
    }
    let mut k: usize = 0;
    while k < p.len()
        invariant
            i + p@.len() <= t@.len(),
            t@.len() <= usize::MAX,
            k <= p@.len(),
            rest == t@.subrange(i as int, t@.len() as int),
            forall|j: int| 0 <= j < k ==> t@[i + j] == p@[j],
        decreases p.len() - k,
    {
        if t[i + k] != p[k] {
            assert(rest.subrange(0, p@.len() as int)[k as int] != p@[k as int]);
            return false;
        }
        k = k + 1;
    }
    assert(rest.subrange(0, p@.len() as int) =~= p@);
    true
}

/// The URI of the subtree rooted at `root`: the tiling's template with
/// `{level}`, `{x}`, `{y}` (and `{z}` for an octree) replaced by the root's
/// coordinates.
pub fn subtree_uri(tiling: &ImplicitTiling, root: TileCoordinate) -> (r: String)
    ensures
        r@ == expand(tiling.subtrees_uri@, root),
{
    let t = chars_of(tiling.subtrees_uri.as_str());
    let level_p: Vec<char> = vec!['{', 'l', 'e', 'v', 'e', 'l', '}'];
    let x_p: Vec<char> = vec!['{', 'x', '}'];
    let y_p: Vec<char> = vec!['{', 'y', '}'];
    let z_p: Vec<char> = vec!['{', 'z', '}'];
    assert(level_p@ =~= level_pattern());
    assert(x_p@ =~= x_pattern());
    assert(y_p@ =~= y_pattern());
    assert(z_p@ =~= z_pattern());
    let ghost whole = t@;
    let mut out: Vec<char> = Vec::new();
    let mut i: usize = 0;
    assert(whole.subrange(0, whole.len() as int) =~= whole);
    while i < t.len()
        invariant
            whole == t@,
            i <= t@.len(),
            level_p@ == level_pattern(),
            x_p@ == x_pattern(),
            y_p@ == y_pattern(),
            z_p@ == z_pattern(),
            expand(whole, root) == out@ + expand(whole.subrange(i as int, whole.len() as int), root),
        decreases t.len() - i,
    {
        let ghost rest = whole.subrange(i as int, whole.len() as int);
        let ghost before = out@;
        if matches_at(&t, i, &level_p) {
            push_decimal(&mut out, root.level);
            assert(rest.subrange(7, rest.len() as int) =~= whole.subrange(i + 7, whole.len() as int));
            i = i + 7;
        } else if matches_at(&t, i, &x_p) {
            push_decimal(&mut out, root.x);
            assert(rest.subrange(3, rest.len() as int) =~= whole.subrange(i + 3, whole.len() as int));
            i = i + 3;
        } else if matches_at(&t, i, &y_p) {
            push_decimal(&mut out, root.y);
            assert(rest.subrange(3, rest.len() as int) =~= whole.subrange(i + 3, whole.len() as int));
            i = i + 3;
        } else if root.z.is_some() && matches_at(&t, i, &z_p) {
            let z = match root.z {
                Some(v) => v,
                None => 0,
            };
            push_decimal(&mut out, z);
            assert(rest.subrange(3, rest.len() as int) =~= whole.subrange(i + 3, whole.len() as int));
            i = i + 3;
        } else {
            out.push(t[i]);
            assert(rest.subrange(1, rest.len() as int) =~= whole.subrange(i + 1, whole.len() as int));
            assert(out@ =~= before + seq![rest[0]]);
            i = i + 1;
        }
        assert(expand(whole, root) == out@ + expand(whole.subrange(i as int, whole.len() as int), root));
    }
    assert(whole.subrange(i as int, whole.len() as int) =~= Seq::<char>::empty());
    assert(out@ + Seq::<char>::empty() =~= out@);
    string_from_chars(out)
}

} // verus!
