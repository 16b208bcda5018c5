//! Subtree records as they arrive (already parsed from JSON), and their
//! decoding into validated availability over the subtree's buffers.

use vstd::prelude::*;

use crate::bits::{byte_count_for, bytes_for_bits, packed_bit, read_packed};
use crate::error::TilingError;
use crate::morton::{branching, child_count, level_offset, level_offset_of, power};
use crate::tiling::{ImplicitTiling, SubdivisionScheme};

verus! {

/// A buffer record: the binary chunk of the subtree file when `uri` is
/// absent, else an external resource.
pub struct Buffer {
    pub uri: Option<String>,
    pub byte_length: u64,
    pub name: Option<String>,
}

/// A buffer view record: `byte_length` bytes of buffer `buffer` from
/// `byte_offset` on.
pub struct BufferView {
    pub buffer: u64,
    pub byte_offset: u64,
    pub byte_length: u64,
    pub name: Option<String>,
}

/// An availability record: a bitstream (a buffer view index) or a constant.
#[derive(PartialEq, Eq, Structural, Clone, Copy, Debug)]
pub struct Availability {
    pub bitstream: Option<u64>,
    pub available_count: Option<u64>,
    pub constant: Option<bool>,
}

/// A subtree record as parsed from its JSON header.
pub struct Subtree {
    pub buffers: Vec<Buffer>,
    pub buffer_views: Vec<BufferView>,
    pub tile_availability: Availability,
    pub content_availability: Vec<Availability>,
    pub child_subtree_availability: Availability,
    pub tile_metadata: Option<u64>,
    pub content_metadata: Vec<u64>,
}

/// Availability after decoding: one answer for all, or the packed bits of a
/// byte range.
#[derive(PartialEq, Eq, Structural, Clone, Copy, Debug)]
pub enum ResolvedAvailability {
    Constant(bool),
    Bitstream(usize),
}

/// A validated buffer view: `len` bytes of buffer `buffer` from `start` on.
#[derive(PartialEq, Eq, Structural, Clone, Copy, Debug)]
pub struct ByteRange {
    pub buffer: usize,
    pub start: usize,
    pub len: usize,
}

/// The buffer view lies inside a buffer that exists.
pub open spec fn view_fits(v: BufferView, buffers: Seq<Vec<u8>>) -> bool {
    &&& v.buffer < buffers.len()
    &&& v.byte_offset + v.byte_length <= buffers[v.buffer as int]@.len()
}

/// Every buffer view lies inside a buffer that exists.
pub open spec fn all_views_fit(views: Seq<BufferView>, buffers: Seq<Vec<u8>>) -> bool {
    forall|k: int| 0 <= k < views.len() ==> #[trigger] view_fits(views[k], buffers)
}

/// The byte range of a buffer view record.
pub open spec fn range_of(v: BufferView) -> ByteRange {
    ByteRange { buffer: v.buffer as usize, start: v.byte_offset as usize, len: v.byte_length as usize }
}

/// The byte range of a buffer view record holds its numbers unchanged.
pub open spec fn range_exact(v: BufferView) -> bool {
    &&& range_of(v).buffer as int == v.buffer as int
    &&& range_of(v).start as int == v.byte_offset as int
    &&& range_of(v).len as int == v.byte_length as int
}

/// Every byte range lies inside a buffer that exists.
pub open spec fn ranges_fit(ranges: Seq<ByteRange>, buffers: Seq<Vec<u8>>) -> bool {
    forall|k: int|
        0 <= k < ranges.len() ==> {
            &&& (#[trigger] ranges[k]).buffer < buffers.len()
            &&& ranges[k].start + ranges[k].len <= buffers[ranges[k].buffer as int]@.len()
        }
}

/// How an availability record of `bits` elements resolves against the
/// buffer views.
pub open spec fn resolve_spec(a: Availability, views: Seq<BufferView>, bits: nat) -> Result<
    ResolvedAvailability,
    TilingError,
> {
    match a.bitstream {
        Some(i) => {
            if a.constant is Some {
                Err(TilingError::AmbiguousAvailability)
            } else if i >= views.len() {
                Err(TilingError::BufferViewIndexOutOfRange)
            } else if (views[i as int].byte_length as nat) < bytes_for_bits(bits) {
                Err(TilingError::MisalignedBufferView)
            } else {
                Ok(ResolvedAvailability::Bitstream(i as usize))
            }
        },
        None => match a.constant {
            Some(c) => Ok(ResolvedAvailability::Constant(c)),
            None => Err(TilingError::MissingAvailability),
        },
    }
}

/// How a list of availability records resolves: the first failing record
/// decides the error.
pub open spec fn resolve_all_spec(cs: Seq<Availability>, views: Seq<BufferView>, bits: nat) -> Result<
    Seq<ResolvedAvailability>,
    TilingError,
>
    decreases cs.len(),
{
    if cs.len() == 0 {
        Ok(Seq::empty())
    } else {
        match resolve_all_spec(cs.drop_last(), views, bits) {
            Err(e) => Err(e),
            Ok(rest) => match resolve_spec(cs.last(), views, bits) {
                Err(e) => Err(e),
                Ok(r) => Ok(rest.push(r)),
            },
        }
    }
}

/// A resolved availability of `bits` elements can be read over `ranges`.
pub open spec fn readable(a: ResolvedAvailability, ranges: Seq<ByteRange>, bits: nat) -> bool {
    match a {
        ResolvedAvailability::Constant(_) => true,
        ResolvedAvailability::Bitstream(v) => v < ranges.len() && bytes_for_bits(bits)
            <= ranges[v as int].len,
    }
}

/// Element `i` of a resolved availability.
pub open spec fn availability_bit(
    buffers: Seq<Vec<u8>>,
    ranges: Seq<ByteRange>,
    a: ResolvedAvailability,
    i: int,
) -> bool {
    match a {
        ResolvedAvailability::Constant(c) => c,
        ResolvedAvailability::Bitstream(v) => packed_bit(
            buffers[ranges[v as int].buffer as int]@,
            ranges[v as int].start as int,
            i,
        ),
    }
}

/// Resolves one availability record of `bits` elements.
fn resolve_availability(a: Availability, views: &Vec<BufferView>, bits: u64) -> (r: Result<
    ResolvedAvailability,
    TilingError,
>)
    ensures
        r == resolve_spec(a, views@, bits as nat),
{
    match a.bitstream {
        Some(i) => {
            if a.constant.is_some() {
                Err(TilingError::AmbiguousAvailability)
            } else if i >= views.len() as u64 {
                Err(TilingError::BufferViewIndexOutOfRange)
            } else if views[i as usize].byte_length < byte_count_for(bits) {
                Err(TilingError::MisalignedBufferView)
            } else {
                Ok(ResolvedAvailability::Bitstream(i as usize))
            }
        },
        None => match a.constant {
            Some(c) => Ok(ResolvedAvailability::Constant(c)),
            None => Err(TilingError::MissingAvailability),
        },
    }
}

proof fn lemma_resolve_all_prefix(cs: Seq<Availability>, views: Seq<BufferView>, bits: nat, k: int)
    requires
        0 <= k <= cs.len(),
        resolve_all_spec(cs.subrange(0, k), views, bits) is Err,
    ensures
        resolve_all_spec(cs, views, bits) == resolve_all_spec(cs.subrange(0, k), views, bits),
    decreases cs.len() - k,
{
    if k < cs.len() {
        let next = cs.subrange(0, k + 1);
        assert(next.drop_last() =~= cs.subrange(0, k));
        lemma_resolve_all_prefix(cs, views, bits, k + 1);
    } else {
        assert(cs.subrange(0, k) =~= cs);
    }
}

/// Resolves every content availability record, stopping at the first failure.
fn resolve_all(cs: &Vec<Availability>, views: &Vec<BufferView>, bits: u64) -> (r: Result<
    Vec<ResolvedAvailability>,
    TilingError,
>)
    ensures
        match resolve_all_spec(cs@, views@, bits as nat) {
            Ok(s) => r matches Ok(v) && v@ == s,
            Err(e) => r == Err::<Vec<ResolvedAvailability>, TilingError>(e),
        },
{
    let mut out: Vec<ResolvedAvailability> = Vec::new();
    let mut k: usize = 0;
    assert(cs@.subrange(0, 0) =~= Seq::<Availability>::empty());
    while k < cs.len()
        invariant
            k <= cs@.len(),
            resolve_all_spec(cs@.subrange(0, k as int), views@, bits as nat) == Ok::<
                Seq<ResolvedAvailability>,
                TilingError,
            >(out@),
        decreases cs.len() - k,
    {
        let ghost next = cs@.subrange(0, k as int + 1);
        assert(next.drop_last() =~= cs@.subrange(0, k as int));
        assert(next.last() == cs@[k as int]);
        match resolve_availability(cs[k], views, bits) {
            Ok(a) => {
                out.push(a);
                k = k + 1;
            },
            Err(e) => {
                proof {
                    lemma_resolve_all_prefix(cs@, views@, bits as nat, k as int + 1);
                }
                return Err(e);
            },
        }
    }
    assert(cs@.subrange(0, k as int) =~= cs@);
    Ok(out)
}

/// Checks that every buffer view lies inside its buffer, and gives their
/// byte ranges.
fn check_views(views: &Vec<BufferView>, buffers: &Vec<Vec<u8>>) -> (r: Option<Vec<ByteRange>>)
    ensures
        r is Some <==> all_views_fit(views@, buffers@),
        r matches Some(v) ==> v@ == views@.map_values(|w: BufferView| range_of(w)),
        r is Some ==> ranges_fit(views@.map_values(|w: BufferView| range_of(w)), buffers@),
        r is Some ==> forall|k: int| 0 <= k < views@.len() ==> #[trigger] range_exact(views@[k]),
        views@.len() <= usize::MAX,
{
    let mut out: Vec<ByteRange> = Vec::new();
    let mut k: usize = 0;
    while k < views.len()
        invariant
            k <= views@.len(),
            forall|j: int| 0 <= j < k ==> #[trigger] view_fits(views@[j], buffers@),
            out@ == views@.subrange(0, k as int).map_values(|w: BufferView| range_of(w)),
            ranges_fit(out@, buffers@),
            forall|j: int| 0 <= j < k ==> #[trigger] range_exact(views@[j]),
        decreases views.len() - k,
    {
        let v = &views[k];
        let fits = v.buffer < buffers.len() as u64 && v.byte_offset <= buffers[v.buffer as usize].len() as u64
            && v.byte_length <= buffers[v.buffer as usize].len() as u64 - v.byte_offset;
        if !fits {
            assert(!view_fits(views@[k as int], buffers@));
            return None;
        }
        out.push(ByteRange { buffer: v.buffer as usize, start: v.byte_offset as usize, len: v.byte_length as usize });
        proof {
            assert(views@.subrange(0, k as int + 1).map_values(|w: BufferView| range_of(w)) =~= views@.subrange(
                0,
                k as int,
            ).map_values(|w: BufferView| range_of(w)).push(range_of(views@[k as int])));
        }
        k = k + 1;
    }
    assert(views@.subrange(0, k as int) =~= views@);
    Some(out)
}

proof fn lemma_resolved_readable(a: Availability, views: Seq<BufferView>, bits: nat)
    requires
        resolve_spec(a, views, bits) is Ok,
        views.len() <= usize::MAX,
        forall|k: int| 0 <= k < views.len() ==> #[trigger] range_exact(views[k]),
    ensures
        readable(
            resolve_spec(a, views, bits)->Ok_0,
            views.map_values(|w: BufferView| range_of(w)),
            bits,
        ),
{
    if let Some(i) = a.bitstream {
        assert(range_exact(views[i as int]));
        assert(views.map_values(|w: BufferView| range_of(w))[i as int] == range_of(views[i as int]));
    }
}

proof fn lemma_resolve_all_items(cs: Seq<Availability>, views: Seq<BufferView>, bits: nat)
    requires
        resolve_all_spec(cs, views, bits) is Ok,
    ensures
        resolve_all_spec(cs, views, bits)->Ok_0.len() == cs.len(),
        forall|k: int|
            0 <= k < cs.len() ==> resolve_spec(#[trigger] cs[k], views, bits) == Ok::<
                ResolvedAvailability,
                TilingError,
            >(resolve_all_spec(cs, views, bits)->Ok_0[k]),
    decreases cs.len(),
{
    if cs.len() > 0 {
        lemma_resolve_all_items(cs.drop_last(), views, bits);
        assert forall|k: int| 0 <= k < cs.len() - 1 implies cs[k] == cs.drop_last()[k] by {}
    }
}

/// The tile at local level `l` with Morton index `m`, when available, has an
/// available parent.
pub open spec fn parent_available(
    buffers: Seq<Vec<u8>>,
    ranges: Seq<ByteRange>,
    a: ResolvedAvailability,
    n: nat,
    l: nat,
    m: nat,
) -> bool {
    availability_bit(buffers, ranges, a, (level_offset_of(n, l) + m) as int) ==> availability_bit(
        buffers,
        ranges,
        a,
        (level_offset_of(n, (l - 1) as nat) + m / n) as int,
    )
}

/// Every available non-root tile of a subtree of `levels` levels has an
/// available parent.
pub open spec fn parents_available(
    buffers: Seq<Vec<u8>>,
    ranges: Seq<ByteRange>,
    a: ResolvedAvailability,
    n: nat,
    levels: nat,
) -> bool {
    forall|l: nat, m: nat|
        1 <= l < levels && m < power(n, l) ==> #[trigger] parent_available(buffers, ranges, a, n, l, m)
}

/// The element `i` can be read: a constant, or a bit inside its byte range.
pub open spec fn in_range(ranges: Seq<ByteRange>, a: ResolvedAvailability, i: int) -> bool {
    match a {
        ResolvedAvailability::Constant(_) => true,
        ResolvedAvailability::Bitstream(v) => v < ranges.len() && 0 <= i && i / 8 < ranges[v as int].len,
    }
}

/// Element `i` of a resolved availability.
pub fn read_availability(
    buffers: &Vec<Vec<u8>>,
    ranges: &Vec<ByteRange>,
    a: ResolvedAvailability,
    i: u64,
) -> (r: bool)
    requires
        ranges_fit(ranges@, buffers@),
        in_range(ranges@, a, i as int),
    ensures
        r == availability_bit(buffers@, ranges@, a, i as int),
{
    match a {
        ResolvedAvailability::Constant(c) => c,
        ResolvedAvailability::Bitstream(v) => {
            let range = ranges[v];
            assert(ranges@[v as int] == range);
            read_packed(&buffers[range.buffer], range.start, i)
        },
    }
}

/// Deeper levels start further into the tile bitstream.
pub proof fn lemma_level_offset_monotone(n: nat, a: nat, b: nat)
    requires
        a <= b,
    ensures
        level_offset_of(n, a) <= level_offset_of(n, b),
    decreases b,
{
    if a < b {
        lemma_level_offset_monotone(n, a, (b - 1) as nat);
    }
}

proof fn lemma_bit_in_bytes(i: nat, bits: nat)
    requires
        i < bits,
    ensures
        i / 8 < bytes_for_bits(bits),
{
}

/// Checks that every available non-root tile has an available parent.
fn check_parents(
    buffers: &Vec<Vec<u8>>,
    ranges: &Vec<ByteRange>,
    a: ResolvedAvailability,
    n: u64,
    levels: u32,
) -> (r: bool)
    requires
        ranges_fit(ranges@, buffers@),
        readable(a, ranges@, level_offset_of(n as nat, levels as nat)),
        n == 4 || n == 8,
        power(n as nat, levels as nat) <= u64::MAX,
        levels >= 1,
    ensures
        r == parents_available(buffers@, ranges@, a, n as nat, levels as nat),
{
    let ghost total = level_offset_of(n as nat, levels as nat);
    proof {
        crate::morton::lemma_level_offset_closed_form(n as nat, levels as nat);
        assert(total <= total * ((n - 1) as nat)) by (nonlinear_arith)
            requires
                n >= 2,
        ;
    }
    if let ResolvedAvailability::Constant(_) = a {
        return true;
    }
    let mut l: u32 = 1;
    let mut prev: u64 = 0;
    let mut off: u64 = 1;
    let mut count: u64 = n;
    assert(level_offset_of(n as nat, 1) == level_offset_of(n as nat, 0) + power(n as nat, 0));
    assert(power(n as nat, 1) == n * power(n as nat, 0));
    while l < levels
        invariant
            1 <= l <= levels,
            n == 4 || n == 8,
            ranges_fit(ranges@, buffers@),
            readable(a, ranges@, total),
            a is Bitstream,
            total == level_offset_of(n as nat, levels as nat),
            total < u64::MAX,
            power(n as nat, levels as nat) <= u64::MAX,
            prev as nat == level_offset_of(n as nat, (l - 1) as nat),
            off as nat == level_offset_of(n as nat, l as nat),
            count as nat == power(n as nat, l as nat),
            forall|l2: nat, m2: nat|
                1 <= l2 < l && m2 < power(n as nat, l2) ==> #[trigger] parent_available(
                    buffers@,
                    ranges@,
                    a,
                    n as nat,
                    l2,
                    m2,
                ),
        decreases levels - l,
    {
        proof {
            lemma_level_offset_monotone(n as nat, (l + 1) as nat, levels as nat);
            crate::morton::lemma_power_positive(n as nat, (l - 1) as nat);
        }
        assert(level_offset_of(n as nat, (l + 1) as nat) == off + count);
        assert(count as nat == n * power(n as nat, (l - 1) as nat));
        let mut m: u64 = 0;
        while m < count
            invariant
                1 <= l < levels,
                n == 4 || n == 8,
                ranges_fit(ranges@, buffers@),
                readable(a, ranges@, total),
                a is Bitstream,
                total == level_offset_of(n as nat, levels as nat),
                total < u64::MAX,
                off + count <= total,
                prev as nat == level_offset_of(n as nat, (l - 1) as nat),
                off as nat == level_offset_of(n as nat, l as nat),
                off as nat == prev + power(n as nat, (l - 1) as nat),
                count as nat == power(n as nat, l as nat),
                count as nat == n * power(n as nat, (l - 1) as nat),
                m <= count,
                forall|m2: nat| m2 < m ==> #[trigger] parent_available(buffers@, ranges@, a, n as nat, l as nat, m2),
            decreases count - m,
        {
            proof {
                lemma_bit_in_bytes((off + m) as nat, total);
            }
            let child = read_availability(buffers, ranges, a, off + m);
            if child {
                let ghost p = power(n as nat, (l - 1) as nat);
                assert(m / n < p) by (nonlinear_arith)
                    requires
                        m < n * p,
                        n >= 4,
                ;
                proof {
                    lemma_bit_in_bytes((prev + m / n) as nat, total);
                }
                let parent = read_availability(buffers, ranges, a, prev + m / n);
                if !parent {
                    assert(!parent_available(buffers@, ranges@, a, n as nat, l as nat, m as nat));
                    return false;
                }
            }
            assert(parent_available(buffers@, ranges@, a, n as nat, l as nat, m as nat));
            m = m + 1;
        }
        proof {
            crate::morton::lemma_power_increases(n as nat, (l + 1) as nat, levels as nat);
        }
        assert(power(n as nat, (l + 1) as nat) == n * count);
        prev = off;
        off = off + count;
        count = count * n;
        l = l + 1;
    }
    true
}

/// A decoded subtree: its buffers, validated byte ranges, and the tile,
/// content and child subtree availability over them.
pub struct DecodedSubtree {
    pub scheme: SubdivisionScheme,
    pub subtree_levels: u32,
    pub buffers: Vec<Vec<u8>>,
    pub views: Vec<ByteRange>,
    pub tile_availability: ResolvedAvailability,
    pub content_availability: Vec<ResolvedAvailability>,
    pub child_subtree_availability: ResolvedAvailability,
    pub tile_metadata: Option<u64>,
    pub content_metadata: Vec<u64>,
}

/// Number of tiles in a subtree of `levels` levels: `(N^levels - 1) / (N - 1)`.
pub open spec fn tile_bit_count(scheme: SubdivisionScheme, levels: nat) -> nat {
    level_offset_of(branching(scheme), levels)
}

/// Number of possible child subtrees below a subtree of `levels` levels: `N^levels`.
pub open spec fn child_bit_count(scheme: SubdivisionScheme, levels: nat) -> nat {
    power(branching(scheme), levels)
}

impl DecodedSubtree {
    /// Tile availability element `i`.
    pub open spec fn tile_bit(&self, i: int) -> bool {
        availability_bit(self.buffers@, self.views@, self.tile_availability, i)
    }

    /// Element `i` of content slot `slot`.
    pub open spec fn content_bit(&self, slot: int, i: int) -> bool {
        availability_bit(self.buffers@, self.views@, self.content_availability@[slot], i)
    }

    /// Child subtree availability element `i`.
    pub open spec fn child_bit(&self, i: int) -> bool {
        availability_bit(self.buffers@, self.views@, self.child_subtree_availability, i)
    }

    /// Everything that decoding checked still holds.
    pub open spec fn wf(&self) -> bool {
        let levels = self.subtree_levels as nat;
        let tiles = tile_bit_count(self.scheme, levels);
        &&& levels >= 1
        &&& power(branching(self.scheme), levels) <= u64::MAX
        &&& ranges_fit(self.views@, self.buffers@)
        &&& readable(self.tile_availability, self.views@, tiles)
        &&& self.tile_availability != ResolvedAvailability::Constant(false)
        &&& forall|k: int|
            0 <= k < self.content_availability@.len() ==> readable(
                #[trigger] self.content_availability@[k],
                self.views@,
                tiles,
            )
        &&& readable(self.child_subtree_availability, self.views@, child_bit_count(self.scheme, levels))
        &&& parents_available(
            self.buffers@,
            self.views@,
            self.tile_availability,
            branching(self.scheme),
            levels,
        )
    }
}

/// The outcome of decoding `header` over `buffers` for a subtree of `levels`
/// levels. The checks run in this order and the first failure decides:
/// buffer views inside their buffers; tile availability; tile availability
/// not the constant `false`; each content availability in order; child
/// subtree availability; every available tile's parent available.
pub open spec fn decode_check(
    scheme: SubdivisionScheme,
    levels: nat,
    header: Subtree,
    buffers: Seq<Vec<u8>>,
) -> Result<(), TilingError> {
    let views = header.buffer_views@;
    let tiles = tile_bit_count(scheme, levels);
    if !all_views_fit(views, buffers) {
        Err(TilingError::BufferIndexOutOfRange)
    } else {
        match resolve_spec(header.tile_availability, views, tiles) {
            Err(e) => Err(e),
            Ok(t) => {
                if t == ResolvedAvailability::Constant(false) {
                    Err(TilingError::ConstantFalseTileAvailability)
                } else {
                    match resolve_all_spec(header.content_availability@, views, tiles) {
                        Err(e) => Err(e),
                        Ok(_) => match resolve_spec(
                            header.child_subtree_availability,
                            views,
                            child_bit_count(scheme, levels),
                        ) {
                            Err(e) => Err(e),
                            Ok(_) => {
                                if parents_available(
                                    buffers,
                                    views.map_values(|w: BufferView| range_of(w)),
                                    t,
                                    branching(scheme),
                                    levels,
                                ) {
                                    Ok(())
                                } else {
                                    Err(TilingError::InconsistentAvailability)
                                }
                            },
                        },
                    }
                }
            },
        }
    }
}

/// Of a subtree whose records are well formed, decoding succeeds exactly
/// when every available tile's parent is available; otherwise it fails with
/// `InconsistentAvailability`, a consistency error.
pub proof fn lemma_decode_consistency(
    scheme: SubdivisionScheme,
    levels: nat,
    header: Subtree,
    buffers: Seq<Vec<u8>>,
)
    requires
        all_views_fit(header.buffer_views@, buffers),
        resolve_spec(header.tile_availability, header.buffer_views@, tile_bit_count(scheme, levels)) is Ok,
        resolve_spec(header.tile_availability, header.buffer_views@, tile_bit_count(scheme, levels))->Ok_0
            != ResolvedAvailability::Constant(false),
        resolve_all_spec(header.content_availability@, header.buffer_views@, tile_bit_count(scheme, levels)) is Ok,
        resolve_spec(header.child_subtree_availability, header.buffer_views@, child_bit_count(scheme, levels)) is Ok,
    ensures
        decode_check(scheme, levels, header, buffers) is Ok <==> parents_available(
            buffers,
            header.buffer_views@.map_values(|w: BufferView| range_of(w)),
            resolve_spec(header.tile_availability, header.buffer_views@, tile_bit_count(scheme, levels))->Ok_0,
            branching(scheme),
            levels,
        ),
        decode_check(scheme, levels, header, buffers) is Err ==> decode_check(scheme, levels, header, buffers)
            == Err::<(), TilingError>(TilingError::InconsistentAvailability),
        TilingError::InconsistentAvailability.spec_kind() == crate::error::ErrorKind::Consistency,
{
}

/// Decodes a subtree record over its buffers' bytes (`buffers[i]` holds the
/// bytes of buffer `i`) for the tiling `tiling`.
pub fn decode(tiling: &ImplicitTiling, header: &Subtree, buffers: Vec<Vec<u8>>) -> (r: Result<
    DecodedSubtree,
    TilingError,
>)
    requires
        tiling.wf(),
    ensures
        match decode_check(tiling.subdivision_scheme, tiling.subtree_levels as nat, *header, buffers@) {
            Err(e) => r == Err::<DecodedSubtree, TilingError>(e),
            Ok(_) => r is Ok,
        },
        r matches Ok(d) ==> {
            let views = header.buffer_views@;
            let tiles = tile_bit_count(tiling.subdivision_scheme, tiling.subtree_levels as nat);
            &&& d.wf()
            &&& d.scheme == tiling.subdivision_scheme
            &&& d.subtree_levels == tiling.subtree_levels
            &&& d.buffers@ == buffers@
            &&& d.views@ == views.map_values(|w: BufferView| range_of(w))
            &&& resolve_spec(header.tile_availability, views, tiles) == Ok::<
                ResolvedAvailability,
                TilingError,
            >(d.tile_availability)
            &&& resolve_all_spec(header.content_availability@, views, tiles) == Ok::<
                Seq<ResolvedAvailability>,
                TilingError,
            >(d.content_availability@)
            &&& resolve_spec(
                header.child_subtree_availability,
                views,
                child_bit_count(tiling.subdivision_scheme, tiling.subtree_levels as nat),
            ) == Ok::<ResolvedAvailability, TilingError>(d.child_subtree_availability)
            &&& d.tile_metadata == header.tile_metadata
            &&& d.content_metadata@ == header.content_metadata@
        },
{
    let scheme = tiling.subdivision_scheme;
    let levels = tiling.subtree_levels;
    let n = crate::morton::branching_factor(scheme);
    proof {
        crate::morton::lemma_level_offset_closed_form(n as nat, levels as nat);
        assert(level_offset_of(n as nat, levels as nat) <= level_offset_of(n as nat, levels as nat) * ((n
            - 1) as nat)) by (nonlinear_arith)
            requires
                n >= 2,
        ;
    }
    let tiles = match level_offset(levels, scheme) {
        Ok(t) => t,
        Err(e) => {
            return Err(e);
        },
    };
    let children = match child_count(levels, scheme) {
        Ok(c) => c,
        Err(e) => {
            return Err(e);
        },
    };
    let views = &header.buffer_views;
    let ranges = match check_views(views, &buffers) {
        Some(r) => r,
        None => {
            return Err(TilingError::BufferIndexOutOfRange);
        },
    };
    let tile = match resolve_availability(header.tile_availability, views, tiles) {
        Ok(t) => t,
        Err(e) => {
            return Err(e);
        },
    };
    if tile == ResolvedAvailability::Constant(false) {
        return Err(TilingError::ConstantFalseTileAvailability);
    }
    let contents = match resolve_all(&header.content_availability, views, tiles) {
        Ok(c) => c,
        Err(e) => {
            return Err(e);
        },
    };
    let child = match resolve_availability(header.child_subtree_availability, views, children) {
        Ok(c) => c,
        Err(e) => {
            return Err(e);
        },
    };
    proof {
        lemma_resolved_readable(header.tile_availability, views@, tiles as nat);
        lemma_resolved_readable(header.child_subtree_availability, views@, children as nat);
        lemma_resolve_all_items(header.content_availability@, views@, tiles as nat);
        assert forall|k: int| 0 <= k < contents@.len() implies readable(
            #[trigger] contents@[k],
            ranges@,
            tiles as nat,
        ) by {
            assert(resolve_spec(header.content_availability@[k], views@, tiles as nat) is Ok);
            lemma_resolved_readable(header.content_availability@[k], views@, tiles as nat);
        }
    }
    if !check_parents(&buffers, &ranges, tile, n, levels) {
        return Err(TilingError::InconsistentAvailability);
    }
    let tile_metadata = header.tile_metadata;
    let content_metadata = header.content_metadata.clone();
    Ok(DecodedSubtree {
        scheme,
        subtree_levels: levels,
        buffers,
        views: ranges,
        tile_availability: tile,
        content_availability: contents,
        child_subtree_availability: child,
        tile_metadata,
        content_metadata,
    })
}

/// The little-endian unsigned integer in the `n` bytes of `b` from `at` on.
pub open spec fn le_value(b: Seq<u8>, at: int, n: nat) -> nat
    decreases n,
{
    if n == 0 {
        0
    } else {
        b[at] as nat + 256 * le_value(b, at + 1, (n - 1) as nat)
    }
}

proof fn lemma_le_value_bound(b: Seq<u8>, at: int, n: nat)
    ensures
        le_value(b, at, n) < power(256, n),
    decreases n,
{
    if n > 0 {
        lemma_le_value_bound(b, at + 1, (n - 1) as nat);
        let rest = le_value(b, at + 1, (n - 1) as nat);
        let p = power(256, (n - 1) as nat);
        assert(b[at] as nat + 256 * rest < 256 * p) by (nonlinear_arith)
            requires
                rest < p,
                b[at] < 256,
        ;
    }
}

/// Reads the little-endian integer in `bytes[at .. at + n]`, `n <= 8`.
fn read_le(bytes: &Vec<u8>, at: usize, n: usize) -> (r: u64)
    requires
        n <= 8,
        at + n <= bytes@.len(),
    ensures
        r as nat == le_value(bytes@, at as int, n as nat),
{
    proof {
        lemma_le_value_bound(bytes@, at as int, n as nat);
        crate::morton::lemma_power_increases(256, n as nat, 8);
        assert(power(256, 8) == 0x1_0000_0000_0000_0000) by {
            reveal_with_fuel(power, 9);
        }
    }
    let total: usize = bytes.len();
    let mut v: u64 = 0;
    let mut k: usize = n;
    while k > 0
        invariant
            k <= n <= 8,
            at + n <= bytes@.len(),
            bytes@.len() == total,
            le_value(bytes@, at as int, n as nat) < 0x1_0000_0000_0000_0000,
            le_value(bytes@, at as int, n as nat) == le_value(bytes@, at as int, k as nat) + power(
                256,
                k as nat,
            ) * v,
        decreases k,
    {
        let ghost low = le_value(bytes@, at as int, (k - 1) as nat);
        proof {
            lemma_le_split(bytes@, at as int, (k - 1) as nat);
            lemma_le_value_bound(bytes@, at as int, (k - 1) as nat);
            crate::morton::lemma_power_positive(256, (k - 1) as nat);
        }
        let b = bytes[at + k - 1];
        let ghost p = power(256, (k - 1) as nat);
        assert(power(256, k as nat) == 256 * p);
        assert(le_value(bytes@, at as int, n as nat) == low + p * (b + 256 * v)) by (nonlinear_arith)
            requires
                le_value(bytes@, at as int, n as nat) == le_value(bytes@, at as int, k as nat) + (256 * p) * v,
                le_value(bytes@, at as int, k as nat) == low + p * b,
        ;
        assert(b + 256 * v <= le_value(bytes@, at as int, n as nat)) by (nonlinear_arith)
            requires
                le_value(bytes@, at as int, n as nat) == low + p * (b + 256 * v),
                p >= 1,
                low >= 0,
        ;
        assert(v * 256 + b == b + 256 * v);
        v = v * 256 + b as u64;
        k = k - 1;
    }
    assert(le_value(bytes@, at as int, 0) == 0);
    assert(power(256, 0) == 1);
    assert(power(256, 0) * v == v) by (nonlinear_arith)
        requires
            power(256, 0) == 1,
    ;
    v
}

proof fn lemma_le_split(b: Seq<u8>, at: int, n: nat)
    ensures
        le_value(b, at, n + 1) == le_value(b, at, n) + power(256, n) * b[at + n],
    decreases n,
{
    if n == 0 {
        assert(le_value(b, at, 1) == b[at] as nat + 256 * le_value(b, at + 1, 0));
        assert(power(256, 0) == 1);
    } else {
        lemma_le_split(b, at + 1, (n - 1) as nat);
        let p = power(256, (n - 1) as nat);
        assert(power(256, n) == 256 * p);
        assert(le_value(b, at, n + 1) == b[at] as nat + 256 * le_value(b, at + 1, n));
        assert(le_value(b, at, n) == b[at] as nat + 256 * le_value(b, at + 1, (n - 1) as nat));
        assert(le_value(b, at + 1, n) == le_value(b, at + 1, (n - 1) as nat) + p * b[at + 1 + (n - 1)]);
        assert(at + 1 + (n - 1) == at + n);
        assert(256 * (le_value(b, at + 1, (n - 1) as nat) + p * b[at + n]) == 256 * le_value(
            b,
            at + 1,
            (n - 1) as nat,
        ) + (256 * p) * b[at + n]) by (nonlinear_arith);
    }
}

/// Where the JSON and binary chunks of a binary subtree file lie.
#[derive(PartialEq, Eq, Structural, Clone, Copy, Debug)]
pub struct SubtreeChunks {
    pub json_start: usize,
    pub json_len: usize,
    pub binary_start: usize,
    pub binary_len: usize,
}

/// The magic number `subt` that starts a binary subtree file.
pub const SUBTREE_MAGIC: u64 = 0x7462_7573;

/// A binary subtree file: 24 header bytes (magic `subt`, version 1, JSON
/// chunk length and binary chunk length, little-endian), then both chunks.
pub open spec fn subtree_file_ok(b: Seq<u8>) -> bool {
    &&& b.len() >= 24
    &&& le_value(b, 0, 4) == SUBTREE_MAGIC
    &&& le_value(b, 4, 4) == 1
    &&& 24 + le_value(b, 8, 8) + le_value(b, 16, 8) <= b.len()
}

/// Splits a binary subtree file into its JSON and binary chunks;
/// `InvalidSubtreeFile` when its header is wrong or the chunks do not fit.
pub fn split_subtree_file(bytes: &Vec<u8>) -> (r: Result<SubtreeChunks, TilingError>)
    ensures
        r is Ok <==> subtree_file_ok(bytes@),
        r is Err ==> r == Err::<SubtreeChunks, TilingError>(TilingError::InvalidSubtreeFile),
        r matches Ok(c) ==> c.json_start == 24 && c.json_len == le_value(bytes@, 8, 8)
            && c.binary_start == 24 + c.json_len && c.binary_len == le_value(bytes@, 16, 8),
{
    let n = bytes.len();
    if n < 24 {
        return Err(TilingError::InvalidSubtreeFile);
    }
    let magic = read_le(bytes, 0, 4);
    let version = read_le(bytes, 4, 4);
    let json_len = read_le(bytes, 8, 8);
    let binary_len = read_le(bytes, 16, 8);
    if magic != SUBTREE_MAGIC || version != 1 {
        return Err(TilingError::InvalidSubtreeFile);
    }
    let room = (n - 24) as u64;
    if json_len > room || binary_len > room - json_len {
        return Err(TilingError::InvalidSubtreeFile);
    }
    Ok(SubtreeChunks {
        json_start: 24,
        json_len: json_len as usize,
        binary_start: 24 + json_len as usize,
        binary_len: binary_len as usize,
    })
}

} // verus!
