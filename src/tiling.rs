//! The implicit tiling configuration and tile coordinates.

use vstd::prelude::*;

use crate::error::TilingError;
use crate::morton::{branching, child_count, power};

verus! {

/// How a tile is subdivided: into four children (a quadtree, two
/// coordinates) or into eight (an octree, three coordinates).
#[derive(PartialEq, Eq, Structural, Clone, Copy, Debug)]
pub enum SubdivisionScheme {
    Quadtree,
    Octree,
}

/// The implicit subdivision of a tile: the scheme, the depth of one subtree
/// file, the depth of the whole tree, and the template of subtree URIs.
pub struct ImplicitTiling {
    pub subdivision_scheme: SubdivisionScheme,
    pub subtree_levels: u32,
    pub available_levels: u32,
    pub subtrees_uri: String,
}

impl ImplicitTiling {
    /// Both depths are at least one and `N^subtree_levels` fits in 64 bits.
    pub open spec fn wf(&self) -> bool {
        &&& self.subtree_levels >= 1
        &&& self.available_levels >= 1
        &&& power(branching(self.subdivision_scheme), self.subtree_levels as nat) <= u64::MAX
    }

    /// A configuration; `InvalidConfiguration` when a depth is zero,
    /// `ConfigurationOverflow` when `N^subtree_levels` overflows 64 bits.
    pub fn new(
        subdivision_scheme: SubdivisionScheme,
        subtree_levels: u32,
        available_levels: u32,
        subtrees_uri: String,
    ) -> (r: Result<ImplicitTiling, TilingError>)
        ensures
            (subtree_levels == 0 || available_levels == 0) ==> r == Err::<
                ImplicitTiling,
                TilingError,
            >(TilingError::InvalidConfiguration),
            (subtree_levels >= 1 && available_levels >= 1 && power(
                branching(subdivision_scheme),
                subtree_levels as nat,
            ) > u64::MAX) ==> r == Err::<ImplicitTiling, TilingError>(
                TilingError::ConfigurationOverflow,
            ),
            r.is_ok() <==> (subtree_levels >= 1 && available_levels >= 1 && power(
                branching(subdivision_scheme),
                subtree_levels as nat,
            ) <= u64::MAX),
            r matches Ok(t) ==> t.wf() && t.subdivision_scheme == subdivision_scheme
                && t.subtree_levels == subtree_levels && t.available_levels == available_levels
                && t.subtrees_uri@ == subtrees_uri@,
    {
        if subtree_levels == 0 || available_levels == 0 {
            return Err(TilingError::InvalidConfiguration);
        }
        match child_count(subtree_levels, subdivision_scheme) {
            Ok(_) => Ok(ImplicitTiling { subdivision_scheme, subtree_levels, available_levels, subtrees_uri }),
            Err(e) => Err(e),
        }
    }
}

/// A node of the global tree: level 0 is the root; `z` is present for an
/// octree and absent for a quadtree.
#[derive(PartialEq, Eq, Structural, Clone, Copy, Debug)]
pub struct TileCoordinate {
    pub level: u32,
    pub x: u32,
    pub y: u32,
    pub z: Option<u32>,
}

/// The third coordinate, zero when absent.
pub open spec fn z_of(c: TileCoordinate) -> nat {
    match c.z {
        Some(z) => z as nat,
        None => 0,
    }
}

impl TileCoordinate {
    /// The coordinate has the shape of the scheme and lies inside its level's
    /// grid of `2^level` cells along each axis.
    pub open spec fn valid_for(self, scheme: SubdivisionScheme) -> bool {
        &&& (self.z is Some <==> scheme == SubdivisionScheme::Octree)
        &&& self.x < power(2, self.level as nat)
        &&& self.y < power(2, self.level as nat)
        &&& z_of(self) < power(2, self.level as nat)
    }
}

} // verus!
