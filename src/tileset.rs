//! Tileset-level checks: the format version and the extensions a tileset
//! requires.

use vstd::prelude::*;

use crate::resource::{url_parses, url_serialization, ResourceError, UrlParts};
use crate::text::str_eq;

verus! {

/// Why a tileset cannot be loaded.
#[derive(PartialEq, Eq, Clone, Debug)]
pub enum TilesetError {
    /// The `asset.version` is not one this library reads.
    UnsupportedVersion(String),
    /// A required extension that this library does not support.
    UnsupportedExtension(String),
}

impl TilesetError {
    /// The version or extension the error names.
    pub open spec fn spec_name(self) -> Seq<char> {
        match self {
            TilesetError::UnsupportedVersion(v) => v@,
            TilesetError::UnsupportedExtension(n) => n@,
        }
    }
}

/// Versions of the tileset format that can be loaded.
pub open spec fn supported_version(v: Seq<char>) -> bool {
    v == "0.0"@ || v == "1.0"@ || v == "1.1"@
}

/// Extensions a tileset may require.
pub open spec fn supported_extension(name: Seq<char>) -> bool {
    name == "3DTILES_metadata"@
        || name == "3DTILES_implicit_tiling"@
        || name == "3DTILES_content_gltf"@
        || name == "3DTILES_multiple_contents"@
        || name == "3DTILES_bounding_volume_S2"@
        || name == "3DTILES_batch_table_hierarchy"@
        || name == "3DTILES_draco_point_compression"@
        || name == "MAXAR_content_geojson"@
}

/// Every required extension is supported.
pub open spec fn all_supported(exts: Seq<String>) -> bool {
    forall|i: int| 0 <= i < exts.len() ==> supported_extension(#[trigger] exts[i]@)
}

/// Position of the first unsupported extension.
pub open spec fn first_unsupported(exts: Seq<String>, i: int) -> bool {
    &&& 0 <= i < exts.len()
    &&& !supported_extension(exts[i]@)
    &&& forall|j: int| 0 <= j < i ==> supported_extension(#[trigger] exts[j]@)
}

/// Whether `name` is a supported extension.
pub fn is_supported_extension(name: &str) -> (r: bool)
    ensures
        r == supported_extension(name@),
{
    str_eq(name, "3DTILES_metadata")
        || str_eq(name, "3DTILES_implicit_tiling")
        || str_eq(name, "3DTILES_content_gltf")
        || str_eq(name, "3DTILES_multiple_contents")
        || str_eq(name, "3DTILES_bounding_volume_S2")
        || str_eq(name, "3DTILES_batch_table_hierarchy")
        || str_eq(name, "3DTILES_draco_point_compression")
        || str_eq(name, "MAXAR_content_geojson")
}

/// Position of the first extension that is not supported, if any.
fn first_unsupported_index(exts: &Vec<String>) -> (r: Option<usize>)
    ensures
        r matches Some(i) ==> first_unsupported(exts@, i as int),
        r is None ==> all_supported(exts@),
{
    let mut i: usize = 0;
    while i < exts.len()
        invariant
            i <= exts@.len(),
            forall|j: int| 0 <= j < i ==> supported_extension(#[trigger] exts@[j]@),
        decreases exts.len() - i,
    {
        if !is_supported_extension(exts[i].as_str()) {
            return Some(i);
        }
        i = i + 1;
    }
    None
}

/// A tileset to load from a base URL.
pub struct HoutuTileset {
    pub base_path: UrlParts,
}

impl HoutuTileset {
    /// A tileset rooted at `url`; `InvalidUrl` when it does not parse.
    pub fn from_url(url: &str) -> (r: Result<HoutuTileset, ResourceError>)
        ensures
            r is Ok <==> url_parses(url@),
            r matches Ok(t) ==> t.base_path.serialization@ == url_serialization(url@),
    {
        match UrlParts::parse(url) {
            Ok(u) => Ok(HoutuTileset { base_path: u }),
            Err(e) => Err(e),
        }
    }

    /// Checks a tileset's `asset.version`: `0.0`, `1.0` and `1.1` are read.
    pub fn check_version(version: &str) -> (r: Result<(), TilesetError>)
        ensures
            r is Ok <==> supported_version(version@),
            r matches Err(e) ==> (e matches TilesetError::UnsupportedVersion(v) && v@ == version@),
    {
        if str_eq(version, "0.0") || str_eq(version, "1.0") || str_eq(version, "1.1") {
            Ok(())
        } else {
            Err(TilesetError::UnsupportedVersion(version.to_owned()))
        }
    }

    /// Checks that every extension a tileset requires is supported; names
    /// the first one that is not.
    pub fn check_supported_extensions(extensions_required: Option<&Vec<String>>) -> (r: Result<
        (),
        TilesetError,
    >)
        ensures
            extensions_required is None ==> r is Ok,
            extensions_required matches Some(exts) ==> (r is Ok <==> all_supported(exts@)),
            extensions_required matches Some(exts) ==> (r matches Err(e) ==> e is UnsupportedExtension
                && exists|i: int| #[trigger] first_unsupported(exts@, i) && exts@[i]@ == e.spec_name()),
    {
        match extensions_required {
            None => Ok(()),
            Some(exts) => match first_unsupported_index(exts) {
                None => Ok(()),
                Some(i) => {
                    let e = TilesetError::UnsupportedExtension(exts[i].clone());
                    assert(first_unsupported(exts@, i as int) && exts@[i as int]@ == e.spec_name());
                    Err(e)
                },
            },
        }
    }

    /// Checks a tileset's version, then its required extensions.
    pub fn load_tileset(&self, version: &str, extensions_required: Option<&Vec<String>>) -> (r: Result<
        (),
        TilesetError,
    >)
        ensures
            r is Ok <==> supported_version(version@) && match extensions_required {
                Some(exts) => all_supported(exts@),
                None => true,
            },
            !supported_version(version@) ==> (r matches Err(e) && e matches TilesetError::UnsupportedVersion(v)
                && v@ == version@),
    {
        match HoutuTileset::check_version(version) {
            Ok(()) => {},
            Err(e) => {
                return Err(e);
            },
        }
        HoutuTileset::check_supported_extensions(extensions_required)
    }
}

} // verus!
