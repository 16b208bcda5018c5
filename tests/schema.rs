use houtu_3d_tiles::cache::{CacheEntry, ResourceCache};
use houtu_3d_tiles::schema::{
    ArrayOffsetType, ComponentType, Constant, ElementType, Refine, StringOffsetType, ValueType,
};
use houtu_3d_tiles::text::str_eq;
use houtu_3d_tiles::tiling::SubdivisionScheme;

#[test]
fn test_element_type() {
    assert_eq!(ElementType::from_name("SCALAR"), ElementType::SCALAR);
    assert_eq!(ElementType::from_name("VEC2"), ElementType::VEC2);
    assert_eq!(ElementType::from_name("VEC3"), ElementType::VEC3);
    assert_eq!(ElementType::from_name("VEC4"), ElementType::VEC4);
    assert_eq!(ElementType::from_name("MAT2"), ElementType::MAT2);
    assert_eq!(ElementType::from_name("MAT3"), ElementType::MAT3);
    assert_eq!(ElementType::from_name("MAT4"), ElementType::MAT4);
    assert_eq!(ElementType::from_name("STRING"), ElementType::STRING);
    assert_eq!(ElementType::from_name("BOOLEAN"), ElementType::BOOLEAN);
    assert_eq!(ElementType::from_name("ENUM"), ElementType::ENUM);
    assert_eq!(ElementType::from_name("Other"), ElementType::Other("Other".to_string()));
    assert_eq!(ElementType::Other("Other".to_string()).name(), "Other");
    assert_eq!(ElementType::MAT3.name(), "MAT3");
}

#[test]
fn test_component_type() {
    assert_eq!(ComponentType::from_name("INT8"), Some(ComponentType::INT8));
    assert_eq!(ComponentType::from_name("UINT64"), Some(ComponentType::UINT64));
    assert_eq!(ComponentType::from_name("FLOAT32"), Some(ComponentType::FLOAT32));
    assert_eq!(ComponentType::from_name("Other"), None);
    assert_eq!(ComponentType::FLOAT64.name(), "FLOAT64");
}

#[test]
fn test_value_type() {
    assert_eq!(ValueType::from_name("UINT16"), Some(ValueType::UINT16));
    assert_eq!(ValueType::from_name("FLOAT32"), None);
    assert_eq!(ValueType::INT64.name(), "INT64");
}

#[test]
fn test_offset_types() {
    assert_eq!(StringOffsetType::from_name("UINT8"), StringOffsetType::UINT8);
    assert_eq!(StringOffsetType::from_name("UINT32"), StringOffsetType::UINT32);
    assert_eq!(ArrayOffsetType::from_name("UINT64"), ArrayOffsetType::UINT64);
    assert_eq!(ArrayOffsetType::from_name("INT8"), ArrayOffsetType::Other("INT8".to_string()));
    assert_eq!(ArrayOffsetType::UINT16.name(), "UINT16");
}

#[test]
fn refine_and_scheme_names() {
    assert_eq!(Refine::from_name("ADD"), Some(Refine::ADD));
    assert_eq!(Refine::from_name("REPLACE"), Some(Refine::REPLACE));
    assert_eq!(Refine::from_name("add"), None);
    assert_eq!(SubdivisionScheme::from_name("QUADTREE"), Some(SubdivisionScheme::Quadtree));
    assert_eq!(SubdivisionScheme::from_name("OCTREE"), Some(SubdivisionScheme::Octree));
    assert_eq!(SubdivisionScheme::from_name("OCT"), None);
    assert_eq!(SubdivisionScheme::Octree.name(), "OCTREE");
}

#[test]
fn constants_by_code() {
    assert_eq!(Constant::from_code(1), Constant::AVAILABLE);
    assert_eq!(Constant::from_code(0), Constant::UNAVAILABLE);
    assert_eq!(Constant::from_code(7), Constant::Other(7));
    assert_eq!(Constant::Other(-2).code(), -2);
    assert_eq!(Constant::AVAILABLE.code(), 1);
}

#[test]
fn string_equality() {
    assert!(str_eq("abc", "abc"));
    assert!(!str_eq("abc", "abd"));
    assert!(!str_eq("abc", "ab"));
    assert!(str_eq("", ""));
    assert!(str_eq("é✓", "é✓"));
}

#[test]
fn cache_counts_references() {
    let mut cache = ResourceCache::new();
    assert_eq!(cache.get("a"), None);
    assert!(cache.insert("a", "loader-a"));
    assert!(!cache.insert("a", "other"));
    assert!(cache.insert("b", "loader-b"));
    assert_eq!(cache.get("a").map(|s| s.as_str()), Some("loader-a"));
    assert_eq!(cache.get("b").map(|s| s.as_str()), Some("loader-b"));
    assert_eq!(cache.get("c"), None);
    let e = CacheEntry::new("x");
    assert_eq!(e.reference_count, 1);
    assert_eq!(e.resource_loader, "x");
}
