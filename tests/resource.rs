use houtu_3d_tiles::cache::{get_external_resource_cache_key, ResourceCacheKey};
use houtu_3d_tiles::resource::{get_absolute_uri, HoutuNetworkResource, ResourceBuilder, ResourceError, UrlParts};
use houtu_3d_tiles::style::{ColorProperty, ShowProperty};
use houtu_3d_tiles::tileset::{HoutuTileset, TilesetError};

#[test]
fn test_resource_extension() {
    let resource = ResourceBuilder::new("http://www.test.com/abc.jpg").build().unwrap();
    assert_eq!(resource.extension(), "jpg");

    let resource = ResourceBuilder::new("http://www.test.com/edf").build().unwrap();
    assert_eq!(resource.extension(), "");

    let resource = ResourceBuilder::new("http://www.test.com/fgh.").build().unwrap();
    assert_eq!(resource.extension(), "");

    let resource = ResourceBuilder::new("http://www.test.com/ijk.jpg?abc=123").build().unwrap();
    assert_eq!(resource.extension(), "jpg");

    let resource = ResourceBuilder::new("http://www.test.com/lmn.jpg?abc=123&def=456").build().unwrap();
    assert_eq!(resource.extension(), "jpg");
}

#[test]
fn extension_of_the_last_segment_only() {
    let r = ResourceBuilder::new("http://h.com/a.b/c").build().unwrap();
    assert_eq!(r.extension(), "");
    let r = ResourceBuilder::new("http://h.com/a/archive.tar.gz").build().unwrap();
    assert_eq!(r.extension(), "gz");
}

#[test]
fn base_uri_with_and_without_query() {
    let r = HoutuNetworkResource::set_url("http://www.test.com/dir/t.json?v=2#top").unwrap();
    assert_eq!(r.get_base_uri(true), "/dir/t.json?v=2#top");
    assert_eq!(r.get_base_uri(false), "/dir/t.json");
    assert_eq!(get_absolute_uri(&r.url), "/dir/t.json?v=2#top");
    assert_eq!(get_external_resource_cache_key(&r), "/dir/t.json?v=2#top");
    let plain = HoutuNetworkResource::set_url("http://www.test.com/x").unwrap();
    assert_eq!(plain.get_base_uri(true), "/x");
}

#[test]
fn schemes_and_bad_urls() {
    let d = HoutuNetworkResource::set_url("data:text/plain,hello").unwrap();
    assert!(d.is_data_uri());
    assert!(!d.is_blob_uri());
    let h = HoutuNetworkResource::set_url("http://a.com/").unwrap();
    assert!(!h.is_data_uri());
    assert_eq!(HoutuNetworkResource::set_url("not a url").err(), Some(ResourceError::InvalidUrl));
    assert!(UrlParts::parse("relative/path").is_err());
}

#[test]
fn json_resources_ask_for_json() {
    let r = HoutuNetworkResource::fetch_json("https://example.com/tileset.json").unwrap();
    assert_eq!(r.headers.len(), 1);
    assert_eq!(r.headers[0].0, "Accept");
    assert_eq!(r.headers[0].1, "application/json,*/*;q=0.01");
    assert_eq!(r.url.serialization, "https://example.com/tileset.json");
    let b = ResourceBuilder::new("https://example.com/").retry_count(3).build().unwrap();
    assert_eq!(b.retry_count, 3);
    assert!(b.headers.is_empty());
}

#[test]
fn schema_cache_keys() {
    let r = HoutuNetworkResource::set_url("https://example.com/schema.json").unwrap();
    assert_eq!(ResourceCacheKey::get_schema_cache_key(Some("{}"), &r), "embedded-schema:{}");
    assert_eq!(
        ResourceCacheKey::get_schema_cache_key(None, &r),
        "external-schema:https://example.com/schema.json"
    );
}

#[test]
fn tileset_versions() {
    assert!(HoutuTileset::check_version("1.0").is_ok());
    assert!(HoutuTileset::check_version("0.0").is_ok());
    assert!(HoutuTileset::check_version("1.1").is_ok());
    assert_eq!(HoutuTileset::check_version("2.0"), Err(TilesetError::UnsupportedVersion("2.0".to_string())));
}

#[test]
fn tileset_extensions() {
    let ok = vec!["3DTILES_metadata".to_string(), "MAXAR_content_geojson".to_string()];
    assert!(HoutuTileset::check_supported_extensions(Some(&ok)).is_ok());
    assert!(HoutuTileset::check_supported_extensions(None).is_ok());
    let bad = vec!["3DTILES_implicit_tiling".to_string(), "EXT_x".to_string(), "EXT_y".to_string()];
    assert_eq!(
        HoutuTileset::check_supported_extensions(Some(&bad)),
        Err(TilesetError::UnsupportedExtension("EXT_x".to_string()))
    );
    let t = HoutuTileset::from_url("https://example.com/tileset.json").unwrap();
    assert!(t.load_tileset("1.0", Some(&ok)).is_ok());
    assert_eq!(t.load_tileset("9", Some(&bad)), Err(TilesetError::UnsupportedVersion("9".to_string())));
    assert!(t.load_tileset("1.1", Some(&bad)).is_err());
}

#[test]
fn style_defaults() {
    assert_eq!(ShowProperty::default(), ShowProperty::Boolean(true));
    assert_eq!(ColorProperty::default(), ColorProperty::Color("#FFFFFF".to_string()));
}
