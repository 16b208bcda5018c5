use houtu_3d_tiles::error::TilingError;
use houtu_3d_tiles::resolver::{advance, start, Query, Step};
use houtu_3d_tiles::subtree::{decode, Availability, Buffer, BufferView, DecodedSubtree, Subtree};
use houtu_3d_tiles::tiling::{ImplicitTiling, SubdivisionScheme, TileCoordinate};
use houtu_3d_tiles::uri::subtree_uri;

fn constant(b: bool) -> Availability {
    Availability { bitstream: None, available_count: None, constant: Some(b) }
}

fn tiling() -> ImplicitTiling {
    ImplicitTiling::new(SubdivisionScheme::Quadtree, 2, 6, "subtrees/{level}/{x}/{y}.subtree".to_string()).unwrap()
}

/// Quadtree, two levels per subtree, every tile and content available, and
/// of the sixteen child subtrees only the first.
fn scenario_subtree(t: &ImplicitTiling) -> DecodedSubtree {
    let header = Subtree {
        buffers: vec![Buffer { uri: None, byte_length: 2, name: None }],
        buffer_views: vec![BufferView { buffer: 0, byte_offset: 0, byte_length: 2, name: None }],
        tile_availability: constant(true),
        content_availability: vec![constant(true)],
        child_subtree_availability: Availability { bitstream: Some(0), available_count: Some(1), constant: None },
        tile_metadata: None,
        content_metadata: vec![],
    };
    decode(t, &header, vec![vec![0b0000_0001, 0]]).unwrap()
}

fn tile(level: u32, x: u32, y: u32) -> TileCoordinate {
    TileCoordinate { level, x, y, z: None }
}

/// Runs a query to its end, handing out `sub` for every subtree asked for;
/// gives the final step and the roots that were asked for.
fn run(t: &ImplicitTiling, sub: &DecodedSubtree, target: TileCoordinate, query: Query) -> (Step, Vec<TileCoordinate>) {
    let mut fetched = vec![];
    let (mut st, mut step) = start(t, target, query);
    while let Step::Fetch(root) = step {
        fetched.push(root);
        let (next, s) = advance(t, st, sub);
        st = next;
        step = s;
    }
    (step, fetched)
}

#[test]
fn end_to_end_scenario() {
    let t = tiling();
    let sub = scenario_subtree(&t);
    let root = tile(0, 0, 0);
    assert_eq!(run(&t, &sub, tile(0, 0, 0), Query::Tile), (Step::Resolved(true), vec![root]));
    assert_eq!(run(&t, &sub, tile(1, 1, 0), Query::Tile), (Step::Resolved(true), vec![root]));
    assert_eq!(run(&t, &sub, tile(2, 0, 0), Query::Subtree), (Step::Resolved(true), vec![root]));
    assert_eq!(run(&t, &sub, tile(2, 1, 0), Query::Subtree), (Step::Resolved(false), vec![root]));
    // below the missing child subtree: no fetch beyond the root
    assert_eq!(run(&t, &sub, tile(3, 2, 0), Query::Tile), (Step::Resolved(false), vec![root]));
    assert_eq!(run(&t, &sub, tile(5, 8, 1), Query::Tile), (Step::Resolved(false), vec![root]));
}

#[test]
fn local_queries_of_the_scenario() {
    let t = tiling();
    let sub = scenario_subtree(&t);
    assert_eq!(sub.is_tile_available(0, 0, 0, None), Ok(true));
    assert_eq!(sub.is_tile_available(1, 1, 0, None), Ok(true));
    assert_eq!(sub.is_tile_available(2, 0, 0, None), Err(TilingError::IndexOutOfRange));
    assert_eq!(sub.is_tile_available(1, 2, 0, None), Err(TilingError::IndexOutOfRange));
    assert_eq!(sub.is_tile_available(1, 1, 0, Some(0)), Err(TilingError::IndexOutOfRange));
    assert_eq!(sub.is_content_available(1, 1, 1, None, 0), Ok(true));
    assert_eq!(sub.is_content_available(1, 1, 1, None, 1), Err(TilingError::InvalidContentSlot));
    assert_eq!(sub.has_child_subtree(0, 0, None), Ok(true));
    assert_eq!(sub.has_child_subtree(1, 0, None), Ok(false));
    assert_eq!(sub.has_child_subtree(3, 3, None), Ok(false));
    assert_eq!(sub.has_child_subtree(4, 0, None), Err(TilingError::IndexOutOfRange));
}

#[test]
fn walk_descends_into_an_available_child_subtree() {
    let t = tiling();
    let sub = scenario_subtree(&t);
    let (step, fetched) = run(&t, &sub, tile(3, 1, 1), Query::Tile);
    assert_eq!(step, Step::Resolved(true));
    assert_eq!(fetched, vec![tile(0, 0, 0), tile(2, 0, 0)]);
    let (step, fetched) = run(&t, &sub, tile(4, 0, 0), Query::Subtree);
    assert_eq!(step, Step::Resolved(true));
    assert_eq!(fetched, vec![tile(0, 0, 0), tile(2, 0, 0)]);
    let (step, _) = run(&t, &sub, tile(4, 1, 0), Query::Subtree);
    assert_eq!(step, Step::Resolved(false));
}

#[test]
fn content_queries_walk_the_same_way() {
    let t = tiling();
    let sub = scenario_subtree(&t);
    assert_eq!(run(&t, &sub, tile(1, 0, 1), Query::Content(0)).0, Step::Resolved(true));
    assert_eq!(run(&t, &sub, tile(1, 0, 1), Query::Content(2)).0, Step::Failed(TilingError::InvalidContentSlot));
    assert_eq!(run(&t, &sub, tile(3, 3, 3), Query::Content(0)).0, Step::Resolved(false));
}

#[test]
fn queries_that_need_no_subtree() {
    let t = tiling();
    assert_eq!(start(&t, tile(0, 0, 0), Query::Subtree).1, Step::Resolved(true));
    assert_eq!(start(&t, tile(6, 0, 0), Query::Tile).1, Step::Resolved(false));
    assert_eq!(start(&t, tile(1, 2, 0), Query::Tile).1, Step::Failed(TilingError::IndexOutOfRange));
    assert_eq!(start(&t, tile(3, 0, 0), Query::Subtree).1, Step::Failed(TilingError::IndexOutOfRange));
    let oct = TileCoordinate { level: 1, x: 0, y: 0, z: Some(0) };
    assert_eq!(start(&t, oct, Query::Tile).1, Step::Failed(TilingError::IndexOutOfRange));
    assert_eq!(start(&t, tile(40, 7, 7), Query::Tile).1, Step::Resolved(false));
}

#[test]
fn subtree_uris_substitute_the_root() {
    let t = tiling();
    assert_eq!(subtree_uri(&t, tile(2, 0, 3)), "subtrees/2/0/3.subtree");
    assert_eq!(subtree_uri(&t, tile(12, 4095, 17)), "subtrees/12/4095/17.subtree");
    let o = ImplicitTiling::new(SubdivisionScheme::Octree, 3, 9, "{level}-{x}-{y}-{z}{w}".to_string()).unwrap();
    let root = TileCoordinate { level: 3, x: 1, y: 2, z: Some(30) };
    assert_eq!(subtree_uri(&o, root), "3-1-2-30{w}");
    assert_eq!(subtree_uri(&t, TileCoordinate { level: 0, x: 0, y: 0, z: None }), "subtrees/0/0/0.subtree");
    let plain = ImplicitTiling::new(SubdivisionScheme::Quadtree, 1, 1, "{z}/{lev}".to_string()).unwrap();
    assert_eq!(subtree_uri(&plain, tile(0, 0, 0)), "{z}/{lev}");
}
