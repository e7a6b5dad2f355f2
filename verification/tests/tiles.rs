use tone::render::tiles::{full_resolution_tiles, RenderTile, FULL_RES_TILE_SIZE};

fn tile(x: u32, y: u32, width: u32, height: u32) -> RenderTile {
    RenderTile { x, y, width, height }
}

#[test]
fn single_tile_for_small_image() {
    assert_eq!(full_resolution_tiles(800, 600), vec![tile(0, 0, 800, 600)]);
    assert_eq!(full_resolution_tiles(1024, 1024), vec![tile(0, 0, 1024, 1024)]);
}

#[test]
fn tiles_are_row_major_with_clipped_edges() {
    assert_eq!(
        full_resolution_tiles(2500, 1500),
        vec![
            tile(0, 0, 1024, 1024),
            tile(1024, 0, 1024, 1024),
            tile(2048, 0, 452, 1024),
            tile(0, 1024, 1024, 476),
            tile(1024, 1024, 1024, 476),
            tile(2048, 1024, 452, 476),
        ]
    );
}

#[test]
fn empty_image_has_no_tiles() {
    assert!(full_resolution_tiles(0, 0).is_empty());
    assert!(full_resolution_tiles(0, 4000).is_empty());
    assert!(full_resolution_tiles(4000, 0).is_empty());
}

#[test]
fn tiles_cover_every_pixel_once() {
    let (w, h) = (3000u32, 2049u32);
    let tiles = full_resolution_tiles(w, h);
    assert_eq!(tiles.len(), 3 * 3);
    let area: u64 = tiles.iter().map(|t| t.width as u64 * t.height as u64).sum();
    assert_eq!(area, w as u64 * h as u64);
    for t in &tiles {
        assert!(t.width >= 1 && t.width <= FULL_RES_TILE_SIZE);
        assert!(t.height >= 1 && t.height <= FULL_RES_TILE_SIZE);
        assert!(t.x + t.width <= w && t.y + t.height <= h);
    }
    for &(px, py) in &[(0u32, 0u32), (1023, 1023), (1024, 2048), (2999, 2048), (2048, 1000)] {
        let n = tiles
            .iter()
            .filter(|t| t.x <= px && px < t.x + t.width && t.y <= py && py < t.y + t.height)
            .count();
        assert_eq!(n, 1);
    }
}
