use openft::drawable::{DrawableTileData, ImageData, Drawable, TextureKey};
use openft::geometry::Tile;
use openft::tilemap::{EntityInfo, PlaceError, TileMap};

fn drawable_with_size(x: i32, y: i32) -> DrawableTileData {
    DrawableTileData {
        texture: TextureKey {
            title: String::from("t"),
            image_ref: String::from("img.bmp"),
            mapping_index: 0,
        },
        image_data: ImageData::SingleDrawable(Drawable {
            offset_x: 0,
            offset_y: 0,
            origin_x: 0,
            origin_y: 0,
            width: 32,
            height: 16,
        }),
        size: Tile { x, y, z: 1 },
    }
}

fn map_with_types() -> TileMap {
    let mut map = TileMap::new(10, 10);
    let mut types = vec![drawable_with_size(1, 1), drawable_with_size(3, 2)];
    map.create_entity_types(&mut types);
    map
}

/// Snapshot of every cell's occupancy: the anchor and type of the entity
/// covering it, if any.
fn occupancy(map: &TileMap) -> Vec<Option<(usize, usize, usize)>> {
    let mut cells = Vec::new();
    for x in 0..10 {
        for y in 0..10 {
            cells.push(
                map.get_entity(x, y).map(|(e, _, _)| (e.x0, e.y0, e.entity_type_id)),
            );
        }
    }
    cells
}

#[test]
fn place_unit_footprint_and_query_anchor() {
    let mut map = map_with_types();
    let handle = map.set_entity(5, 5, 0, None).unwrap();
    assert!(handle >= 1);
    let (entity, drawable, offset) = map.get_entity(5, 5).unwrap();
    assert_eq!((entity.x0, entity.y0), (5, 5));
    assert_eq!(entity.entity_type_id, 0);
    assert_eq!(drawable.size, Tile { x: 1, y: 1, z: 1 });
    assert_eq!((offset.x, offset.y, offset.z), (0, 0, 0));
    // a neighbor is untouched
    assert!(map.get_entity(5, 6).is_none());
    // a second placement on the same cell collides
    assert_eq!(map.set_entity(5, 5, 0, None), Err(PlaceError::Collision));
}

#[test]
fn multi_cell_footprint_offsets() {
    let mut map = map_with_types();
    // footprint (3, 2): covers x 2..=4, y 4..=5 from anchor (2, 5)
    let handle = map.set_entity(2, 5, 1, Some(EntityInfo { height: 2 })).unwrap();
    assert!(handle >= 1);
    for x in 2..=4usize {
        for y in 4..=5usize {
            let (entity, _, offset) = map.get_entity(x, y).unwrap();
            assert_eq!((entity.x0, entity.y0), (2, 5));
            assert_eq!(offset.x, (x - 2) as i32);
            assert_eq!(offset.y, (5 - y) as i32);
            assert!(offset.x >= 0 && offset.y >= 0);
        }
    }
    assert_eq!(entity_info_height(&map), Some(2));
    // cells outside the rectangle stay empty
    assert!(map.get_entity(5, 5).is_none());
    assert!(map.get_entity(2, 3).is_none());
    assert!(map.get_entity(1, 5).is_none());
}

fn entity_info_height(map: &TileMap) -> Option<usize> {
    map.get_entity(2, 5).unwrap().0.entity_info.map(|i| i.height)
}

#[test]
fn overlapping_placement_leaves_grid_unchanged() {
    let mut map = map_with_types();
    map.set_entity(3, 5, 1, None).unwrap();
    let before = occupancy(&map);
    // overlaps the (3,2) footprint at its anchor column
    let result = map.set_entity(4, 5, 0, None);
    assert_eq!(result, Err(PlaceError::Collision));
    let after = occupancy(&map);
    assert_eq!(before, after);
}

#[test]
fn out_of_bounds_placement_is_rejected_and_changes_nothing() {
    let mut map = map_with_types();
    let before = occupancy(&map);
    // anchor in range but the footprint (3,2) reaches past x = 9
    assert_eq!(map.set_entity(8, 5, 1, None), Err(PlaceError::OutOfBounds));
    // y underflow: footprint needs y >= 1
    assert_eq!(map.set_entity(5, 0, 1, None), Err(PlaceError::OutOfBounds));
    // anchor itself out of range
    assert_eq!(map.set_entity(10, 5, 0, None), Err(PlaceError::OutOfBounds));
    assert_eq!(before, occupancy(&map));
}

#[test]
fn ground_defaults_and_set_ground() {
    let mut map = TileMap::new(4, 4);
    let g0 = map.create_ground_type(drawable_with_size(1, 1));
    let mut grass = drawable_with_size(1, 1);
    grass.texture.image_ref = String::from("grass.bmp");
    let g1 = map.create_ground_type(grass);
    assert_eq!((g0, g1), (0, 1));
    // all cells start at ground 0
    assert_eq!(map.get_ground(2, 2).texture.image_ref, "img.bmp");
    assert!(map.set_ground(2, 2, g1));
    assert_eq!(map.get_ground(2, 2).texture.image_ref, "grass.bmp");
    // an unregistered ground id is refused
    assert!(!map.set_ground(2, 2, 7));
    assert_eq!(map.get_ground(2, 2).texture.image_ref, "grass.bmp");
}

#[test]
fn entity_type_count_tracks_catalog() {
    let mut map = TileMap::new(3, 3);
    assert_eq!(map.entity_type_count(), 0);
    let mut types = vec![drawable_with_size(1, 1)];
    map.create_entity_types(&mut types);
    assert!(types.is_empty());
    assert_eq!(map.entity_type_count(), 1);
    let mut more = vec![drawable_with_size(3, 2), drawable_with_size(1, 1)];
    map.create_entity_types(&mut more);
    assert_eq!(map.entity_type_count(), 3);
}

#[test]
fn handles_stay_distinct_and_stable() {
    let mut map = map_with_types();
    let h1 = map.set_entity(1, 1, 0, None).unwrap();
    let h2 = map.set_entity(2, 2, 0, None).unwrap();
    assert_ne!(h1, h2);
    assert!(h1 >= 1 && h2 >= 1);
    let (e1, _, _) = map.get_entity(1, 1).unwrap();
    assert_eq!((e1.x0, e1.y0), (1, 1));
    let (e2, _, _) = map.get_entity(2, 2).unwrap();
    assert_eq!((e2.x0, e2.y0), (2, 2));
}
