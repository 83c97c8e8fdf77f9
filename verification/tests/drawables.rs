use openft::drawable::{
    load_drawable_tile_data_from_contribution, register_plugin_textures, ImageData,
    TextureCatalog, TextureKey,
};
use openft::geometry::{min_iso_bounding_box_for_xy, min_xy_bounding_box_for_iso_size, iso_to_xy,
    xy_to_iso, Tile};
use openft::pixel::{make_transparent, map_colors, Rgba8};
use openft::plugin::{
    load_plugin, ColorMapping, ColorMappingChannel, Contribution, ContributionImageData,
    ContributionSprite, Rgb,
};

fn sprite(origin_x: i32, origin_y: i32, offset: i32, opposite: bool) -> ContributionSprite {
    ContributionSprite { origin_x, origin_y, offset, opposite }
}

fn passthrough() -> ColorMapping {
    ColorMapping { channel: ColorMappingChannel::NoRecolor, target: Rgb { r: 0, g: 0, b: 0 } }
}

#[test]
fn bounding_box_formula() {
    assert_eq!(min_xy_bounding_box_for_iso_size(2, 3), (80, 40));
    assert_eq!(min_xy_bounding_box_for_iso_size(1, 1), (32, 16));
    // a pure function: the same inputs give the same pair
    assert_eq!(
        min_xy_bounding_box_for_iso_size(2, 3),
        min_xy_bounding_box_for_iso_size(2, 3)
    );
}

#[test]
fn farms_drawable_geometry() {
    // one GenericStructure with size "2,3" (footprint x=3, y=2), one sprite
    // with offset 4: the record's pixel height is the bounding-box height
    // plus the offset
    let xml = r#"<plug-in><title>Farms</title><author>a</author>
      <contribution type="GenericStructure">
        <size>2,3</size>
        <sprite origin="10,20" offset="4"><picture ref="p"/></sprite>
      </contribution>
      <contribution type="picture" id="p"><picture src="farm.bmp"/></contribution>
    </plug-in>"#;
    let plugin = load_plugin(String::from("pkg"), &xml.as_bytes().to_vec()).unwrap();
    let c = &plugin.contributions[0];
    let records = load_drawable_tile_data_from_contribution(c, plugin.title.as_str());
    assert_eq!(records.len(), 1);
    let rec = &records[0];
    assert_eq!(rec.size, Tile { x: 3, y: 2, z: 0 });
    assert_eq!(rec.texture.title, "Farms");
    assert_eq!(rec.texture.image_ref, "farm.bmp");
    assert_eq!(rec.texture.mapping_index, 0);
    match rec.image_data {
        ImageData::SingleDrawable(d) => {
            let (w, h) = min_xy_bounding_box_for_iso_size(3, 2);
            assert_eq!(d.width, w);
            assert_eq!(d.height, h + 4);
            assert_eq!(d.height, 44);
            assert_eq!((d.origin_x, d.origin_y), (10, 20));
            assert_eq!((d.offset_x, d.offset_y), (0, 4));
        }
        _ => panic!("expected a single drawable"),
    }
}

#[test]
fn one_record_per_mapping_and_variant() {
    let c = Contribution {
        size: Tile { x: 1, y: 2, z: 0 },
        image_ref: String::from("x.bmp"),
        image_ref_is_id: false,
        image_data: vec![
            ContributionImageData::ContributionSprite(sprite(0, 0, 0, false)),
            ContributionImageData::ContributionSprite(sprite(32, 0, 2, false)),
        ],
        color_mappings: vec![
            passthrough(),
            ColorMapping { channel: ColorMappingChannel::Red, target: Rgb { r: 255, g: 0, b: 0 } },
            ColorMapping { channel: ColorMappingChannel::Blue, target: Rgb { r: 0, g: 0, b: 9 } },
        ],
    };
    let records = load_drawable_tile_data_from_contribution(&c, "t");
    assert_eq!(records.len(), 6);
    // mapping index outermost, variants in order within it
    for (k, rec) in records.iter().enumerate() {
        assert_eq!(rec.texture.mapping_index, k / 2);
    }
}

#[test]
fn flipped_variant_swaps_footprint() {
    let c = Contribution {
        size: Tile { x: 3, y: 1, z: 2 },
        image_ref: String::from("x.bmp"),
        image_ref_is_id: false,
        image_data: vec![
            ContributionImageData::ContributionSprite(sprite(0, 0, 0, true)),
            ContributionImageData::ContributionSprite(sprite(0, 0, 0, false)),
        ],
        color_mappings: vec![passthrough()],
    };
    let records = load_drawable_tile_data_from_contribution(&c, "t");
    assert_eq!(records[0].size, Tile { x: 1, y: 3, z: 2 });
    assert_eq!(records[1].size, Tile { x: 3, y: 1, z: 2 });
}

#[test]
fn texture_catalog_registers_each_key_once() {
    let mut catalog = TextureCatalog::new();
    let key = |i: usize| TextureKey {
        title: String::from("t"),
        image_ref: String::from("x.bmp"),
        mapping_index: i,
    };
    let a = catalog.ensure_texture(key(0));
    let b = catalog.ensure_texture(key(1));
    let again = catalog.ensure_texture(key(0));
    assert_eq!(a, again);
    assert_ne!(a, b);
    assert_eq!(catalog.len(), 2);
    assert_eq!(catalog.key_at(a).mapping_index, 0);
    assert_eq!(catalog.key_at(b).mapping_index, 1);
}

#[test]
fn register_plugin_textures_covers_all_pairs() {
    let xml = r#"<plug-in><title>T</title><author>a</author>
      <contribution type="GenericStructure">
        <size>1,1</size>
        <spriteType name="hueTransform"><map from="*,0,0" to="255,0,0"/></spriteType>
        <spriteType name="hueTransform"><map from="0,*,0" to="0,255,0"/></spriteType>
        <sprite origin="0,0" offset="0"><picture ref="p"/></sprite>
      </contribution>
      <contribution type="picture" id="p"><picture src="x.bmp"/></contribution>
    </plug-in>"#;
    let plugin = load_plugin(String::from("pkg"), &xml.as_bytes().to_vec()).unwrap();
    let mut catalog = TextureCatalog::new();
    register_plugin_textures(&mut catalog, &plugin);
    assert_eq!(catalog.len(), 2);
    // registering the same package again adds nothing
    register_plugin_textures(&mut catalog, &plugin);
    assert_eq!(catalog.len(), 2);
    for i in 0..catalog.len() {
        let k = catalog.key_at(i);
        assert_eq!(k.title, "T");
        assert_eq!(k.image_ref, "x.bmp");
        assert_eq!(k.mapping_index, i);
    }
}

#[test]
fn iso_pixel_conversions() {
    assert_eq!(iso_to_xy(&Tile { x: 0, y: 0, z: 0 }), (-16, 0));
    assert_eq!(iso_to_xy(&Tile { x: 3, y: 1, z: 0 }), (16, 32));
    let t = xy_to_iso(64, 32);
    assert_eq!((t.x, t.y, t.z), (4, 0, 0));
    // Rust's division truncates toward zero on negative operands
    let t = xy_to_iso(-33, 0);
    assert_eq!((t.x, t.y), (-1, 1));
    let (lo, hi) = min_iso_bounding_box_for_xy(0, 0, 64, 32);
    assert_eq!((lo.x, lo.y), (0, -2));
    assert_eq!((hi.x, hi.y), (5, 3));
}

#[test]
fn recolor_masks_only_selected_channel() {
    let mapping = ColorMapping {
        channel: ColorMappingChannel::Red,
        target: Rgb { r: 255, g: 128, b: 0 },
    };
    let mut pixels = vec![
        Rgba8 { r: 128, g: 0, b: 0, a: 255 },  // pure red mask: recolored
        Rgba8 { r: 128, g: 10, b: 0, a: 255 }, // green bleed: untouched
        Rgba8 { r: 0, g: 0, b: 77, a: 255 },   // blue bleed: untouched
    ];
    map_colors(&mut pixels, &mapping);
    assert_eq!(pixels[0], Rgba8 { r: 128, g: 64, b: 0, a: 255 });
    assert_eq!(pixels[1], Rgba8 { r: 128, g: 10, b: 0, a: 255 });
    assert_eq!(pixels[2], Rgba8 { r: 0, g: 0, b: 77, a: 255 });
}

#[test]
fn passthrough_mapping_changes_nothing() {
    let mut pixels = vec![Rgba8 { r: 1, g: 2, b: 3, a: 4 }];
    map_colors(
        &mut pixels,
        &ColorMapping { channel: ColorMappingChannel::NoRecolor, target: Rgb { r: 9, g: 9, b: 9 } },
    );
    assert_eq!(pixels[0], Rgba8 { r: 1, g: 2, b: 3, a: 4 });
}

#[test]
fn magenta_key_becomes_transparent() {
    let mut pixels = vec![
        Rgba8 { r: 255, g: 0, b: 255, a: 255 },
        Rgba8 { r: 254, g: 0, b: 255, a: 255 },
    ];
    make_transparent(&mut pixels);
    assert_eq!(pixels[0], Rgba8 { r: 255, g: 255, b: 255, a: 0 });
    assert_eq!(pixels[1], Rgba8 { r: 254, g: 0, b: 255, a: 255 });
}
