use kenney_atlas::atlas::{build, BuildError};
use kenney_atlas::coord::{Coord, Rect};
use kenney_atlas::descriptor::{parse, KeyedTextureAtlasConfig, SubTexture};
use kenney_atlas::loader::{
    KenneyTextureAtlasLoader, KeyedTextureAtlasLoader, LoadError, TextureAtlasXmlLoader,
};

fn sub(name: &[u8], x: i32, y: i32, w: i32, h: i32) -> SubTexture {
    SubTexture {
        name: name.to_vec(),
        x: Coord::from_pixels(x),
        y: Coord::from_pixels(y),
        width: Coord::from_pixels(w),
        height: Coord::from_pixels(h),
    }
}

fn px_rect(l: i32, t: i32, r: i32, b: i32) -> Rect {
    Rect {
        left: Coord::from_pixels(l),
        top: Coord::from_pixels(t),
        right: Coord::from_pixels(r),
        bottom: Coord::from_pixels(b),
    }
}

#[test]
fn rect_round_trips_geometry() {
    let s = sub(b"a", 156, 32, 32, 64);
    assert_eq!(s.rect(), px_rect(156, 32, 188, 96));

    let frac = SubTexture {
        name: b"f".to_vec(),
        x: Coord::from_micros(1_500_000),
        y: Coord::from_micros(-250_000),
        width: Coord::from_micros(2_250_000),
        height: Coord::from_micros(500_000),
    };
    let r = frac.rect();
    assert_eq!(r.left, Coord::from_micros(1_500_000));
    assert_eq!(r.top, Coord::from_micros(-250_000));
    assert_eq!(r.right, Coord::from_micros(3_750_000));
    assert_eq!(r.bottom, Coord::from_micros(250_000));
}

#[test]
fn build_assigns_slots_in_declaration_order() {
    let config = KeyedTextureAtlasConfig {
        image_path: b"s.png".to_vec(),
        sub_textures: vec![sub(b"a", 0, 0, 8, 8), sub(b"b", 8, 0, 8, 8), sub(b"c", 0, 8, 8, 8)],
    };
    let atlas = build(&config, 16, 16, false).unwrap();
    assert_eq!(atlas.get_sprite(b"a"), Some(0));
    assert_eq!(atlas.get_sprite(b"b"), Some(1));
    assert_eq!(atlas.get_sprite(b"c"), Some(2));
    assert_eq!(atlas.atlas.slot_count(), 3);
    assert_eq!(atlas.atlas.rect_at(1), Some(px_rect(8, 0, 16, 8)));
    assert_eq!(atlas.get_sprite(b"missing"), None);
}

#[test]
fn build_last_write_wins_on_duplicate_names() {
    let rect1 = sub(b"n", 0, 0, 8, 8);
    let rect2 = sub(b"n", 8, 8, 4, 4);
    let config = KeyedTextureAtlasConfig {
        image_path: b"s.png".to_vec(),
        sub_textures: vec![rect1, rect2],
    };
    let atlas = build(&config, 16, 16, false).unwrap();
    // the name resolves to the later slot
    assert_eq!(atlas.get_sprite(b"n"), Some(1));
    let (slot, r) = atlas.lookup(b"n").unwrap();
    assert_eq!(slot, 1);
    assert_eq!(r, px_rect(8, 8, 12, 12));
    // the earlier slot still exists in the table, unreachable by name
    assert_eq!(atlas.atlas.slot_count(), 2);
    assert_eq!(atlas.atlas.rect_at(0), Some(px_rect(0, 0, 8, 8)));
}

#[test]
fn build_empty_descriptor_yields_empty_atlas() {
    let config = KeyedTextureAtlasConfig { image_path: b"s.png".to_vec(), sub_textures: vec![] };
    let atlas = build(&config, 64, 64, true).unwrap();
    assert_eq!(atlas.atlas.slot_count(), 0);
    assert_eq!(atlas.get_sprite(b"anything"), None);
}

#[test]
fn build_strict_rejects_out_of_bounds() {
    let config = KeyedTextureAtlasConfig {
        image_path: b"s.png".to_vec(),
        sub_textures: vec![sub(b"fits", 0, 0, 8, 8), sub(b"spills", 12, 0, 8, 8)],
    };
    let err = build(&config, 16, 16, true).unwrap_err();
    assert_eq!(err, BuildError::OutOfBounds { index: 1, name: b"spills".to_vec() });
    // without strict, the same descriptor is accepted as declared
    let atlas = build(&config, 16, 16, false).unwrap();
    assert_eq!(atlas.atlas.rect_at(1), Some(px_rect(12, 0, 20, 8)));
}

#[test]
fn build_strict_rejects_negative_origin() {
    let config = KeyedTextureAtlasConfig {
        image_path: b"s.png".to_vec(),
        sub_textures: vec![sub(b"neg", -1, 0, 4, 4)],
    };
    let err = build(&config, 16, 16, true).unwrap_err();
    assert_eq!(err, BuildError::OutOfBounds { index: 0, name: b"neg".to_vec() });
}

#[test]
fn loader_concrete_scenario() {
    let doc = r#"<TextureAtlas imagePath="simpleSpace_sheet.png">
        <SubTexture name="effect_purple.png" x="156" y="32" width="32" height="64"/>
        <SubTexture name="enemy_A.png" x="0" y="420" width="48" height="48"/>
        <SubTexture name="icon_crossLarge.png" x="100" y="236" width="48" height="48"/>
    </TextureAtlas>"#;
    let loader = KeyedTextureAtlasLoader;
    let atlas = loader.load(doc.as_bytes(), 1024, 1024, true).unwrap();
    assert_eq!(atlas.get_sprite(b"effect_purple.png"), Some(0));
    assert_eq!(atlas.get_sprite(b"enemy_A.png"), Some(1));
    assert_eq!(atlas.get_sprite(b"icon_crossLarge.png"), Some(2));
    assert_eq!(atlas.atlas.slot_count(), 3);
    assert_eq!(atlas.atlas.rect_at(0), Some(px_rect(156, 32, 188, 96)));
}

#[test]
fn loader_propagates_parse_errors() {
    let loader = KeyedTextureAtlasLoader;
    match loader.load(&[0xff], 16, 16, false) {
        Err(LoadError::Parse(_)) => {}
        other => panic!("expected a parse error, got {:?}", other),
    }
}

#[test]
fn xml_loader_parses_descriptor_only() {
    let doc = r#"<TextureAtlas imagePath="sheet.png"></TextureAtlas>"#;
    let loader = TextureAtlasXmlLoader;
    let config = loader.load(doc.as_bytes()).unwrap();
    assert_eq!(config.image_path, b"sheet.png".to_vec());
    assert_eq!(loader.extensions(), vec!["xml".to_string()]);
}

#[test]
fn parse_then_build_round_trip() {
    let doc = r#"<TextureAtlas imagePath="s.png">
        <SubTexture name="only" x="2.5" y="0" width="1.5" height="4"/>
    </TextureAtlas>"#;
    let config = parse(doc.as_bytes()).unwrap();
    let atlas = build(&config, 8, 8, true).unwrap();
    let (slot, r) = atlas.lookup(b"only").unwrap();
    assert_eq!(slot, 0);
    assert_eq!(r.left, Coord::from_micros(2_500_000));
    assert_eq!(r.right, Coord::from_micros(4_000_000));
    assert_eq!(r.bottom, Coord::from_pixels(4));
}

#[test]
fn kenney_loader_parses_descriptor() {
    let doc = r#"<TextureAtlas imagePath="k.png">
        <SubTexture name="a" x="1" y="2" width="3" height="4"/>
    </TextureAtlas>"#;
    let loader = KenneyTextureAtlasLoader;
    let config = loader.load(doc.as_bytes()).unwrap();
    assert_eq!(config.image_path, b"k.png".to_vec());
    assert_eq!(config.sub_textures.len(), 1);
    assert_eq!(loader.extensions(), vec!["xml".to_string()]);
    assert_eq!(KeyedTextureAtlasLoader.extensions(), vec!["xml".to_string()]);
}

#[test]
fn rect_at_out_of_range_is_none() {
    let config = KeyedTextureAtlasConfig {
        image_path: b"s.png".to_vec(),
        sub_textures: vec![sub(b"a", 0, 0, 8, 8)],
    };
    let atlas = build(&config, 16, 16, false).unwrap();
    assert_eq!(atlas.atlas.rect_at(1), None);
    assert_eq!(atlas.lookup(b"gone"), None);
}
