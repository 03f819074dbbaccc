use kenney_atlas::coord::Coord;
use kenney_atlas::descriptor::{parse, ParseError, SchemaError};

const FIXTURE: &str = r#"<TextureAtlas imagePath="simpleSpace_sheet.png">
  <SubTexture name="effect_purple.png" x="156" y="32" width="32" height="64"/>
  <SubTexture name="enemy_A.png" x="0" y="420" width="48" height="48"/>
  <SubTexture name="icon_crossLarge.png" x="100" y="236" width="48" height="48"/>
</TextureAtlas>
"#;

#[test]
fn test_texture_atlas_parse() {
    let texture_atlas = parse(FIXTURE.as_bytes()).unwrap();
    assert_eq!(texture_atlas.image_path, b"simpleSpace_sheet.png".to_vec());

    assert_eq!(texture_atlas.sub_textures[0].name, b"effect_purple.png".to_vec());
    assert_eq!(texture_atlas.sub_textures[0].x, Coord::from_pixels(156));
    assert_eq!(texture_atlas.sub_textures[0].y, Coord::from_pixels(32));
    assert_eq!(texture_atlas.sub_textures[0].width, Coord::from_pixels(32));
    assert_eq!(texture_atlas.sub_textures[0].height, Coord::from_pixels(64));

    assert_eq!(texture_atlas.sub_textures[1].name, b"enemy_A.png".to_vec());
    assert_eq!(texture_atlas.sub_textures[1].x, Coord::from_pixels(0));
    assert_eq!(texture_atlas.sub_textures[1].y, Coord::from_pixels(420));
    assert_eq!(texture_atlas.sub_textures[1].width, Coord::from_pixels(48));
    assert_eq!(texture_atlas.sub_textures[1].height, Coord::from_pixels(48));

    assert_eq!(texture_atlas.sub_textures[2].name, b"icon_crossLarge.png".to_vec());
    assert_eq!(texture_atlas.sub_textures[2].x, Coord::from_pixels(100));
    assert_eq!(texture_atlas.sub_textures[2].y, Coord::from_pixels(236));
    assert_eq!(texture_atlas.sub_textures[2].width, Coord::from_pixels(48));
    assert_eq!(texture_atlas.sub_textures[2].height, Coord::from_pixels(48));
}

#[test]
fn parse_keeps_declaration_order() {
    let doc = r#"<TextureAtlas imagePath="s.png">
      <SubTexture name="a" x="1" y="2" width="3" height="4"/>
      <SubTexture name="b" x="5" y="6" width="7" height="8"/>
      <SubTexture name="c" x="9" y="10" width="11" height="12"/>
    </TextureAtlas>"#;
    let config = parse(doc.as_bytes()).unwrap();
    let names: Vec<Vec<u8>> = config.sub_textures.iter().map(|s| s.name.clone()).collect();
    assert_eq!(names, vec![b"a".to_vec(), b"b".to_vec(), b"c".to_vec()]);
}

#[test]
fn parse_empty_atlas() {
    let doc = r#"<TextureAtlas imagePath="sheet.png"></TextureAtlas>"#;
    let config = parse(doc.as_bytes()).unwrap();
    assert_eq!(config.image_path, b"sheet.png".to_vec());
    assert_eq!(config.sub_textures.len(), 0);
}

#[test]
fn parse_self_closing_root() {
    let doc = r#"  <TextureAtlas imagePath="sheet.png"/>  "#;
    let config = parse(doc.as_bytes()).unwrap();
    assert_eq!(config.image_path, b"sheet.png".to_vec());
    assert_eq!(config.sub_textures.len(), 0);
}

#[test]
fn parse_rejects_missing_width() {
    let doc = r#"<TextureAtlas imagePath="s.png">
      <SubTexture name="a" x="1" y="2" height="4"/>
    </TextureAtlas>"#;
    let err = parse(doc.as_bytes()).unwrap_err();
    assert_eq!(
        err,
        ParseError::Schema(SchemaError::MissingAttribute { attribute: b"width".to_vec() })
    );
}

#[test]
fn parse_rejects_missing_image_path() {
    let doc = r#"<TextureAtlas other="s.png"></TextureAtlas>"#;
    let err = parse(doc.as_bytes()).unwrap_err();
    assert_eq!(
        err,
        ParseError::Schema(SchemaError::MissingAttribute { attribute: b"imagePath".to_vec() })
    );
}

#[test]
fn parse_rejects_missing_name() {
    let doc = r#"<TextureAtlas imagePath="s.png">
      <SubTexture x="1" y="2" width="3" height="4"/>
    </TextureAtlas>"#;
    let err = parse(doc.as_bytes()).unwrap_err();
    assert_eq!(
        err,
        ParseError::Schema(SchemaError::MissingAttribute { attribute: b"name".to_vec() })
    );
}

#[test]
fn parse_rejects_non_utf8() {
    let bytes: Vec<u8> = vec![0xff, 0xfe, 0x3c];
    let err = parse(&bytes).unwrap_err();
    assert_eq!(err, ParseError::Encoding);
}

#[test]
fn parse_rejects_malformed_xml() {
    let err = parse(b"<TextureAtlas imagePath=\"s.png\">").unwrap_err();
    assert_eq!(err, ParseError::Schema(SchemaError::MalformedXml));

    let err = parse(b"no markup at all").unwrap_err();
    assert_eq!(err, ParseError::Schema(SchemaError::MalformedXml));

    let err = parse(b"<A imagePath=\"s\"><B><C/></B></A>").unwrap_err();
    assert_eq!(err, ParseError::Schema(SchemaError::MalformedXml));
}

#[test]
fn parse_rejects_non_numeric_coordinate() {
    let doc = r#"<TextureAtlas imagePath="s.png">
      <SubTexture name="a" x="abc" y="2" width="3" height="4"/>
    </TextureAtlas>"#;
    let err = parse(doc.as_bytes()).unwrap_err();
    assert_eq!(
        err,
        ParseError::Schema(SchemaError::InvalidNumber { attribute: b"x".to_vec() })
    );
}

#[test]
fn parse_accepts_fractional_and_signed_numbers() {
    let doc = r#"<TextureAtlas imagePath="s.png">
      <SubTexture name="a" x="32.5" y="-4.25" width="+3" height=".5"/>
      <SubTexture name="b" x="7." y="0.250000" width="1.1000000" height="0"/>
    </TextureAtlas>"#;
    let config = parse(doc.as_bytes()).unwrap();
    assert_eq!(config.sub_textures[0].x, Coord::from_micros(32_500_000));
    assert_eq!(config.sub_textures[0].y, Coord::from_micros(-4_250_000));
    assert_eq!(config.sub_textures[0].width, Coord::from_micros(3_000_000));
    assert_eq!(config.sub_textures[0].height, Coord::from_micros(500_000));
    assert_eq!(config.sub_textures[1].x, Coord::from_micros(7_000_000));
    assert_eq!(config.sub_textures[1].y, Coord::from_micros(250_000));
    assert_eq!(config.sub_textures[1].width, Coord::from_micros(1_100_000));
    assert_eq!(config.sub_textures[1].height, Coord::from_micros(0));
}

#[test]
fn parse_rejects_unrepresentable_numbers() {
    for bad in ["1.1234567", "1000000000", "1e3", "-", ".", "12 3"] {
        let doc = format!(
            r#"<TextureAtlas imagePath="s.png">
              <SubTexture name="a" x="{}" y="2" width="3" height="4"/>
            </TextureAtlas>"#,
            bad
        );
        let err = parse(doc.as_bytes()).unwrap_err();
        assert_eq!(
            err,
            ParseError::Schema(SchemaError::InvalidNumber { attribute: b"x".to_vec() }),
            "input {:?}",
            bad
        );
    }
}

#[test]
fn parse_accepts_single_quoted_values_and_loose_whitespace() {
    let doc = "<TextureAtlas  imagePath = 'sheet.png' >\r\n\t<SubTexture name='a' x='1' y='2' width='3' height='4' />\r\n</TextureAtlas>\n";
    let config = parse(doc.as_bytes()).unwrap();
    assert_eq!(config.image_path, b"sheet.png".to_vec());
    assert_eq!(config.sub_textures.len(), 1);
    assert_eq!(config.sub_textures[0].name, b"a".to_vec());
}
