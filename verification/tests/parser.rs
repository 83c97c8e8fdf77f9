use openft::plugin::{
    load_plugin, parse_plugin_xml, ColorMappingChannel, PluginError,
};

fn load(bytes: &[u8]) -> Result<openft::plugin::Plugin, PluginError> {
    load_plugin(String::from("pkg"), &bytes.to_vec())
}

const FARMS: &str = r#"<plug-in>
  <title> Farms </title>
  <author>Ann</author>
  <contribution type="picture" id="p1">
    <picture src="farm.bmp"/>
  </contribution>
  <contribution type="GenericStructure">
    <size>2,3</size>
    <sprite origin="10,20" offset="4">
      <picture ref="p1"/>
    </sprite>
  </contribution>
</plug-in>"#;

#[test]
fn farms_scenario_metadata_and_size() {
    let plugin = load(FARMS.as_bytes()).unwrap();
    assert_eq!(plugin.title, "Farms");
    assert_eq!(plugin.author, "Ann");
    assert_eq!(plugin.contributions.len(), 1);
    let c = &plugin.contributions[0];
    // the size field is "length,width": the first number is the y extent
    assert_eq!(c.size.x, 3);
    assert_eq!(c.size.y, 2);
    // height absent: defaults to 0
    assert_eq!(c.size.z, 0);
    assert_eq!(c.image_ref, "farm.bmp");
    assert!(!c.image_ref_is_id);
    assert_eq!(c.image_data.len(), 1);
    match &c.image_data[0] {
        openft::plugin::ContributionImageData::ContributionSprite(s) => {
            assert_eq!(s.origin_x, 10);
            assert_eq!(s.origin_y, 20);
            assert_eq!(s.offset, 4);
            assert!(!s.opposite);
        }
        _ => panic!("expected a flat sprite"),
    }
}

#[test]
fn parse_is_deterministic() {
    let a = load(FARMS.as_bytes()).unwrap();
    let b = load(FARMS.as_bytes()).unwrap();
    assert_eq!(a.title, b.title);
    assert_eq!(a.author, b.author);
    assert_eq!(a.contributions.len(), b.contributions.len());
    for (ca, cb) in a.contributions.iter().zip(b.contributions.iter()) {
        assert_eq!(ca.size, cb.size);
        assert_eq!(ca.image_ref, cb.image_ref);
        assert_eq!(ca.image_data, cb.image_data);
        assert_eq!(ca.color_mappings, cb.color_mappings);
    }
}

#[test]
fn no_hue_transform_gives_single_passthrough_mapping() {
    let plugin = load(FARMS.as_bytes()).unwrap();
    let c = &plugin.contributions[0];
    assert_eq!(c.color_mappings.len(), 1);
    assert_eq!(c.color_mappings[0].channel, ColorMappingChannel::NoRecolor);
}

#[test]
fn hue_transform_wildcard_tuple_selects_position() {
    let xml = r#"<plug-in><title>t</title><author>a</author>
      <contribution type="GenericStructure">
        <size>1,1</size>
        <spriteType name="hueTransform"><map from="*,0,0" to="255,128,0"/></spriteType>
        <spriteType name="hueTransform"><map from="0,*,0" to="0,255,0"/></spriteType>
        <spriteType name="hueTransform"><map from="0,0,*" to="1,2,3"/></spriteType>
        <sprite origin="0,0" offset="0"><picture ref="p"/></sprite>
      </contribution>
      <contribution type="picture" id="p"><picture src="x.bmp"/></contribution>
    </plug-in>"#;
    let plugin = load(xml.as_bytes()).unwrap();
    let maps = &plugin.contributions[0].color_mappings;
    assert_eq!(maps.len(), 3);
    assert_eq!(maps[0].channel, ColorMappingChannel::Red);
    assert_eq!(maps[0].target.r, 255);
    assert_eq!(maps[0].target.g, 128);
    assert_eq!(maps[0].target.b, 0);
    assert_eq!(maps[1].channel, ColorMappingChannel::Green);
    assert_eq!(maps[2].channel, ColorMappingChannel::Blue);
}

#[test]
fn hue_transform_named_channel_is_case_insensitive() {
    let xml = r#"<plug-in><title>t</title><author>a</author>
      <contribution type="GenericStructure">
        <size>1,1</size>
        <spriteType name="hueTransform"><map from="Red" to="9,8,7"/></spriteType>
        <spriteType name="hueTransform"><map from="GREEN" to="1,1,1"/></spriteType>
        <spriteType name="hueTransform"><map from="b" to="2,2,2"/></spriteType>
        <sprite origin="0,0" offset="0"><picture ref="p"/></sprite>
      </contribution>
      <contribution type="picture" id="p"><picture src="x.bmp"/></contribution>
    </plug-in>"#;
    let plugin = load(xml.as_bytes()).unwrap();
    let maps = &plugin.contributions[0].color_mappings;
    assert_eq!(maps.len(), 3);
    assert_eq!(maps[0].channel, ColorMappingChannel::Red);
    assert_eq!(maps[0].target.r, 9);
    assert_eq!(maps[1].channel, ColorMappingChannel::Green);
    assert_eq!(maps[2].channel, ColorMappingChannel::Blue);
}

#[test]
fn malformed_hue_transforms_are_skipped_not_fatal() {
    let xml = r#"<plug-in><title>t</title><author>a</author>
      <contribution type="GenericStructure">
        <size>1,1</size>
        <spriteType name="hueTransform"><map from="0,0" to="1,2,3"/></spriteType>
        <spriteType name="hueTransform"><map from="*,0,0" to="300,0,0"/></spriteType>
        <spriteType name="hueTransform"><map from="*,0,0" to="1,2"/></spriteType>
        <spriteType name="hueTransform"/>
        <spriteType name="hueTransform"><map from="purple" to="1,2,3"/></spriteType>
        <sprite origin="0,0" offset="0"><picture ref="p"/></sprite>
      </contribution>
      <contribution type="picture" id="p"><picture src="x.bmp"/></contribution>
    </plug-in>"#;
    let plugin = load(xml.as_bytes()).unwrap();
    // every declared node is malformed, so the passthrough default appears
    let maps = &plugin.contributions[0].color_mappings;
    assert_eq!(maps.len(), 1);
    assert_eq!(maps[0].channel, ColorMappingChannel::NoRecolor);
}

#[test]
fn picture_reference_is_resolved_to_registered_path() {
    let plugin = load(FARMS.as_bytes()).unwrap();
    assert_eq!(plugin.contributions[0].image_ref, "farm.bmp");
}

#[test]
fn unregistered_picture_reference_fails_package() {
    let xml = r#"<plug-in><title>t</title><author>a</author>
      <contribution type="GenericStructure">
        <size>1,1</size>
        <sprite origin="0,0" offset="0"><picture ref="nosuch"/></sprite>
      </contribution>
    </plug-in>"#;
    let err = load(xml.as_bytes()).unwrap_err();
    assert!(matches!(err, PluginError::UnresolvedReferenceError));
}

#[test]
fn shift_jis_fallback_decodes_title() {
    // "higashi" in Shift-JIS: 0x93 0x8C, which is not valid UTF-8
    let mut bytes = b"<plug-in><title>".to_vec();
    bytes.push(0x93);
    bytes.push(0x8c);
    bytes.extend_from_slice(b"</title><author>a</author></plug-in>");
    let plugin = load(&bytes).unwrap();
    assert_eq!(plugin.title, "\u{6771}");
    assert_eq!(plugin.author, "a");
}

#[test]
fn undecodable_bytes_give_encoding_error() {
    // 0x82 is a continuation byte to UTF-8 and a truncated double-byte
    // lead to Shift-JIS
    let bytes = vec![b'<', b'a', b'>', 0x82];
    let err = load_plugin(String::from("pkg"), &bytes).unwrap_err();
    assert!(matches!(err, PluginError::EncodingError));
}

#[test]
fn broken_syntax_gives_malformed_document_error() {
    let err = load(b"<plug-in><title>t</title>").unwrap_err();
    assert!(matches!(err, PluginError::MalformedDocumentError(_)));
}

#[test]
fn document_without_descriptor_gives_empty_package() {
    let plugin = load(b"<other><thing/></other>").unwrap();
    assert_eq!(plugin.title, "");
    assert_eq!(plugin.author, "");
    assert!(plugin.contributions.is_empty());
}

#[test]
fn missing_title_is_fatal() {
    let err = load(b"<plug-in><author>a</author></plug-in>").unwrap_err();
    assert!(matches!(err, PluginError::MissingMetadataError));
}

#[test]
fn unknown_contribution_type_is_fatal() {
    let xml = r#"<plug-in><title>t</title><author>a</author>
      <contribution type="Teleporter"/>
    </plug-in>"#;
    let err = load(xml.as_bytes()).unwrap_err();
    assert!(matches!(err, PluginError::UnknownContributionTypeError));
}

#[test]
fn missing_contribution_type_is_fatal() {
    let xml = r#"<plug-in><title>t</title><author>a</author>
      <contribution/>
    </plug-in>"#;
    let err = load(xml.as_bytes()).unwrap_err();
    assert!(matches!(err, PluginError::UnknownContributionTypeError));
}

#[test]
fn picture_contribution_without_id_is_fatal() {
    let xml = r#"<plug-in><title>t</title><author>a</author>
      <contribution type="picture"><picture src="x.bmp"/></contribution>
    </plug-in>"#;
    let err = load(xml.as_bytes()).unwrap_err();
    assert!(matches!(err, PluginError::MissingAttributeError));
}

#[test]
fn generic_structure_without_image_data_is_fatal() {
    let xml = r#"<plug-in><title>t</title><author>a</author>
      <contribution type="GenericStructure"><size>1,1</size></contribution>
    </plug-in>"#;
    let err = load(xml.as_bytes()).unwrap_err();
    assert!(matches!(err, PluginError::MalformedContributionError));
}

#[test]
fn generic_structure_with_both_variant_kinds_is_fatal() {
    let xml = r#"<plug-in><title>t</title><author>a</author>
      <contribution type="GenericStructure">
        <size>1,1</size>
        <sprite origin="0,0" offset="0"><picture ref="p"/></sprite>
        <pictures>
          <top origin="0,0" offset="0"><picture ref="p"/></top>
          <middle origin="0,16" offset="0"/>
          <bottom origin="0,32" offset="0"/>
        </pictures>
      </contribution>
      <contribution type="picture" id="p"><picture src="x.bmp"/></contribution>
    </plug-in>"#;
    let err = load(xml.as_bytes()).unwrap_err();
    assert!(matches!(err, PluginError::MalformedContributionError));
}

#[test]
fn multistorey_contribution_parses_three_tiers() {
    let xml = r#"<plug-in><title>t</title><author>a</author>
      <contribution type="GenericStructure">
        <size>1,2</size>
        <height>3</height>
        <pictures>
          <top origin="0,0" offset="1"><picture ref="p"/></top>
          <middle origin="0,16" offset="2"/>
          <bottom origin="0,32" offset="3"/>
        </pictures>
      </contribution>
      <contribution type="picture" id="p"><picture src="tower.bmp"/></contribution>
    </plug-in>"#;
    let plugin = load(xml.as_bytes()).unwrap();
    let c = &plugin.contributions[0];
    assert_eq!(c.size.x, 2);
    assert_eq!(c.size.y, 1);
    assert_eq!(c.size.z, 3);
    assert_eq!(c.image_ref, "tower.bmp");
    match &c.image_data[0] {
        openft::plugin::ContributionImageData::ContributionMultistorey(m) => {
            assert_eq!(m.top.origin_y, 0);
            assert_eq!(m.top.offset, 1);
            assert_eq!(m.middle.origin_y, 16);
            assert_eq!(m.bottom.origin_y, 32);
        }
        _ => panic!("expected a multistorey set"),
    }
}

#[test]
fn road_contribution_has_unit_footprint_and_direct_path() {
    let xml = r#"<plug-in><title>t</title><author>a</author>
      <contribution type="road">
        <picture src="road.bmp" size="32,16" offset="0"/>
      </contribution>
    </plug-in>"#;
    let plugin = load(xml.as_bytes()).unwrap();
    let c = &plugin.contributions[0];
    assert_eq!((c.size.x, c.size.y, c.size.z), (1, 1, 1));
    assert_eq!(c.image_ref, "road.bmp");
    assert!(c.image_data.is_empty());
    assert!(c.color_mappings.is_empty());
}

#[test]
fn differing_sprite_refs_are_fatal() {
    let xml = r#"<plug-in><title>t</title><author>a</author>
      <contribution type="GenericStructure">
        <size>1,1</size>
        <sprite origin="0,0" offset="0"><picture ref="p"/></sprite>
        <sprite origin="32,0" offset="0"><picture ref="q"/></sprite>
      </contribution>
      <contribution type="picture" id="p"><picture src="x.bmp"/></contribution>
      <contribution type="picture" id="q"><picture src="y.bmp"/></contribution>
    </plug-in>"#;
    let err = load(xml.as_bytes()).unwrap_err();
    assert!(matches!(err, PluginError::MalformedContributionError));
}

#[test]
fn metadata_values_are_trimmed() {
    let plugin = parse_plugin_xml(
        String::from("pkg"),
        "<plug-in><title>\n   spaced out \t</title><author>a</author></plug-in>",
    )
    .unwrap();
    assert_eq!(plugin.title, "spaced out");
}

#[test]
fn unparsable_size_numbers_default_to_zero() {
    let xml = r#"<plug-in><title>t</title><author>a</author>
      <contribution type="GenericStructure">
        <size>abc,2</size>
        <sprite origin=" 7 , 9 " offset="0"><picture ref="p"/></sprite>
      </contribution>
      <contribution type="picture" id="p"><picture src="x.bmp"/></contribution>
    </plug-in>"#;
    let plugin = load(xml.as_bytes()).unwrap();
    let c = &plugin.contributions[0];
    // "abc" is the first (y) number and does not parse; "2" is the x extent
    assert_eq!(c.size.x, 2);
    assert_eq!(c.size.y, 0);
    match &c.image_data[0] {
        openft::plugin::ContributionImageData::ContributionSprite(s) => {
            // origin components are trimmed before parsing
            assert_eq!(s.origin_x, 7);
            assert_eq!(s.origin_y, 9);
        }
        _ => panic!("expected a flat sprite"),
    }
}

#[test]
fn text_helpers_match_std_behavior() {
    let parts = openft::text::split_str("a,,b", ',');
    assert_eq!(parts, vec!["a".to_string(), "".to_string(), "b".to_string()]);
    let parts = openft::text::split_str("", ',');
    assert_eq!(parts, vec!["".to_string()]);
    assert_eq!(openft::text::parse_i32_str("-42"), Some(-42));
    assert_eq!(openft::text::parse_i32_str("+7"), Some(7));
    assert_eq!(openft::text::parse_i32_str("2147483647"), Some(i32::MAX));
    assert_eq!(openft::text::parse_i32_str("-2147483648"), Some(i32::MIN));
    assert_eq!(openft::text::parse_i32_str("2147483648"), None);
    assert_eq!(openft::text::parse_i32_str("99999999999999999999"), None);
    assert_eq!(openft::text::parse_i32_str(""), None);
    assert_eq!(openft::text::parse_i32_str("1.5"), None);
    assert_eq!(openft::text::trim_str("  x y\t"), "x y");
}
