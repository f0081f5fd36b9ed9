use domers::color::PaletteEntry;
use domers::xml::{
    adsr_binding_index, bool_tag, channel_preset_map, color_palette, localhost_opc_address,
    loose_tag_value, stage_side_lengths, tag_value, u32_tag, u64_tag, u8_tag, xml_items,
};

#[test]
fn tag_values_are_trimmed() {
    assert_eq!(tag_value("<a> hi </a>", "a").as_deref(), Some("hi"));
    assert_eq!(tag_value("<a>hi", "a"), None);
    assert_eq!(tag_value("<b>1</b>", "a"), None);
}

#[test]
fn loose_tags_may_carry_attributes() {
    assert_eq!(
        loose_tag_value("<Value xsi:type=\"x\"> 3 </Value>", "Value").as_deref(),
        Some("3")
    );
}

#[test]
fn typed_tags_parse_or_fail() {
    assert_eq!(bool_tag("<on>true</on>", "on"), Some(true));
    assert_eq!(bool_tag("<on>True</on>", "on"), None);
    assert_eq!(u8_tag("<n>255</n>", "n"), Some(255));
    assert_eq!(u8_tag("<n>256</n>", "n"), None);
    assert_eq!(u32_tag("<n>+42</n>", "n"), Some(42));
    assert_eq!(u64_tag("<n>-1</n>", "n"), None);
}

#[test]
fn opc_addresses_move_to_local_host() {
    assert_eq!(localhost_opc_address("192.168.1.2:7890"), "127.0.0.1:7890");
    assert_eq!(localhost_opc_address("host:7891:2"), "127.0.0.1:7891:2");
    assert_eq!(localhost_opc_address("host"), "127.0.0.1:7890");
}

#[test]
fn items_are_split_out() {
    assert_eq!(
        xml_items("x<Item>a</Item><Item>b</Item>"),
        vec!["a".to_string(), "b".to_string()]
    );
}

#[test]
fn channel_presets_map_keys_to_values() {
    let xml = "<presets><Item><Key>2</Key><Value>slow</Value></Item>\
        <Item><Key>x</Key><Value>bad</Value></Item>\
        <Item><Key>5</Key><Value>fast</Value></Item></presets>";
    let map = channel_preset_map(xml, "presets");
    assert_eq!(map.len(), 2);
    assert_eq!(map.get(&2).map(String::as_str), Some("slow"));
    assert_eq!(map.get(&5).map(String::as_str), Some("fast"));
}

#[test]
fn stage_lengths_skip_unparsable_entries() {
    let xml = "<stageSideLengths><Int32>5</Int32><Int32> 7 </Int32><Int32>x</Int32></stageSideLengths>";
    assert_eq!(stage_side_lengths(xml), vec![5, 7]);
    assert_eq!(stage_side_lengths("<none/>"), Vec::<u32>::new());
}

#[test]
fn palette_reads_led_colors() {
    let xml = "<colors><LEDColor><color1>255</color1></LEDColor>\
        <LEDColor><color1>1</color1><color2>2</color2><color2Enabled>true</color2Enabled></LEDColor></colors>";
    let palette = color_palette(xml);
    assert_eq!(palette.colors.len(), 2);
    assert_eq!(palette.colors[0], PaletteEntry::solid(255));
    assert_eq!(palette.colors[1], PaletteEntry::gradient(1, 2));
}

#[test]
fn adsr_binding_found_after_marker() {
    let xml = "<b xsi:type=\"AdsrLevelDriverMidiBindingConfig\"><indexRangeStart>36</indexRangeStart></b>";
    assert_eq!(adsr_binding_index(xml), Some(36));
    assert_eq!(adsr_binding_index("<indexRangeStart>36</indexRangeStart>"), None);
}
