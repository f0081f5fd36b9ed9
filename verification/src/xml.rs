//! Reading values out of a legacy XML configuration by tag name.
use vstd::prelude::*;

use std::collections::BTreeMap;

use crate::color::{default_palette_colors, solid_entry, ColorPalette, PaletteEntry};
use crate::scan::{
    find_chars, find_from, head_before, head_before_chars, lemma_find_from_found, occurs_at,
    parse_unsigned, parse_unsigned_chars, slice_chars, split_chars, split_from, trim_bounds,
    trimmed,
};
use crate::text::{chars_of, string_from_chars};

verus! {

broadcast use {vstd::std_specs::btree::group_btree_axioms, vstd::laws_cmp::group_laws_cmp};

/// `<tag>`.
pub open spec fn open_tag(tag: Seq<char>) -> Seq<char> {
    seq!['<'] + tag + seq!['>']
}

/// `</tag>`.
pub open spec fn close_tag(tag: Seq<char>) -> Seq<char> {
    seq!['<', '/'] + tag + seq!['>']
}

/// The trimmed text between the first `<tag>` and the first `</tag>` after it.
pub open spec fn tag_value_spec(x: Seq<char>, tag: Seq<char>) -> Option<Seq<char>> {
    match find_from(x, open_tag(tag), 0) {
        None => None,
        Some(i) => {
            let start = i + open_tag(tag).len();
            match find_from(x, close_tag(tag), start) {
                None => None,
                Some(j) => Some(trimmed(x.subrange(start, j))),
            }
        },
    }
}

/// The trimmed text between the first `>` after the first `<tag` (which
/// may carry attributes) and the first `</tag>` after that.
pub open spec fn loose_tag_value_spec(x: Seq<char>, tag: Seq<char>) -> Option<Seq<char>> {
    match find_from(x, seq!['<'] + tag, 0) {
        None => None,
        Some(i) => match find_from(x, seq!['>'], i) {
            None => None,
            Some(g) => match find_from(x, close_tag(tag), g + 1) {
                None => None,
                Some(j) => Some(trimmed(x.subrange(g + 1, j))),
            },
        },
    }
}

/// A boolean as `bool::from_str` reads it: exactly `true` or `false`.
pub open spec fn parse_bool(s: Seq<char>) -> Option<bool> {
    if s == seq!['t', 'r', 'u', 'e'] {
        Some(true)
    } else if s == seq!['f', 'a', 'l', 's', 'e'] {
        Some(false)
    } else {
        None
    }
}

/// The boolean value of a tag.
pub open spec fn bool_tag_spec(x: Seq<char>, tag: Seq<char>) -> Option<bool> {
    match tag_value_spec(x, tag) {
        Some(v) => parse_bool(v),
        None => None,
    }
}

/// The unsigned value of a tag, bounded by `max`.
pub open spec fn unsigned_tag_spec(x: Seq<char>, tag: Seq<char>, max: int) -> Option<int> {
    match tag_value_spec(x, tag) {
        Some(v) => parse_unsigned(v, max),
        None => None,
    }
}

fn tag_chars(prefix: &[char], tag: &str, suffix: &[char]) -> (r: Vec<char>)
    ensures
        r@ == prefix@ + tag@ + suffix@,
{
    let mut out = slice_chars(prefix, 0, prefix.len());
    assert(prefix@.subrange(0, prefix@.len() as int) == prefix@);
    let mut t = chars_of(tag);
    out.append(&mut t);
    let mut s = slice_chars(suffix, 0, suffix.len());
    assert(suffix@.subrange(0, suffix@.len() as int) == suffix@);
    out.append(&mut s);
    out
}

/// Text of a tag in a character sequence.
pub fn tag_value_chars(x: &[char], tag: &str) -> (r: Option<Vec<char>>)
    ensures
        r matches Some(v) ==> tag_value_spec(x@, tag@) == Some(v@),
        r is None ==> tag_value_spec(x@, tag@) is None,
{
    let open = tag_chars(&['<'], tag, &['>']);
    let close = tag_chars(&['<', '/'], tag, &['>']);
    assert(open@ == open_tag(tag@));
    assert(close@ == close_tag(tag@));
    proof {
        lemma_find_from_found(x@, open@, 0);
    }
    let i = match find_chars(x, &open, 0) {
        Some(i) => i,
        None => {
            return None;
        },
    };
    assert(x@.len() == x.len());
    let start = i + open.len();
    proof {
        lemma_find_from_found(x@, close@, start as int);
    }
    let j = match find_chars(x, &close, start) {
        Some(j) => j,
        None => {
            return None;
        },
    };
    let (a, b) = trim_bounds(x, start, j);
    Some(slice_chars(x, a, b))
}

/// The trimmed text between `<tag>` and `</tag>`, if both occur.
pub fn tag_value(xml: &str, tag: &str) -> (r: Option<String>)
    ensures
        r matches Some(v) ==> tag_value_spec(xml@, tag@) == Some(v@),
        r is None ==> tag_value_spec(xml@, tag@) is None,
{
    let x = chars_of(xml);
    match tag_value_chars(&x, tag) {
        Some(v) => Some(string_from_chars(&v)),
        None => None,
    }
}

/// The text of a tag as an owned string.
pub fn string_tag(xml: &str, tag: &str) -> (r: Option<String>)
    ensures
        r matches Some(v) ==> tag_value_spec(xml@, tag@) == Some(v@),
        r is None ==> tag_value_spec(xml@, tag@) is None,
{
    tag_value(xml, tag)
}

/// Text of a tag that may carry attributes, in a character sequence.
pub fn loose_tag_value_chars(x: &[char], tag: &str) -> (r: Option<Vec<char>>)
    ensures
        r matches Some(v) ==> loose_tag_value_spec(x@, tag@) == Some(v@),
        r is None ==> loose_tag_value_spec(x@, tag@) is None,
{
    let open = tag_chars(&['<'], tag, &[]);
    let close = tag_chars(&['<', '/'], tag, &['>']);
    let gt: [char; 1] = ['>'];
    assert(open@ == seq!['<'] + tag@);
    assert(close@ == close_tag(tag@));
    assert(gt@ == seq!['>']);
    proof {
        lemma_find_from_found(x@, open@, 0);
    }
    let i = match find_chars(x, &open, 0) {
        Some(i) => i,
        None => {
            return None;
        },
    };
    proof {
        lemma_find_from_found(x@, gt@, i as int);
    }
    let g = match find_chars(x, &gt, i) {
        Some(g) => g,
        None => {
            return None;
        },
    };
    assert(x@.len() == x.len());
    proof {
        lemma_find_from_found(x@, close@, g + 1);
    }
    let j = match find_chars(x, &close, g + 1) {
        Some(j) => j,
        None => {
            return None;
        },
    };
    let (a, b) = trim_bounds(x, g + 1, j);
    Some(slice_chars(x, a, b))
}

/// The trimmed text of `<tag ...>...</tag>`, the opening tag possibly
/// carrying attributes.
pub fn loose_tag_value(xml: &str, tag: &str) -> (r: Option<String>)
    ensures
        r matches Some(v) ==> loose_tag_value_spec(xml@, tag@) == Some(v@),
        r is None ==> loose_tag_value_spec(xml@, tag@) is None,
{
    let x = chars_of(xml);
    match loose_tag_value_chars(&x, tag) {
        Some(v) => Some(string_from_chars(&v)),
        None => None,
    }
}

fn eq_chars(a: &[char], b: &[char]) -> (r: bool)
    ensures
        r == (a@ == b@),
{
    if a.len() != b.len() {
        return false;
    }
    let mut i: usize = 0;
    while i < a.len()
        invariant
            a@.len() == b@.len(),
            i <= a@.len(),
            forall|k: int| 0 <= k < i ==> a@[k] == b@[k],
        decreases a@.len() - i,
    {
        if a[i] != b[i] {
            return false;
        }
        i = i + 1;
    }
    assert(a@ == b@);
    true
}

/// Read `true` or `false`.
pub fn parse_bool_chars(s: &[char]) -> (r: Option<bool>)
    ensures
        r == parse_bool(s@),
{
    let t: [char; 4] = ['t', 'r', 'u', 'e'];
    let f: [char; 5] = ['f', 'a', 'l', 's', 'e'];
    assert(t@ == seq!['t', 'r', 'u', 'e']);
    assert(f@ == seq!['f', 'a', 'l', 's', 'e']);
    if eq_chars(s, &t) {
        Some(true)
    } else if eq_chars(s, &f) {
        Some(false)
    } else {
        None
    }
}

/// The boolean value of a tag, in a character sequence.
pub fn bool_tag_chars(x: &[char], tag: &str) -> (r: Option<bool>)
    ensures
        r == bool_tag_spec(x@, tag@),
{
    match tag_value_chars(x, tag) {
        Some(v) => parse_bool_chars(&v),
        None => None,
    }
}

/// The unsigned value of a tag, in a character sequence.
pub fn unsigned_tag_chars(x: &[char], tag: &str, max: u64) -> (r: Option<u64>)
    ensures
        r matches Some(v) ==> unsigned_tag_spec(x@, tag@, max as int) == Some(v as int),
        r is None ==> unsigned_tag_spec(x@, tag@, max as int) is None,
{
    match tag_value_chars(x, tag) {
        Some(v) => parse_unsigned_chars(&v, max),
        None => None,
    }
}

/// The boolean value of a tag.
pub fn bool_tag(xml: &str, tag: &str) -> (r: Option<bool>)
    ensures
        r == bool_tag_spec(xml@, tag@),
{
    let x = chars_of(xml);
    bool_tag_chars(&x, tag)
}

/// The `u8` value of a tag.
pub fn u8_tag(xml: &str, tag: &str) -> (r: Option<u8>)
    ensures
        r matches Some(v) ==> unsigned_tag_spec(xml@, tag@, u8::MAX as int) == Some(v as int),
        r is None ==> unsigned_tag_spec(xml@, tag@, u8::MAX as int) is None,
{
    let x = chars_of(xml);
    match unsigned_tag_chars(&x, tag, u8::MAX as u64) {
        Some(v) => Some(v as u8),
        None => None,
    }
}

/// The `u32` value of a tag.
pub fn u32_tag(xml: &str, tag: &str) -> (r: Option<u32>)
    ensures
        r matches Some(v) ==> unsigned_tag_spec(xml@, tag@, u32::MAX as int) == Some(v as int),
        r is None ==> unsigned_tag_spec(xml@, tag@, u32::MAX as int) is None,
{
    let x = chars_of(xml);
    match unsigned_tag_chars(&x, tag, u32::MAX as u64) {
        Some(v) => Some(v as u32),
        None => None,
    }
}

/// The `u64` value of a tag.
pub fn u64_tag(xml: &str, tag: &str) -> (r: Option<u64>)
    ensures
        r matches Some(v) ==> unsigned_tag_spec(xml@, tag@, u64::MAX as int) == Some(v as int),
        r is None ==> unsigned_tag_spec(xml@, tag@, u64::MAX as int) is None,
{
    let x = chars_of(xml);
    unsigned_tag_chars(&x, tag, u64::MAX)
}

/// The `<Item>` bodies of a block: each part after an `<Item>`, cut at
/// its first `</Item>`.
pub open spec fn items_spec(b: Seq<char>) -> Seq<Seq<char>> {
    split_from(b, "<Item>"@, 0).drop_first().map_values(|c: Seq<char>| head_before(c, "</Item>"@))
}

/// Bodies of the elements `open ... close` in `b`, each cut at `close`.
pub fn element_bodies(b: &[char], open: &str, close: &str) -> (r: Vec<Vec<char>>)
    requires
        open@.len() > 0,
    ensures
        r@.len() == split_from(b@, open@, 0).len() - 1,
        forall|k: int|
            0 <= k < r@.len() ==> #[trigger] r@[k]@ == head_before(
                split_from(b@, open@, 0)[k + 1],
                close@,
            ),
{
    let o = chars_of(open);
    let c = chars_of(close);
    let parts = split_chars(b, &o);
    let mut out: Vec<Vec<char>> = Vec::new();
    let mut i: usize = 1;
    proof {
        lemma_split_nonempty(b@, o@, 0);
    }
    while i < parts.len()
        invariant
            1 <= i <= parts@.len(),
            parts@.len() == split_from(b@, o@, 0).len(),
            forall|k: int| 0 <= k < parts@.len() ==> #[trigger] parts@[k]@ == split_from(b@, o@, 0)[k],
            c@ == close@,
            out@.len() == i - 1,
            forall|k: int|
                0 <= k < out@.len() ==> #[trigger] out@[k]@ == head_before(
                    split_from(b@, o@, 0)[k + 1],
                    c@,
                ),
        decreases parts@.len() - i,
    {
        let body = head_before_chars(&parts[i], &c);
        out.push(body);
        i = i + 1;
    }
    out
}

/// `split` always yields at least one part.
pub proof fn lemma_split_nonempty(s: Seq<char>, sep: Seq<char>, pos: int)
    ensures
        split_from(s, sep, pos).len() >= 1,
    decreases s.len() - pos,
{
    if !(pos < 0 || pos > s.len() || sep.len() == 0) {
        match find_from(s, sep, pos) {
            None => {},
            Some(i) => {
                if !(i < pos || i + sep.len() > s.len()) {
                    lemma_find_from_found(s, sep, pos);
                    lemma_split_nonempty(s, sep, i + sep.len());
                }
            },
        }
    }
}

/// The `<Item>` bodies of a block.
pub fn xml_items(block: &str) -> (r: Vec<String>)
    ensures
        r@.len() == items_spec(block@).len(),
        forall|k: int| 0 <= k < r@.len() ==> #[trigger] r@[k]@ == items_spec(block@)[k],
{
    let b = chars_of(block);
    proof {
        reveal_strlit("<Item>");
    }
    let bodies = element_bodies(&b, "<Item>", "</Item>");
    let mut out: Vec<String> = Vec::new();
    let mut i: usize = 0;
    while i < bodies.len()
        invariant
            i <= bodies@.len(),
            bodies@.len() == items_spec(block@).len(),
            forall|k: int| 0 <= k < bodies@.len() ==> #[trigger] bodies@[k]@ == items_spec(block@)[k],
            out@.len() == i,
            forall|k: int| 0 <= k < i ==> #[trigger] out@[k]@ == items_spec(block@)[k],
        decreases bodies@.len() - i,
    {
        out.push(string_from_chars(&bodies[i]));
        i = i + 1;
    }
    out
}

/// Index of the first note of the ADSR level-driver MIDI binding: the
/// `indexRangeStart` tag in the text after the first ADSR binding marker.
pub open spec fn adsr_binding_index_spec(x: Seq<char>) -> Option<int> {
    let parts = split_from(x, "xsi:type=\"AdsrLevelDriverMidiBindingConfig\""@, 0);
    if parts.len() < 2 {
        None
    } else {
        unsigned_tag_spec(parts[1], "indexRangeStart"@, u8::MAX as int)
    }
}

/// Index of the first note of the ADSR level-driver MIDI binding.
pub fn adsr_binding_index(xml: &str) -> (r: Option<u8>)
    ensures
        r matches Some(v) ==> adsr_binding_index_spec(xml@) == Some(v as int),
        r is None ==> adsr_binding_index_spec(xml@) is None,
{
    let x = chars_of(xml);
    let marker = chars_of("xsi:type=\"AdsrLevelDriverMidiBindingConfig\"");
    proof {
        reveal_strlit("xsi:type=\"AdsrLevelDriverMidiBindingConfig\"");
    }
    let parts = split_chars(&x, &marker);
    if parts.len() < 2 {
        return None;
    }
    match unsigned_tag_chars(&parts[1], "indexRangeStart", u8::MAX as u64) {
        Some(v) => Some(v as u8),
        None => None,
    }
}

/// The `u32` values of `<Int32>` elements, skipping unreadable ones.
pub open spec fn int32_values(chunks: Seq<Seq<char>>) -> Seq<u32>
    decreases chunks.len(),
{
    if chunks.len() == 0 {
        Seq::empty()
    } else {
        let rest = int32_values(chunks.drop_last());
        match parse_unsigned(trimmed(chunks.last()), u32::MAX as int) {
            Some(v) => rest.push(v as u32),
            None => rest,
        }
    }
}

/// Stage side lengths: the readable `<Int32>` values inside `stageSideLengths`.
pub open spec fn stage_side_lengths_spec(x: Seq<char>) -> Seq<u32> {
    match tag_value_spec(x, "stageSideLengths"@) {
        None => Seq::empty(),
        Some(b) => int32_values(
            split_from(b, "<Int32>"@, 0).drop_first().map_values(
                |c: Seq<char>| head_before(c, "</Int32>"@),
            ),
        ),
    }
}

/// Stage side lengths listed in the config.
pub fn stage_side_lengths(xml: &str) -> (r: Vec<u32>)
    ensures
        r@ == stage_side_lengths_spec(xml@),
{
    let x = chars_of(xml);
    let block = match tag_value_chars(&x, "stageSideLengths") {
        Some(b) => b,
        None => {
            return Vec::new();
        },
    };
    proof {
        reveal_strlit("<Int32>");
    }
    let bodies = element_bodies(&block, "<Int32>", "</Int32>");
    let ghost chunks = split_from(block@, "<Int32>"@, 0).drop_first().map_values(
        |c: Seq<char>| head_before(c, "</Int32>"@),
    );
    let mut out: Vec<u32> = Vec::new();
    let mut i: usize = 0;
    while i < bodies.len()
        invariant
            i <= bodies@.len(),
            bodies@.len() == chunks.len(),
            forall|k: int| 0 <= k < bodies@.len() ==> #[trigger] bodies@[k]@ == chunks[k],
            out@ == int32_values(chunks.subrange(0, i as int)),
        decreases bodies@.len() - i,
    {
        assert(chunks.subrange(0, i + 1).drop_last() == chunks.subrange(0, i as int));
        let (a, b) = trim_bounds(&bodies[i], 0, bodies[i].len());
        assert(bodies@[i as int]@.subrange(0, bodies@[i as int]@.len() as int) == bodies@[i as int]@);
        let v = slice_chars(&bodies[i], a, b);
        match parse_unsigned_chars(&v, u32::MAX as u64) {
            Some(n) => {
                out.push(n as u32);
            },
            None => {},
        }
        i = i + 1;
    }
    assert(chunks.subrange(0, chunks.len() as int) == chunks);
    out
}

/// The palette entry an `<LEDColor>` body describes.
pub open spec fn led_color_entry(e: Seq<char>) -> PaletteEntry {
    let c1 = match unsigned_tag_spec(e, "color1"@, u32::MAX as int) {
        Some(v) => v as u32,
        None => 0u32,
    };
    let c2 = match unsigned_tag_spec(e, "color2"@, u32::MAX as int) {
        Some(v) => v as u32,
        None => 0u32,
    };
    if bool_tag_spec(e, "color2Enabled"@) == Some(true) {
        PaletteEntry { color1: c1, color2: c2, color2_enabled: true }
    } else {
        solid_entry(c1)
    }
}

/// The palette in the config: one entry per `<LEDColor>` inside `colors`,
/// or the built-in palette without a `colors` tag.
pub open spec fn color_palette_spec(x: Seq<char>) -> Seq<PaletteEntry> {
    match tag_value_spec(x, "colors"@) {
        None => default_palette_colors(),
        Some(b) => split_from(b, "<LEDColor>"@, 0).drop_first().map_values(
            |c: Seq<char>| led_color_entry(head_before(c, "</LEDColor>"@)),
        ),
    }
}

fn led_color_entry_of(e: &[char]) -> (r: PaletteEntry)
    ensures
        r == led_color_entry(e@),
{
    let c1 = match unsigned_tag_chars(e, "color1", u32::MAX as u64) {
        Some(v) => v as u32,
        None => 0,
    };
    let c2 = match unsigned_tag_chars(e, "color2", u32::MAX as u64) {
        Some(v) => v as u32,
        None => 0,
    };
    let enabled = bool_tag_chars(e, "color2Enabled");
    if enabled == Some(true) {
        PaletteEntry::gradient(c1, c2)
    } else {
        PaletteEntry::solid(c1)
    }
}

/// The palette the config lists.
pub fn color_palette(xml: &str) -> (r: ColorPalette)
    ensures
        r.colors@ == color_palette_spec(xml@),
{
    let x = chars_of(xml);
    let block = match tag_value_chars(&x, "colors") {
        Some(b) => b,
        None => {
            return ColorPalette::default();
        },
    };
    proof {
        reveal_strlit("<LEDColor>");
    }
    let bodies = element_bodies(&block, "<LEDColor>", "</LEDColor>");
    let ghost target = split_from(block@, "<LEDColor>"@, 0).drop_first().map_values(
        |c: Seq<char>| led_color_entry(head_before(c, "</LEDColor>"@)),
    );
    let mut colors: Vec<PaletteEntry> = Vec::new();
    let mut i: usize = 0;
    while i < bodies.len()
        invariant
            i <= bodies@.len(),
            bodies@.len() == target.len(),
            forall|k: int|
                0 <= k < bodies@.len() ==> led_color_entry(#[trigger] bodies@[k]@) == target[k],
            colors@ == target.subrange(0, i as int),
        decreases bodies@.len() - i,
    {
        let e = led_color_entry_of(&bodies[i]);
        colors.push(e);
        assert(target.subrange(0, i + 1) == target.subrange(0, i as int).push(target[i as int]));
        i = i + 1;
    }
    assert(target.subrange(0, target.len() as int) == target);
    ColorPalette { colors }
}

/// Channel-to-preset assignments of `<Item>` bodies: a readable `u8` `Key`
/// and a `Value` make one entry, later items replacing earlier ones.
pub open spec fn preset_assignments(items: Seq<Seq<char>>) -> Map<u8, Seq<char>>
    decreases items.len(),
{
    if items.len() == 0 {
        Map::empty()
    } else {
        let m = preset_assignments(items.drop_last());
        let it = items.last();
        match unsigned_tag_spec(it, "Key"@, u8::MAX as int) {
            None => m,
            Some(ch) => match tag_value_spec(it, "Value"@) {
                Some(v) => m.insert(ch as u8, v),
                None => m,
            },
        }
    }
}

/// Channel-to-preset assignments listed under `tag`.
pub open spec fn channel_preset_map_spec(x: Seq<char>, tag: Seq<char>) -> Map<u8, Seq<char>> {
    match tag_value_spec(x, tag) {
        None => Map::empty(),
        Some(b) => preset_assignments(items_spec(b)),
    }
}

/// Channel-to-preset assignments listed under `tag`.
pub fn channel_preset_map(xml: &str, tag: &str) -> (r: BTreeMap<u8, String>)
    ensures
        r@.dom() == channel_preset_map_spec(xml@, tag@).dom(),
        forall|k: u8|
            #[trigger] r@.contains_key(k) ==> r@[k]@ == channel_preset_map_spec(xml@, tag@)[k],
{
    let mut map: BTreeMap<u8, String> = BTreeMap::new();
    let x = chars_of(xml);
    let block = match tag_value_chars(&x, tag) {
        Some(b) => b,
        None => {
            assert(map@.dom() =~= Set::<u8>::empty());
            return map;
        },
    };
    proof {
        reveal_strlit("<Item>");
    }
    let items = element_bodies(&block, "<Item>", "</Item>");
    let ghost spec_items = items_spec(block@);
    let mut i: usize = 0;
    while i < items.len()
        invariant
            i <= items@.len(),
            items@.len() == spec_items.len(),
            forall|k: int| 0 <= k < items@.len() ==> #[trigger] items@[k]@ == spec_items[k],
            map@.dom() == preset_assignments(spec_items.subrange(0, i as int)).dom(),
            forall|k: u8|
                #[trigger] map@.contains_key(k) ==> map@[k]@ == preset_assignments(
                    spec_items.subrange(0, i as int),
                )[k],
        decreases items@.len() - i,
    {
        assert(spec_items.subrange(0, i + 1).drop_last() == spec_items.subrange(0, i as int));
        assert(spec_items.subrange(0, i + 1).last() == items@[i as int]@);
        match unsigned_tag_chars(&items[i], "Key", u8::MAX as u64) {
            None => {},
            Some(ch) => match tag_value_chars(&items[i], "Value") {
                Some(v) => {
                    let ghost before = map@;
                    map.insert(ch as u8, string_from_chars(&v));
                    assert(map@.dom() == preset_assignments(spec_items.subrange(0, i + 1)).dom());
                },
                None => {},
            },
        }
        i = i + 1;
    }
    assert(spec_items.subrange(0, spec_items.len() as int) == spec_items);
    map
}

/// The local OPC address keeping the port and optional channel of
/// `host:port[:channel]` (port 7890 when missing).
pub open spec fn localhost_opc_address_spec(a: Seq<char>) -> Seq<char> {
    let parts = split_from(a, ":"@, 0);
    let port = if parts.len() > 1 {
        parts[1]
    } else {
        "7890"@
    };
    let channel = if parts.len() > 2 {
        ":"@ + parts[2]
    } else {
        Seq::<char>::empty()
    };
    "127.0.0.1:"@ + port + channel
}

/// Rewrite an OPC address to the local host, keeping port and channel.
pub fn localhost_opc_address(address: &str) -> (r: String)
    ensures
        r@ == localhost_opc_address_spec(address@),
{
    let a = chars_of(address);
    let colon = chars_of(":");
    proof {
        reveal_strlit(":");
    }
    let parts = split_chars(&a, &colon);
    let mut out = chars_of("127.0.0.1:");
    if parts.len() > 1 {
        let mut p = slice_chars(&parts[1], 0, parts[1].len());
        assert(parts@[1]@.subrange(0, parts@[1]@.len() as int) == parts@[1]@);
        out.append(&mut p);
    } else {
        let mut p = chars_of("7890");
        out.append(&mut p);
    }
    if parts.len() > 2 {
        let mut c = chars_of(":");
        out.append(&mut c);
        let mut p = slice_chars(&parts[2], 0, parts[2].len());
        assert(parts@[2]@.subrange(0, parts@[2]@.len() as int) == parts@[2]@);
        out.append(&mut p);
    }
    string_from_chars(&out)
}

} // verus!
