use domers::color::{ColorPalette, PaletteEntry};
use domers::palette_names::{dry_palette, entry_name_string};

#[test]
fn entry_names_are_zero_padded() {
    assert_eq!(entry_name_string(0), "entry_01");
    assert_eq!(entry_name_string(9), "entry_10");
    assert_eq!(entry_name_string(63), "entry_64");
}

#[test]
fn default_palette_names_four_distinct_entries() {
    let dry = dry_palette(&ColorPalette::default());
    assert!(dry.colors.is_empty());
    assert!(dry.slots.is_empty());
    assert_eq!(dry.banks.len(), 8);
    assert!(dry.banks.iter().all(|bank| bank.len() == 8));
    let names: Vec<&str> = dry.entries.iter().map(|(name, _)| name.as_str()).collect();
    assert_eq!(names, vec!["entry_01", "entry_02", "entry_03", "entry_04"]);
    assert_eq!(dry.entries[0].1, PaletteEntry::solid(0x00_ff_00));
    assert_eq!(dry.entries[3].1, PaletteEntry::solid(0));
    assert_eq!(
        dry.banks[0],
        vec!["entry_01", "entry_02", "entry_03", "entry_04", "entry_04", "entry_04", "entry_04", "entry_04"]
    );
    assert_eq!(dry.banks[7][7], "entry_04");
}

#[test]
fn named_palette_reads_back() {
    let mut colors = Vec::new();
    for i in 0..10u32 {
        colors.push(if i % 3 == 0 {
            PaletteEntry::gradient(i, 0xff)
        } else {
            PaletteEntry::solid(i % 4)
        });
    }
    let palette = ColorPalette { colors };
    let back = dry_palette(&palette).into_color_palette();
    assert_eq!(back.colors.len(), 64);
    assert_eq!(&back.colors[..10], &palette.colors[..]);
    assert!(back.colors[10..].iter().all(|e| *e == PaletteEntry::solid(0)));

    let default_back = dry_palette(&ColorPalette::default()).into_color_palette();
    assert_eq!(default_back.colors, ColorPalette::default().colors);
}
