use domers::color::{light_paint, ColorPalette, PaletteEntry, Rgb};

#[test]
fn converts_spectrum_packed_rgb() {
    let rgb = Rgb::from_u24(0x12_34_56);
    assert_eq!(
        rgb,
        Rgb {
            r: 0x12,
            g: 0x34,
            b: 0x56
        }
    );
    assert_eq!(rgb.to_u24(), 0x12_34_56);
}

#[test]
fn palette_uses_spectrum_absolute_indices() {
    assert_eq!(ColorPalette::absolute_index(0, 0), 0);
    assert_eq!(ColorPalette::absolute_index(0, 3), 24);
    assert_eq!(ColorPalette::absolute_index(7, 7), 63);
}

#[test]
fn packed_rgb_ignores_high_byte() {
    assert_eq!(Rgb::from_u24(0xff_12_34_56).to_u24(), 0x12_34_56);
    assert_eq!(Rgb::black().to_u24(), 0);
}

#[test]
fn solid_entry_repeats_its_color() {
    let entry = PaletteEntry::solid(0x11_22_33);
    assert_eq!(entry.single_color().to_u24(), 0x11_22_33);
    let gradient = PaletteEntry::gradient(0xff_00_00, 0x00_00_ff);
    assert_eq!(gradient.single_color().to_u24(), 0xff_00_00);
}

#[test]
fn palette_single_color_reads_bank_entry() {
    let mut colors = Vec::new();
    for i in 0..64u32 {
        colors.push(PaletteEntry::solid(i));
    }
    let palette = ColorPalette { colors };
    assert_eq!(palette.single_color(2, 3).to_u24(), 26);
    assert_eq!(palette.entry(63).single_color().to_u24(), 63);
}

#[test]
fn light_paint_keeps_the_brighter() {
    let base = Rgb { r: 10, g: 200, b: 0 };
    let dim = Rgb { r: 150, g: 150, b: 150 };
    let bright = Rgb { r: 0, g: 0, b: 201 };
    assert_eq!(light_paint(base, dim), base);
    assert_eq!(light_paint(base, bright), bright);
    assert_eq!(light_paint(base, Rgb { r: 200, g: 0, b: 0 }), base);
}
