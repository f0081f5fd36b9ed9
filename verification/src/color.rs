//! RGB colors and the palette: eight banks of eight entries.
use vstd::prelude::*;

verus! {

/// Packed RGB color with explicit channels.
#[derive(Clone, Copy, Debug, Default, PartialEq, Eq, Structural)]
pub struct Rgb {
    /// Red channel.
    pub r: u8,
    /// Green channel.
    pub g: u8,
    /// Blue channel.
    pub b: u8,
}

/// The `0xRRGGBB` integer of three channels.
pub open spec fn pack_rgb(r: u8, g: u8, b: u8) -> int {
    r as int * 65536 + g as int * 256 + b as int
}

/// Red channel of a `0xRRGGBB` integer (bits above 24 ignored).
pub open spec fn red_of(v: u32) -> u8 {
    ((v as int / 65536) % 256) as u8
}

/// Green channel of a `0xRRGGBB` integer.
pub open spec fn green_of(v: u32) -> u8 {
    ((v as int / 256) % 256) as u8
}

/// Blue channel of a `0xRRGGBB` integer.
pub open spec fn blue_of(v: u32) -> u8 {
    (v as int % 256) as u8
}

impl Rgb {
    /// Black/off.
    pub fn black() -> (c: Rgb)
        ensures
            c.r == 0 && c.g == 0 && c.b == 0,
    {
        Rgb { r: 0, g: 0, b: 0 }
    }

    /// Construct from the `0xRRGGBB` integer convention.
    pub fn from_u24(value: u32) -> (c: Rgb)
        ensures
            c.r == red_of(value),
            c.g == green_of(value),
            c.b == blue_of(value),
    {
        let r = ((value >> 16u32) & 0xffu32) as u8;
        let g = ((value >> 8u32) & 0xffu32) as u8;
        let b = (value & 0xffu32) as u8;
        assert(((value >> 16u32) & 0xffu32) == (value / 65536) % 256) by (bit_vector);
        assert(((value >> 8u32) & 0xffu32) == (value / 256) % 256) by (bit_vector);
        assert((value & 0xffu32) == value % 256) by (bit_vector);
        Rgb { r, g, b }
    }

    /// Convert to the `0xRRGGBB` integer convention.
    pub fn to_u24(self) -> (v: u32)
        ensures
            v == pack_rgb(self.r, self.g, self.b),
    {
        let r = self.r as u32;
        let g = self.g as u32;
        let b = self.b as u32;
        assert(((r << 16u32) | (g << 8u32) | b) == r * 65536 + g * 256 + b) by (bit_vector)
            requires
                r < 256,
                g < 256,
                b < 256,
        ;
        (r << 16u32) | (g << 8u32) | b
    }
}

/// One palette entry.
#[derive(Clone, Copy, Debug, PartialEq, Eq, Structural)]
pub struct PaletteEntry {
    /// First color encoded as `0xRRGGBB`.
    pub color1: u32,
    /// Second color encoded as `0xRRGGBB`.
    pub color2: u32,
    /// Whether this entry blends between both colors.
    pub color2_enabled: bool,
}

/// The solid entry for a color.
pub open spec fn solid_entry(color: u32) -> PaletteEntry {
    PaletteEntry { color1: color, color2: 0, color2_enabled: false }
}

impl PaletteEntry {
    /// Create a solid palette entry.
    pub fn solid(color: u32) -> (e: PaletteEntry)
        ensures
            e == solid_entry(color),
    {
        PaletteEntry { color1: color, color2: 0, color2_enabled: false }
    }

    /// Create a gradient palette entry.
    pub fn gradient(color1: u32, color2: u32) -> (e: PaletteEntry)
        ensures
            e == (PaletteEntry { color1, color2, color2_enabled: true }),
    {
        PaletteEntry { color1, color2, color2_enabled: true }
    }

    /// The solid color of this entry: its first color.
    pub fn single_color(self) -> (c: Rgb)
        ensures
            c.r == red_of(self.color1),
            c.g == green_of(self.color1),
            c.b == blue_of(self.color1),
    {
        Rgb::from_u24(self.color1)
    }
}

impl Default for PaletteEntry {
    fn default() -> (e: PaletteEntry)
        ensures
            e == solid_entry(0),
    {
        PaletteEntry::solid(0)
    }
}

/// Number of palette banks.
pub const BANKS: usize = 8;
/// Number of colors in each bank.
pub const COLORS_PER_BANK: usize = 8;
/// Total palette entries.
pub const ENTRY_COUNT: usize = 64;

/// Absolute palette position of a bank-relative color index.
pub open spec fn absolute_position(relative: int, bank: int) -> int {
    relative + bank * COLORS_PER_BANK
}

/// The palette: entries in absolute color index order.
#[derive(Clone, Debug, PartialEq, Eq)]
pub struct ColorPalette {
    /// Palette entries in absolute color index order.
    pub colors: Vec<PaletteEntry>,
}

/// The entry a palette shows at a position: the stored one, or black
/// beyond the end.
pub open spec fn entry_at(colors: Seq<PaletteEntry>, i: int) -> PaletteEntry {
    if 0 <= i < colors.len() {
        colors[i]
    } else {
        solid_entry(0)
    }
}

/// The built-in palette: green, blue and pink first, black elsewhere.
pub open spec fn default_palette_colors() -> Seq<PaletteEntry> {
    Seq::new(
        ENTRY_COUNT as nat,
        |i: int|
            if i == 0 {
                solid_entry(0x00ff00)
            } else if i == 1 {
                solid_entry(0x0080ff)
            } else if i == 2 {
                solid_entry(0xff4080)
            } else {
                solid_entry(0)
            },
    )
}

impl ColorPalette {
    /// Convert a bank-relative color index into the absolute index.
    pub fn absolute_index(relative_color_index: usize, color_palette_index: u8) -> (r: usize)
        requires
            relative_color_index + color_palette_index * COLORS_PER_BANK <= usize::MAX,
        ensures
            r == absolute_position(relative_color_index as int, color_palette_index as int),
    {
        relative_color_index + (color_palette_index as usize) * COLORS_PER_BANK
    }

    /// The palette entry at an absolute index, black when absent.
    pub fn entry(&self, absolute_index: usize) -> (e: PaletteEntry)
        ensures
            e == entry_at(self.colors@, absolute_index as int),
    {
        if absolute_index < self.colors.len() {
            self.colors[absolute_index]
        } else {
            PaletteEntry::default()
        }
    }

    /// The solid color of a bank-relative entry.
    pub fn single_color(&self, relative_color_index: usize, color_palette_index: u8) -> (c: Rgb)
        requires
            relative_color_index + color_palette_index * COLORS_PER_BANK <= usize::MAX,
        ensures
            ({
                let e = entry_at(
                    self.colors@,
                    absolute_position(relative_color_index as int, color_palette_index as int),
                );
                c.r == red_of(e.color1) && c.g == green_of(e.color1) && c.b == blue_of(e.color1)
            }),
    {
        self.entry(ColorPalette::absolute_index(relative_color_index, color_palette_index)).single_color()
    }
}

impl Default for ColorPalette {
    fn default() -> (p: ColorPalette)
        ensures
            p.colors@ == default_palette_colors(),
    {
        let mut colors: Vec<PaletteEntry> = Vec::new();
        let mut i: usize = 0;
        while i < ENTRY_COUNT
            invariant
                i <= ENTRY_COUNT,
                colors@ == default_palette_colors().subrange(0, i as int),
            decreases ENTRY_COUNT - i,
        {
            let e = if i == 0 {
                PaletteEntry::solid(0x00ff00)
            } else if i == 1 {
                PaletteEntry::solid(0x0080ff)
            } else if i == 2 {
                PaletteEntry::solid(0xff4080)
            } else {
                PaletteEntry::solid(0)
            };
            colors.push(e);
            assert(default_palette_colors().subrange(0, i + 1) == default_palette_colors().subrange(
                0,
                i as int,
            ).push(e));
            i = i + 1;
        }
        assert(default_palette_colors().subrange(0, ENTRY_COUNT as int) == default_palette_colors());
        ColorPalette { colors }
    }
}

/// Packing the channels of an unpacked color gives back its low 24 bits,
/// and unpacking a packed color gives back its channels.
pub proof fn law_u24_round_trip(value: u32, r: u8, g: u8, b: u8)
    ensures
        pack_rgb(red_of(value), green_of(value), blue_of(value)) == value as int % 0x1000000,
        red_of(pack_rgb(r, g, b) as u32) == r,
        green_of(pack_rgb(r, g, b) as u32) == g,
        blue_of(pack_rgb(r, g, b) as u32) == b,
{
    let v = value as int;
    assert(((v / 65536) % 256) * 65536 + ((v / 256) % 256) * 256 + v % 256 == v % 0x1000000)
        by (nonlinear_arith)
        requires
            v >= 0,
    ;
    let p = pack_rgb(r, g, b);
    assert(p < 0x1000000);
    assert((p / 65536) % 256 == r && (p / 256) % 256 == g && p % 256 == b) by (nonlinear_arith)
        requires
            p == r as int * 65536 + g as int * 256 + b as int,
            0 <= r < 256,
            0 <= g < 256,
            0 <= b < 256,
    ;
}

/// Bank-relative indices `0..8` in banks `0..8` cover each of the 64
/// absolute positions exactly once.
pub proof fn law_absolute_index_is_a_bijection(r1: int, b1: int, r2: int, b2: int)
    requires
        0 <= r1 < 8,
        0 <= b1 < 8,
        0 <= r2 < 8,
        0 <= b2 < 8,
    ensures
        0 <= absolute_position(r1, b1) < ENTRY_COUNT,
        absolute_position(r1, b1) == absolute_position(r2, b2) ==> r1 == r2 && b1 == b2,
{
}

/// The brightest channel of a color.
pub open spec fn brightest(c: Rgb) -> u8 {
    if c.r >= c.g && c.r >= c.b {
        c.r
    } else if c.g >= c.b {
        c.g
    } else {
        c.b
    }
}

/// Light paint over `base`: the paint shows where its brightest channel
/// is brighter than the base's; the base stays otherwise.
pub fn light_paint(base: Rgb, paint: Rgb) -> (r: Rgb)
    ensures
        r == if brightest(paint) > brightest(base) {
            paint
        } else {
            base
        },
        brightest(r) == if brightest(paint) > brightest(base) {
            brightest(paint)
        } else {
            brightest(base)
        },
{
    let paint_max = if paint.r >= paint.g && paint.r >= paint.b {
        paint.r
    } else if paint.g >= paint.b {
        paint.g
    } else {
        paint.b
    };
    let base_max = if base.r >= base.g && base.r >= base.b {
        base.r
    } else if base.g >= base.b {
        base.g
    } else {
        base.b
    };
    if paint_max > base_max {
        paint
    } else {
        base
    }
}

} // verus!
