//! Output-side protocols: simulator command streams, the Open Pixel Control
//! frame encoder and the fixture topology.
use vstd::prelude::*;

use crate::color::Rgb;

verus! {

/// Number of logical dome struts.
pub const DOME_STRUTS: usize = 190;
/// Number of logical dome LEDs across all struts.
pub const DOME_PIXELS: usize = 7_580;
/// Number of dome projection vertices.
pub const DOME_VERTICES: usize = 71;
/// Bar control box index when routed through dome OPC.
pub const BAR_DOME_CONTROL_BOX: usize = 5;
/// Stage side count.
pub const STAGE_SIDES: usize = 48;
/// Stage layer count.
pub const STAGE_LAYERS: usize = 3;

/// Dome simulator command.
#[derive(Clone, Debug, PartialEq, Eq)]
pub enum DomeCommand {
    /// Flush/redraw marker.
    Flush,
    /// Whole frame in canonical strut-major order.
    Frame(Vec<Rgb>),
    /// Single logical LED write.
    Pixel {
        /// Strut index.
        strut_index: usize,
        /// LED index within the strut.
        led_index: usize,
        /// RGB color.
        color: Rgb,
    },
}

/// Bar simulator command.
#[derive(Clone, Copy, Debug, PartialEq, Eq, Structural)]
pub enum BarCommand {
    /// Flush marker.
    Flush,
    /// Bar pixel write.
    Pixel {
        /// Whether the pixel is on the runner strip.
        is_runner: bool,
        /// Logical LED index.
        led_index: usize,
        /// RGB color.
        color: Rgb,
    },
}

/// Stage simulator command.
#[derive(Clone, Copy, Debug, PartialEq, Eq, Structural)]
pub enum StageCommand {
    /// Flush/redraw marker.
    Flush,
    /// Stage pixel write.
    Pixel {
        /// Side index.
        side_index: usize,
        /// LED index.
        led_index: usize,
        /// Layer index.
        layer_index: usize,
        /// RGB color.
        color: Rgb,
    },
}

/// The channel bytes of a pixel run, three per pixel in `r, g, b` order.
pub open spec fn rgb_bytes(pixels: Seq<Rgb>) -> Seq<u8>
    decreases pixels.len(),
{
    if pixels.len() == 0 {
        Seq::empty()
    } else {
        rgb_bytes(pixels.drop_last()) + seq![pixels.last().r, pixels.last().g, pixels.last().b]
    }
}

/// One OPC frame chunk as the LED controller reads it: channel, command
/// 0, the payload length (big endian, two bytes), then the payload.
pub open spec fn opc_frame(channel: u8, pixels: Seq<Rgb>) -> Seq<u8> {
    let n = 3 * pixels.len();
    seq![channel, 0u8, (n / 256) as u8, (n % 256) as u8] + rgb_bytes(pixels)
}

proof fn lemma_rgb_bytes_len(pixels: Seq<Rgb>)
    ensures
        rgb_bytes(pixels).len() == 3 * pixels.len(),
    decreases pixels.len(),
{
    if pixels.len() > 0 {
        lemma_rgb_bytes_len(pixels.drop_last());
    }
}

/// Encode one OPC frame chunk in the controller's format (no `0xff` magic prefix).
pub fn encode_frame(channel: u8, pixels: &[Rgb]) -> (out: Vec<u8>)
    requires
        3 * pixels@.len() <= u16::MAX,
    ensures
        out@ == opc_frame(channel, pixels@),
{
    let byte_len = pixels.len() * 3;
    let mut out: Vec<u8> = Vec::new();
    out.push(channel);
    out.push(0);
    out.push(((byte_len >> 8usize) & 0xff) as u8);
    out.push((byte_len & 0xff) as u8);
    assert(((byte_len >> 8usize) & 0xff) == byte_len / 256) by (bit_vector)
        requires
            byte_len <= 0xffff,
    ;
    assert((byte_len & 0xff) == byte_len % 256) by (bit_vector);
    let ghost header = out@;
    let mut i: usize = 0;
    while i < pixels.len()
        invariant
            i <= pixels@.len(),
            out@ == header + rgb_bytes(pixels@.subrange(0, i as int)),
        decreases pixels@.len() - i,
    {
        let p = pixels[i];
        out.push(p.r);
        out.push(p.g);
        out.push(p.b);
        assert(pixels@.subrange(0, i + 1).drop_last() == pixels@.subrange(0, i as int));
        i = i + 1;
    }
    assert(pixels@.subrange(0, pixels@.len() as int) == pixels@);
    out
}

/// The payload of a well-formed chunk has exactly the length its header
/// announces, and the pixel at `k` sits at bytes `4 + 3k .. 4 + 3k + 3`.
pub proof fn law_opc_header_matches_payload(channel: u8, pixels: Seq<Rgb>, k: int)
    requires
        3 * pixels.len() <= u16::MAX,
        0 <= k < pixels.len(),
    ensures
        ({
            let f = opc_frame(channel, pixels);
            &&& f.len() == 4 + 3 * pixels.len()
            &&& f[2] as int * 256 + f[3] as int == 3 * pixels.len()
            &&& f[4 + 3 * k] == pixels[k].r
            &&& f[4 + 3 * k + 1] == pixels[k].g
            &&& f[4 + 3 * k + 2] == pixels[k].b
        }),
{
    lemma_rgb_bytes_len(pixels);
    lemma_rgb_bytes_at(pixels, k);
}

proof fn lemma_rgb_bytes_at(pixels: Seq<Rgb>, k: int)
    requires
        0 <= k < pixels.len(),
    ensures
        rgb_bytes(pixels).len() == 3 * pixels.len(),
        rgb_bytes(pixels)[3 * k] == pixels[k].r,
        rgb_bytes(pixels)[3 * k + 1] == pixels[k].g,
        rgb_bytes(pixels)[3 * k + 2] == pixels[k].b,
    decreases pixels.len(),
{
    lemma_rgb_bytes_len(pixels);
    let rest = pixels.drop_last();
    lemma_rgb_bytes_len(rest);
    if k < pixels.len() - 1 {
        lemma_rgb_bytes_at(rest, k);
        assert(rest[k] == pixels[k]);
    }
}

} // verus!
