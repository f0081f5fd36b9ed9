//! Stable FNV-1a hashes of simulator frames, for comparing rendered frames
//! with recorded ones.
use vstd::prelude::*;

use crate::color::Rgb;
use crate::outputs::{rgb_bytes, BarCommand, DomeCommand, StageCommand};
use crate::visualizers::{
    hash_byte, hash_bytes, hash_usize, le_bytes, lemma_hash_bytes_concat, lemma_hash_bytes_push,
};

verus! {

/// The FNV-1a 64-bit offset basis every frame hash starts from.
pub const FNV_OFFSET: u64 = 0xcbf2_9ce4_8422_2325;

/// The bytes a dome command contributes: a tag (0 flush, 1 frame, 2 pixel),
/// then the frame's colors, or the pixel's strut and LED index (eight
/// little-endian bytes each) and its color.
pub open spec fn dome_command_bytes(c: DomeCommand) -> Seq<u8> {
    match c {
        DomeCommand::Flush => seq![0u8],
        DomeCommand::Frame(colors) => seq![1u8] + rgb_bytes(colors@),
        DomeCommand::Pixel { strut_index, led_index, color } => seq![2u8] + le_bytes(
            strut_index as u64,
        ) + le_bytes(led_index as u64) + seq![color.r, color.g, color.b],
    }
}

/// The bytes of a bar command: a tag (0 flush, 2 pixel), then the runner
/// flag, the LED index and the color.
pub open spec fn bar_command_bytes(c: BarCommand) -> Seq<u8> {
    match c {
        BarCommand::Flush => seq![0u8],
        BarCommand::Pixel { is_runner, led_index, color } => seq![
            2u8,
            if is_runner {
                1u8
            } else {
                0u8
            },
        ] + le_bytes(led_index as u64) + seq![color.r, color.g, color.b],
    }
}

/// The bytes of a stage command: a tag (0 flush, 2 pixel), then the side,
/// LED and layer index and the color.
pub open spec fn stage_command_bytes(c: StageCommand) -> Seq<u8> {
    match c {
        StageCommand::Flush => seq![0u8],
        StageCommand::Pixel { side_index, led_index, layer_index, color } => seq![2u8] + le_bytes(
            side_index as u64,
        ) + le_bytes(led_index as u64) + le_bytes(layer_index as u64) + seq![
            color.r,
            color.g,
            color.b,
        ],
    }
}

/// The bytes of a dome frame, command after command.
pub open spec fn dome_frame_bytes(cs: Seq<DomeCommand>) -> Seq<u8>
    decreases cs.len(),
{
    if cs.len() == 0 {
        seq![]
    } else {
        dome_frame_bytes(cs.drop_last()) + dome_command_bytes(cs.last())
    }
}

/// The bytes of a bar frame, command after command.
pub open spec fn bar_frame_bytes(cs: Seq<BarCommand>) -> Seq<u8>
    decreases cs.len(),
{
    if cs.len() == 0 {
        seq![]
    } else {
        bar_frame_bytes(cs.drop_last()) + bar_command_bytes(cs.last())
    }
}

/// The bytes of a stage frame, command after command.
pub open spec fn stage_frame_bytes(cs: Seq<StageCommand>) -> Seq<u8>
    decreases cs.len(),
{
    if cs.len() == 0 {
        seq![]
    } else {
        stage_frame_bytes(cs.drop_last()) + stage_command_bytes(cs.last())
    }
}

fn hash_color(hash: &mut u64, color: Rgb)
    ensures
        *final(hash) == hash_bytes(*old(hash), seq![color.r, color.g, color.b]),
{
    let ghost h0 = *hash;
    hash_byte(hash, color.r);
    hash_byte(hash, color.g);
    hash_byte(hash, color.b);
    proof {
        let e = Seq::<u8>::empty();
        lemma_hash_bytes_push(h0, e, color.r);
        lemma_hash_bytes_push(h0, e.push(color.r), color.g);
        lemma_hash_bytes_push(h0, e.push(color.r).push(color.g), color.b);
        assert(e.push(color.r).push(color.g).push(color.b) == seq![color.r, color.g, color.b]);
        assert(e.push(color.r) == seq![color.r]);
    }
}

fn hash_tag(hash: &mut u64, tag: u8)
    ensures
        *final(hash) == hash_bytes(*old(hash), seq![tag]),
{
    let ghost h0 = *hash;
    hash_byte(hash, tag);
    proof {
        lemma_hash_bytes_push(h0, Seq::<u8>::empty(), tag);
        assert(Seq::<u8>::empty().push(tag) == seq![tag]);
    }
}

fn hash_dome_command(hash: &mut u64, command: &DomeCommand)
    ensures
        *final(hash) == hash_bytes(*old(hash), dome_command_bytes(*command)),
{
    let ghost h0 = *hash;
    match command {
        DomeCommand::Flush => {
            hash_tag(hash, 0);
        },
        DomeCommand::Frame(colors) => {
            hash_tag(hash, 1);
            let mut i: usize = 0;
            while i < colors.len()
                invariant
                    i <= colors@.len(),
                    *hash == hash_bytes(h0, seq![1u8] + rgb_bytes(colors@.subrange(0, i as int))),
                decreases colors@.len() - i,
            {
                let ghost before = *hash;
                let ghost done = seq![1u8] + rgb_bytes(colors@.subrange(0, i as int));
                let c = colors[i];
                hash_color(hash, c);
                proof {
                    lemma_hash_bytes_concat(h0, done, seq![c.r, c.g, c.b]);
                    assert(colors@.subrange(0, i + 1).drop_last() == colors@.subrange(0, i as int));
                    assert(colors@.subrange(0, i + 1).last() == c);
                    assert(seq![1u8] + rgb_bytes(colors@.subrange(0, i + 1)) == done + seq![
                        c.r,
                        c.g,
                        c.b,
                    ]);
                }
                i = i + 1;
            }
            assert(colors@.subrange(0, colors@.len() as int) == colors@);
            if colors.len() == 0 {
                assert(seq![1u8] + rgb_bytes(colors@.subrange(0, 0)) == seq![1u8]);
            }
        },
        DomeCommand::Pixel { strut_index, led_index, color } => {
            hash_tag(hash, 2);
            let ghost h1 = *hash;
            hash_usize(hash, *strut_index);
            let ghost h2 = *hash;
            hash_usize(hash, *led_index);
            let ghost h3 = *hash;
            hash_color(hash, *color);
            proof {
                let a = seq![2u8];
                let b = le_bytes(*strut_index as u64);
                let c = le_bytes(*led_index as u64);
                let d = seq![color.r, color.g, color.b];
                lemma_hash_bytes_concat(h0, a, b);
                lemma_hash_bytes_concat(h0, a + b, c);
                lemma_hash_bytes_concat(h0, a + b + c, d);
            }
        },
    }
}

/// The FNV-1a hash of a dome frame's bytes.
pub fn frame_hash(commands: &[DomeCommand]) -> (r: u64)
    ensures
        r == hash_bytes(FNV_OFFSET, dome_frame_bytes(commands@)),
{
    let mut hash: u64 = FNV_OFFSET;
    let mut i: usize = 0;
    while i < commands.len()
        invariant
            i <= commands@.len(),
            hash == hash_bytes(FNV_OFFSET, dome_frame_bytes(commands@.subrange(0, i as int))),
        decreases commands@.len() - i,
    {
        let ghost done = dome_frame_bytes(commands@.subrange(0, i as int));
        hash_dome_command(&mut hash, &commands[i]);
        proof {
            lemma_hash_bytes_concat(FNV_OFFSET, done, dome_command_bytes(commands@[i as int]));
            assert(commands@.subrange(0, i + 1).drop_last() == commands@.subrange(0, i as int));
        }
        i = i + 1;
    }
    assert(commands@.subrange(0, commands@.len() as int) == commands@);
    hash
}

/// The FNV-1a hash of a bar frame's bytes.
pub fn bar_frame_hash(commands: &[BarCommand]) -> (r: u64)
    ensures
        r == hash_bytes(FNV_OFFSET, bar_frame_bytes(commands@)),
{
    let mut hash: u64 = FNV_OFFSET;
    let mut i: usize = 0;
    while i < commands.len()
        invariant
            i <= commands@.len(),
            hash == hash_bytes(FNV_OFFSET, bar_frame_bytes(commands@.subrange(0, i as int))),
        decreases commands@.len() - i,
    {
        let ghost done = bar_frame_bytes(commands@.subrange(0, i as int));
        let ghost h0 = hash;
        match commands[i] {
            BarCommand::Flush => {
                hash_tag(&mut hash, 0);
            },
            BarCommand::Pixel { is_runner, led_index, color } => {
                hash_tag(&mut hash, 2);
                let ghost h1 = hash;
                hash_tag(&mut hash, if is_runner { 1 } else { 0 });
                hash_usize(&mut hash, led_index);
                hash_color(&mut hash, color);
                proof {
                    let f = if is_runner { 1u8 } else { 0u8 };
                    let b = le_bytes(led_index as u64);
                    let d = seq![color.r, color.g, color.b];
                    lemma_hash_bytes_concat(h0, seq![2u8], seq![f]);
                    assert(seq![2u8] + seq![f] == seq![2u8, f]);
                    lemma_hash_bytes_concat(h0, seq![2u8, f], b);
                    lemma_hash_bytes_concat(h0, seq![2u8, f] + b, d);
                }
            },
        }
        proof {
            lemma_hash_bytes_concat(FNV_OFFSET, done, bar_command_bytes(commands@[i as int]));
            assert(commands@.subrange(0, i + 1).drop_last() == commands@.subrange(0, i as int));
        }
        i = i + 1;
    }
    assert(commands@.subrange(0, commands@.len() as int) == commands@);
    hash
}

/// The FNV-1a hash of a stage frame's bytes.
pub fn stage_frame_hash(commands: &[StageCommand]) -> (r: u64)
    ensures
        r == hash_bytes(FNV_OFFSET, stage_frame_bytes(commands@)),
{
    let mut hash: u64 = FNV_OFFSET;
    let mut i: usize = 0;
    while i < commands.len()
        invariant
            i <= commands@.len(),
            hash == hash_bytes(FNV_OFFSET, stage_frame_bytes(commands@.subrange(0, i as int))),
        decreases commands@.len() - i,
    {
        let ghost done = stage_frame_bytes(commands@.subrange(0, i as int));
        let ghost h0 = hash;
        match commands[i] {
            StageCommand::Flush => {
                hash_tag(&mut hash, 0);
            },
            StageCommand::Pixel { side_index, led_index, layer_index, color } => {
                hash_tag(&mut hash, 2);
                hash_usize(&mut hash, side_index);
                hash_usize(&mut hash, led_index);
                hash_usize(&mut hash, layer_index);
                hash_color(&mut hash, color);
                proof {
                    let a = seq![2u8];
                    let b = le_bytes(side_index as u64);
                    let c = le_bytes(led_index as u64);
                    let e = le_bytes(layer_index as u64);
                    let d = seq![color.r, color.g, color.b];
                    lemma_hash_bytes_concat(h0, a, b);
                    lemma_hash_bytes_concat(h0, a + b, c);
                    lemma_hash_bytes_concat(h0, a + b + c, e);
                    lemma_hash_bytes_concat(h0, a + b + c + e, d);
                }
            },
        }
        proof {
            lemma_hash_bytes_concat(FNV_OFFSET, done, stage_command_bytes(commands@[i as int]));
            assert(commands@.subrange(0, i + 1).drop_last() == commands@.subrange(0, i as int));
        }
        i = i + 1;
    }
    assert(commands@.subrange(0, commands@.len() as int) == commands@);
    hash
}

} // verus!
