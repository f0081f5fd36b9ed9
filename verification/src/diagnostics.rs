//! Layouts of the bar and stage "flash colors" diagnostics: which pixel
//! gets which of the six diagnostic colors.
use vstd::prelude::*;

use crate::color::Rgb;
use crate::outputs::{BarCommand, StageCommand, STAGE_LAYERS};
use crate::visualizers::{bar_border_spec, bar_segment, bar_segment_spec, is_bar_border};

verus! {

/// Unlit.
pub open spec fn unlit() -> Rgb {
    Rgb { r: 0, g: 0, b: 0 }
}

/// Color of LED `index` of the infinity strip: off in state 0, only the
/// run ends lit in state 2, else the color of its run.
pub open spec fn bar_infinity_color(state: u8, colors: Seq<Rgb>, index: int, w: int, l: int) -> Rgb {
    if state == 0 || (state == 2 && !bar_border_spec(index, w, l)) {
        unlit()
    } else {
        colors[bar_segment_spec(index, w, l)]
    }
}

/// Color of LED `index` of a runner of `n` LEDs: off in state 0, only its
/// ends lit in state 2, else the fifth color.
pub open spec fn bar_runner_color(state: u8, colors: Seq<Rgb>, index: int, n: int) -> Rgb {
    if state == 0 || (state == 2 && index != 0 && index + 1 != n) {
        unlit()
    } else {
        colors[4]
    }
}

/// The first `k` infinity LEDs.
pub open spec fn bar_infinity_prefix(state: u8, colors: Seq<Rgb>, k: nat, w: int, l: int) -> Seq<
    BarCommand,
> {
    Seq::new(
        k,
        |i: int|
            BarCommand::Pixel {
                is_runner: false,
                led_index: i as usize,
                color: bar_infinity_color(state, colors, i, w, l),
            },
    )
}

/// The first `k` runner LEDs of a runner of `n`.
pub open spec fn bar_runner_prefix(state: u8, colors: Seq<Rgb>, k: nat, n: int) -> Seq<BarCommand> {
    Seq::new(
        k,
        |i: int|
            BarCommand::Pixel {
                is_runner: true,
                led_index: i as usize,
                color: bar_runner_color(state, colors, i, n),
            },
    )
}

/// The bar's flash-colors frame: every infinity LED, every runner LED,
/// then a flush.
pub open spec fn bar_flash_frame(state: u8, colors: Seq<Rgb>, w: nat, l: nat, n: nat) -> Seq<
    BarCommand,
> {
    bar_infinity_prefix(state, colors, 2 * l + 2 * w, w as int, l as int) + bar_runner_prefix(
        state,
        colors,
        n,
        n as int,
    ) + seq![BarCommand::Flush]
}

/// The bar's flash-colors diagnostic frame in diagnostic `state`, with
/// the six diagnostic colors at the current brightness.
pub fn bar_flash_colors(
    state: u8,
    colors: [Rgb; 6],
    infinity_width: usize,
    infinity_length: usize,
    runner_length: usize,
) -> (r: Vec<BarCommand>)
    requires
        2 * infinity_width + 2 * infinity_length <= usize::MAX,
    ensures
        r@ == bar_flash_frame(
            state,
            colors@,
            infinity_width as nat,
            infinity_length as nat,
            runner_length as nat,
        ),
{
    let mut commands: Vec<BarCommand> = Vec::new();
    let infinity_pixels = 2 * infinity_length + 2 * infinity_width;
    let ghost w = infinity_width as int;
    let ghost l = infinity_length as int;
    let mut index: usize = 0;
    while index < infinity_pixels
        invariant
            infinity_pixels == 2 * infinity_length + 2 * infinity_width,
            w == infinity_width,
            l == infinity_length,
            index <= infinity_pixels,
            commands@ == bar_infinity_prefix(state, colors@, index as nat, w, l),
        decreases infinity_pixels - index,
    {
        let color = if state == 0 || (state == 2 && !is_bar_border(
            index,
            infinity_width,
            infinity_length,
        )) {
            Rgb { r: 0, g: 0, b: 0 }
        } else {
            colors[bar_segment(index, infinity_width, infinity_length)]
        };
        commands.push(BarCommand::Pixel { is_runner: false, led_index: index, color });
        index = index + 1;
        assert(commands@ =~= bar_infinity_prefix(state, colors@, index as nat, w, l));
    }
    let ghost infinity = commands@;
    let mut index: usize = 0;
    while index < runner_length
        invariant
            index <= runner_length,
            commands@ == infinity + bar_runner_prefix(
                state,
                colors@,
                index as nat,
                runner_length as int,
            ),
        decreases runner_length - index,
    {
        let color = if state == 0 || (state == 2 && index != 0 && index + 1 != runner_length) {
            Rgb { r: 0, g: 0, b: 0 }
        } else {
            colors[4]
        };
        commands.push(BarCommand::Pixel { is_runner: true, led_index: index, color });
        index = index + 1;
        assert(commands@ =~= infinity + bar_runner_prefix(
            state,
            colors@,
            index as nat,
            runner_length as int,
        ));
    }
    commands.push(BarCommand::Flush);
    commands
}

/// Color of LED `led` of a side of `len` LEDs, on layer `layer` of side
/// `side`, in a lit state: each (side, layer) run takes the next of the six
/// colors; in state 2 only the ends of a run are lit.
pub open spec fn stage_lit_color(
    state: u8,
    colors: Seq<Rgb>,
    side: int,
    layer: int,
    led: int,
    len: int,
) -> Rgb {
    if state == 2 && led != 0 && led + 1 != len {
        unlit()
    } else {
        colors[(side * 3 + layer) % 6]
    }
}

/// The first `k` LEDs of one lit (side, layer) run.
pub open spec fn stage_lit_leds(
    state: u8,
    colors: Seq<Rgb>,
    side: int,
    layer: int,
    len: int,
    k: nat,
) -> Seq<StageCommand> {
    Seq::new(
        k,
        |i: int|
            StageCommand::Pixel {
                side_index: side as usize,
                led_index: i as usize,
                layer_index: layer as usize,
                color: stage_lit_color(state, colors, side, layer, i, len),
            },
    )
}

/// The first `m` layers of a lit side, each run whole.
pub open spec fn stage_lit_layers(state: u8, colors: Seq<Rgb>, side: int, len: int, m: nat) -> Seq<
    StageCommand,
>
    decreases m,
{
    if m == 0 {
        seq![]
    } else {
        stage_lit_layers(state, colors, side, len, (m - 1) as nat) + stage_lit_leds(
            state,
            colors,
            side,
            (m - 1) as int,
            len,
            len as nat,
        )
    }
}

/// The lit sides of `lens`, in order, layer by layer.
pub open spec fn stage_lit_sides(state: u8, colors: Seq<Rgb>, lens: Seq<usize>) -> Seq<StageCommand>
    decreases lens.len(),
{
    if lens.len() == 0 {
        seq![]
    } else {
        stage_lit_sides(state, colors, lens.drop_last()) + stage_lit_layers(
            state,
            colors,
            lens.len() - 1,
            lens.last() as int,
            3,
        )
    }
}

/// The first `k` LEDs of an unlit side, each on all three layers.
pub open spec fn stage_dark_leds(side: int, k: nat) -> Seq<StageCommand>
    decreases k,
{
    if k == 0 {
        seq![]
    } else {
        stage_dark_leds(side, (k - 1) as nat) + Seq::new(
            3,
            |layer: int|
                StageCommand::Pixel {
                    side_index: side as usize,
                    led_index: (k - 1) as usize,
                    layer_index: layer as usize,
                    color: unlit(),
                },
        )
    }
}

/// The unlit sides of `lens`, in order, LED by LED.
pub open spec fn stage_dark_sides(lens: Seq<usize>) -> Seq<StageCommand>
    decreases lens.len(),
{
    if lens.len() == 0 {
        seq![]
    } else {
        stage_dark_sides(lens.drop_last()) + stage_dark_leds(lens.len() - 1, lens.last() as nat)
    }
}

/// The stage's flash-colors frame: all off in state 0, else the lit sides;
/// then a flush.
pub open spec fn stage_flash_frame(state: u8, colors: Seq<Rgb>, lens: Seq<usize>) -> Seq<
    StageCommand,
> {
    if state == 0 {
        stage_dark_sides(lens) + seq![StageCommand::Flush]
    } else {
        stage_lit_sides(state, colors, lens) + seq![StageCommand::Flush]
    }
}

/// The stage's flash-colors diagnostic frame in diagnostic `state`, with
/// the six diagnostic colors at the current brightness.
pub fn stage_flash_colors(state: u8, colors: [Rgb; 6], side_lengths: &[usize]) -> (r: Vec<
    StageCommand,
>)
    ensures
        r@ == stage_flash_frame(state, colors@, side_lengths@),
{
    let mut commands: Vec<StageCommand> = Vec::new();
    if state == 0 {
        let mut side_index: usize = 0;
        while side_index < side_lengths.len()
            invariant
                side_index <= side_lengths@.len(),
                commands@ == stage_dark_sides(side_lengths@.subrange(0, side_index as int)),
            decreases side_lengths@.len() - side_index,
        {
            let side_length = side_lengths[side_index];
            let ghost before = commands@;
            let mut led_index: usize = 0;
            while led_index < side_length
                invariant
                    led_index <= side_length,
                    commands@ == before + stage_dark_leds(side_index as int, led_index as nat),
                decreases side_length - led_index,
            {
                let mut layer_index: usize = 0;
                let ghost row = commands@;
                while layer_index < STAGE_LAYERS
                    invariant
                        layer_index <= STAGE_LAYERS,
                        commands@ == row + Seq::new(
                            layer_index as nat,
                            |layer: int|
                                StageCommand::Pixel {
                                    side_index: side_index,
                                    led_index: led_index,
                                    layer_index: layer as usize,
                                    color: unlit(),
                                },
                        ),
                    decreases STAGE_LAYERS - layer_index,
                {
                    commands.push(
                        StageCommand::Pixel {
                            side_index,
                            led_index,
                            layer_index,
                            color: Rgb { r: 0, g: 0, b: 0 },
                        },
                    );
                    layer_index = layer_index + 1;
                    assert(commands@ =~= row + Seq::new(
                        layer_index as nat,
                        |layer: int|
                            StageCommand::Pixel {
                                side_index: side_index,
                                led_index: led_index,
                                layer_index: layer as usize,
                                color: unlit(),
                            },
                    ));
                }
                led_index = led_index + 1;
                assert(commands@ =~= before + stage_dark_leds(side_index as int, led_index as nat));
            }
            assert(side_lengths@.subrange(0, side_index + 1).drop_last() =~= side_lengths@.subrange(
                0,
                side_index as int,
            ));
            side_index = side_index + 1;
        }
        assert(side_lengths@.subrange(0, side_lengths@.len() as int) =~= side_lengths@);
        commands.push(StageCommand::Flush);
        return commands;
    }
    let mut side_index: usize = 0;
    let mut color_index: usize = 0;
    while side_index < side_lengths.len()
        invariant
            state != 0,
            side_index <= side_lengths@.len(),
            color_index == (side_index * 3) % 6,
            commands@ == stage_lit_sides(
                state,
                colors@,
                side_lengths@.subrange(0, side_index as int),
            ),
        decreases side_lengths@.len() - side_index,
    {
        let side_length = side_lengths[side_index];
        let ghost before = commands@;
        let mut layer_index: usize = 0;
        while layer_index < STAGE_LAYERS
            invariant
                layer_index <= STAGE_LAYERS,
                color_index == (side_index * 3 + layer_index) % 6,
                commands@ == before + stage_lit_layers(
                    state,
                    colors@,
                    side_index as int,
                    side_length as int,
                    layer_index as nat,
                ),
            decreases STAGE_LAYERS - layer_index,
        {
            let ghost run = commands@;
            let mut led_index: usize = 0;
            while led_index < side_length
                invariant
                    led_index <= side_length,
                    color_index < 6,
                    color_index == (side_index * 3 + layer_index) % 6,
                    commands@ == run + stage_lit_leds(
                        state,
                        colors@,
                        side_index as int,
                        layer_index as int,
                        side_length as int,
                        led_index as nat,
                    ),
                decreases side_length - led_index,
            {
                let color = if state == 2 && led_index != 0 && led_index + 1 != side_length {
                    Rgb { r: 0, g: 0, b: 0 }
                } else {
                    colors[color_index]
                };
                commands.push(StageCommand::Pixel { side_index, led_index, layer_index, color });
                led_index = led_index + 1;
                assert(commands@ =~= run + stage_lit_leds(
                    state,
                    colors@,
                    side_index as int,
                    layer_index as int,
                    side_length as int,
                    led_index as nat,
                ));
            }
            color_index = (color_index + 1) % 6;
            layer_index = layer_index + 1;
            assert(commands@ =~= before + stage_lit_layers(
                state,
                colors@,
                side_index as int,
                side_length as int,
                layer_index as nat,
            ));
        }
        assert(side_lengths@.subrange(0, side_index + 1).drop_last() =~= side_lengths@.subrange(
            0,
            side_index as int,
        ));
        side_index = side_index + 1;
    }
    assert(side_lengths@.subrange(0, side_lengths@.len() as int) =~= side_lengths@);
    commands.push(StageCommand::Flush);
    commands
}

} // verus!
