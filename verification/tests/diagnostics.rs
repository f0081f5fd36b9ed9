use domers::color::Rgb;
use domers::diagnostics::{bar_flash_colors, stage_flash_colors};
use domers::visualizers::{bar_segment, is_bar_border, stage_second_part, triangle_length};
use domers::outputs::{BarCommand, StageCommand};

fn full_brightness_colors() -> [Rgb; 6] {
    [
        Rgb::from_u24(0xff_00_00),
        Rgb::from_u24(0x00_ff_00),
        Rgb::from_u24(0x00_00_ff),
        Rgb::from_u24(0xff_ff_00),
        Rgb::from_u24(0xff_00_ff),
        Rgb::from_u24(0x00_ff_ff),
    ]
}

fn black() -> Rgb {
    Rgb { r: 0, g: 0, b: 0 }
}

fn bar_covers_runner_and_infinity() {
    let commands = bar_flash_colors(1, full_brightness_colors(), 4, 6, 5);
    assert!(commands.iter().any(|command| matches!(
        command,
        BarCommand::Pixel {
            is_runner: false,
            ..
        }
    )));
    assert!(commands.iter().any(|command| matches!(
        command,
        BarCommand::Pixel {
            is_runner: true,
            ..
        }
    )));
    assert!(commands
        .iter()
        .any(|command| matches!(command, BarCommand::Flush)));
}

#[test]
fn lib_used_bar_diagnostic_covers_runner_and_infinity() {
    bar_covers_runner_and_infinity();
}

#[test]
fn mod_used_bar_diagnostic_covers_runner_and_infinity() {
    bar_covers_runner_and_infinity();
}

#[test]
fn bar_runs_and_borders() {
    // width 4, length 6: runs [0,6) [6,10) [10,16) [16,20)
    assert_eq!(bar_segment(0, 4, 6), 0);
    assert_eq!(bar_segment(5, 4, 6), 0);
    assert_eq!(bar_segment(6, 4, 6), 1);
    assert_eq!(bar_segment(9, 4, 6), 1);
    assert_eq!(bar_segment(10, 4, 6), 2);
    assert_eq!(bar_segment(15, 4, 6), 2);
    assert_eq!(bar_segment(16, 4, 6), 3);
    assert_eq!(bar_segment(19, 4, 6), 3);
    let borders: Vec<usize> = (0..20).filter(|&i| is_bar_border(i, 4, 6)).collect();
    assert_eq!(borders, vec![0, 5, 6, 9, 10, 15, 16, 19]);
}

#[test]
fn bar_flash_frame_layout() {
    let colors = full_brightness_colors();
    let commands = bar_flash_colors(1, colors, 4, 6, 5);
    assert_eq!(commands.len(), 20 + 5 + 1);
    assert_eq!(
        commands[7],
        BarCommand::Pixel { is_runner: false, led_index: 7, color: colors[1] }
    );
    assert_eq!(
        commands[20],
        BarCommand::Pixel { is_runner: true, led_index: 0, color: colors[4] }
    );
    assert_eq!(commands[25], BarCommand::Flush);

    let off = bar_flash_colors(0, colors, 4, 6, 5);
    assert!(off.iter().all(|c| match c {
        BarCommand::Pixel { color, .. } => *color == black(),
        BarCommand::Flush => true,
    }));

    let ends = bar_flash_colors(2, colors, 4, 6, 5);
    assert_eq!(
        ends[7],
        BarCommand::Pixel { is_runner: false, led_index: 7, color: black() }
    );
    assert_eq!(
        ends[9],
        BarCommand::Pixel { is_runner: false, led_index: 9, color: colors[1] }
    );
    assert_eq!(
        ends[22],
        BarCommand::Pixel { is_runner: true, led_index: 2, color: black() }
    );
    assert_eq!(
        ends[24],
        BarCommand::Pixel { is_runner: true, led_index: 4, color: colors[4] }
    );
}

#[test]
fn stage_flash_frame_layout() {
    let colors = full_brightness_colors();
    let commands = stage_flash_colors(1, colors, &[3, 4, 5]);
    assert_eq!(commands.len(), 3 * (3 + 4 + 5) + 1);
    assert!(commands
        .iter()
        .any(|command| matches!(command, StageCommand::Pixel { layer_index: 2, .. })));
    assert_eq!(*commands.last().unwrap(), StageCommand::Flush);
    // side 0 layer 0, then layer 1: the second color.
    assert_eq!(
        commands[3],
        StageCommand::Pixel { side_index: 0, led_index: 0, layer_index: 1, color: colors[1] }
    );
    // side 2 (after 9 + 12 commands), layer 0: color (2 * 3) % 6 = 0.
    assert_eq!(
        commands[21],
        StageCommand::Pixel { side_index: 2, led_index: 0, layer_index: 0, color: colors[0] }
    );
    // side 1 layer 2: color 5.
    assert_eq!(
        commands[9 + 8],
        StageCommand::Pixel { side_index: 1, led_index: 0, layer_index: 2, color: colors[5] }
    );

    let ends = stage_flash_colors(2, colors, &[3]);
    assert_eq!(
        ends[1],
        StageCommand::Pixel { side_index: 0, led_index: 1, layer_index: 0, color: black() }
    );
    assert_eq!(
        ends[2],
        StageCommand::Pixel { side_index: 0, led_index: 2, layer_index: 0, color: colors[0] }
    );

    let off = stage_flash_colors(0, colors, &[2]);
    assert_eq!(
        off,
        vec![
            StageCommand::Pixel { side_index: 0, led_index: 0, layer_index: 0, color: black() },
            StageCommand::Pixel { side_index: 0, led_index: 0, layer_index: 1, color: black() },
            StageCommand::Pixel { side_index: 0, led_index: 0, layer_index: 2, color: black() },
            StageCommand::Pixel { side_index: 0, led_index: 1, layer_index: 0, color: black() },
            StageCommand::Pixel { side_index: 0, led_index: 1, layer_index: 1, color: black() },
            StageCommand::Pixel { side_index: 0, led_index: 1, layer_index: 2, color: black() },
            StageCommand::Flush,
        ]
    );
}

#[test]
fn stage_parts_and_triangles() {
    assert!(!stage_second_part(0));
    assert!(stage_second_part(3));
    assert!(!stage_second_part(15));
    assert!(stage_second_part(18));
    assert!(!stage_second_part(21));
    assert_eq!(triangle_length(&[10, 20, 30, 1, 2, 3], 0), 60);
    assert_eq!(triangle_length(&[10, 20, 30, 1, 2, 3], 1), 6);
}
