use domers::color::Rgb;
use domers::frame_hash::{bar_frame_hash, frame_hash, stage_frame_hash, FNV_OFFSET};
use domers::outputs::{BarCommand, DomeCommand, StageCommand};

#[test]
fn empty_frames_hash_to_offset_basis() {
    assert_eq!(frame_hash(&[]), FNV_OFFSET);
    assert_eq!(bar_frame_hash(&[]), FNV_OFFSET);
    assert_eq!(stage_frame_hash(&[]), FNV_OFFSET);
}

#[test]
fn dome_frames_hash_their_bytes() {
    assert_eq!(frame_hash(&[DomeCommand::Flush]), 0xaf63_bd4c_8601_b7df);
    assert_eq!(
        frame_hash(&[
            DomeCommand::Pixel {
                strut_index: 3,
                led_index: 4,
                color: Rgb::from_u24(0x01_02_03),
            },
            DomeCommand::Flush,
        ]),
        0x6a1a_8b3f_580c_6e72
    );
    assert_eq!(
        frame_hash(&[DomeCommand::Frame(vec![Rgb::from_u24(0xaa_bb_cc)])]),
        0xb681_ee78_ff40_4f65
    );
}

#[test]
fn bar_and_stage_frames_hash_their_bytes() {
    assert_eq!(
        bar_frame_hash(&[BarCommand::Pixel {
            is_runner: true,
            led_index: 9,
            color: Rgb::from_u24(0x05_06_07),
        }]),
        0x26e8_9b2a_a042_ea6f
    );
    assert_eq!(
        stage_frame_hash(&[StageCommand::Pixel {
            side_index: 1,
            led_index: 2,
            layer_index: 3,
            color: Rgb::from_u24(0x09_09_09),
        }]),
        0x016e_9287_1f46_ceba
    );
}
