//! Canvas command recording: exact command layout, color packing, and the
//! typestate flow from contour start to the terminator.

use vk_suballoc::canvas::{pack_channels, Canvas2DRecorder, CanvasOp, Vec2u16};
use vk_suballoc::cli::CliArgs;

fn v(x: u16, y: u16) -> Vec2u16 {
    Vec2u16 { x, y }
}

#[test]
fn channels_pack_low_then_high() {
    assert_eq!(pack_channels(0, 0), 0);
    assert_eq!(pack_channels(1, 2), 1 + 2 * 256);
    assert_eq!(pack_channels(255, 255), u16::MAX);
    assert_eq!(pack_channels(0x34, 0x12), 0x1234);
}

#[test]
fn opcodes_follow_the_wire_format() {
    assert_eq!(CanvasOp::StartFill.opcode(), 0);
    assert_eq!(CanvasOp::StartStroke.opcode(), 1);
    assert_eq!(CanvasOp::LineTo.opcode(), 2);
    assert_eq!(CanvasOp::EndContour.opcode(), 3);
    assert_eq!(CanvasOp::LastCommand.opcode(), 4);
}

#[test]
fn recorder_records_a_fill_contour() {
    let rec = Canvas2DRecorder::new();
    let rec = rec.start_fill(v(10, 20), 1, 2, 3, 4);
    let rec = rec.line_to(v(30, 40));
    let rec = rec.line_to(v(50, 60));
    let rec = rec.end();
    let cmds = rec.end();

    assert_eq!(cmds.len(), 5);
    assert_eq!(cmds[0].op, CanvasOp::StartFill);
    assert_eq!(cmds[0].param1, v(10, 20));
    assert_eq!(cmds[0].param2, v(pack_channels(1, 2), pack_channels(3, 4)));
    assert_eq!(cmds[1].op, CanvasOp::LineTo);
    assert_eq!(cmds[1].param1, v(30, 40));
    assert_eq!(cmds[2].op, CanvasOp::LineTo);
    assert_eq!(cmds[2].param1, v(50, 60));
    assert_eq!(cmds[3].op, CanvasOp::EndContour);
    assert_eq!(cmds[4].op, CanvasOp::LastCommand);
}

#[test]
fn recorder_records_a_stroke_with_width() {
    let rec = Canvas2DRecorder::new();
    let rec = rec.start_stroke(v(5, 6), 10, 20, 30, 40, 7);
    let rec = rec.end();
    let cmds = rec.end();

    assert_eq!(cmds.len(), 3);
    assert_eq!(cmds[0].op, CanvasOp::StartStroke);
    assert_eq!(cmds[0].param1, v(5, 6));
    assert_eq!(cmds[0].param2, v(pack_channels(10, 20), pack_channels(30, 40)));
    assert_eq!(cmds[0].param3, v(7, 0));
    assert_eq!(cmds[1].op, CanvasOp::EndContour);
    assert_eq!(cmds[2].op, CanvasOp::LastCommand);
}

#[test]
fn empty_recording_is_just_the_terminator() {
    let rec = Canvas2DRecorder::new();
    assert_eq!(rec.len(), 0);
    let cmds = rec.end();
    assert_eq!(cmds.len(), 1);
    assert_eq!(cmds[0].op, CanvasOp::LastCommand);
}

#[test]
fn frames_in_flight_defaults_when_not_overridden() {
    let args = CliArgs { rend_device: None, rend_validation: false, rend_frames_in_flight: None };
    assert_eq!(args.frames_in_flight(3), 3);
    let args =
        CliArgs { rend_device: Some(String::from("gpu0")), rend_validation: true, rend_frames_in_flight: Some(5) };
    assert_eq!(args.frames_in_flight(3), 5);
}
