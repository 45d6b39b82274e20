use rosrust_image::clock::{RosClock, Time};
use rosrust_image::frame::{frame_actions, FrameActions, InputSummary, Size};
use rosrust_image::msg::{image_msg_from, Header, Image, Picture};
use rosrust_image::pixel::from_rgb;
use rosrust_image::dir_pub::{after_entry, entry_rejection, sleep_after_pass, Rejection};
use rosrust_image::viewer::{drawing_offsets_fit, image_msg_to_pixels, Shortfall};

fn message(width: u32, height: u32, data: Vec<u8>) -> Image {
    Image {
        header: Header { seq: 0, stamp: Time { sec: 0, nsec: 0 }, frame_id: String::new() },
        height,
        width,
        encoding: "rgb8".to_string(),
        is_bigendian: 0,
        step: width * 3,
        data,
    }
}

#[test]
fn from_rgb_packs_channels_into_the_top_bytes() {
    assert_eq!(from_rgb(0x12, 0x34, 0x56), 0x1234_5600);
    assert_eq!(from_rgb(0, 0, 0), 0);
    assert_eq!(from_rgb(255, 255, 255), 0xffff_ff00);
    assert_eq!(from_rgb(1, 0, 0), 0x0100_0000);
}

#[test]
fn from_rgb_big_endian_bytes_are_red_green_blue_zero() {
    for &(r, g, b) in &[(1u8, 2u8, 3u8), (255, 0, 128), (0, 0, 0), (9, 200, 77)] {
        assert_eq!(from_rgb(r, g, b).to_be_bytes(), [r, g, b, 0]);
    }
}

#[test]
fn draws_a_message_that_fills_the_frame() {
    // 2 x 2 message, bytes per pixel [first, second, third]
    let data = vec![1, 2, 3, 4, 5, 6, 7, 8, 9, 10, 11, 12];
    let mut screen = vec![0xaau8; 16];
    assert_eq!(image_msg_to_pixels(message(2, 2, data), &mut screen, 2, 2), None);
    assert_eq!(screen, vec![3, 2, 1, 0, 6, 5, 4, 0, 9, 8, 7, 0, 12, 11, 10, 0]);
}

#[test]
fn columns_right_of_the_message_are_left_alone() {
    let data = vec![1, 2, 3, 4, 5, 6];
    let mut screen = vec![0xaau8; 24];
    // frame is 3 pixels wide and 2 tall, message 1 wide and 2 tall
    image_msg_to_pixels(message(1, 2, data), &mut screen, 3, 2);
    let mut expected = vec![0xaau8; 24];
    expected[0..4].copy_from_slice(&[3, 2, 1, 0]);
    expected[12..16].copy_from_slice(&[6, 5, 4, 0]);
    assert_eq!(screen, expected);
}

#[test]
fn drawing_ends_below_the_message() {
    let data = vec![1, 2, 3, 4, 5, 6];
    let mut screen = vec![0xaau8; 32];
    // frame 2 wide, 4 tall; message 2 wide, 1 tall
    assert_eq!(image_msg_to_pixels(message(2, 1, data), &mut screen, 2, 4), None);
    let mut expected = vec![0xaau8; 32];
    expected[0..8].copy_from_slice(&[3, 2, 1, 0, 6, 5, 4, 0]);
    assert_eq!(screen, expected);
}

#[test]
fn drawing_ends_where_the_data_runs_out() {
    // claims 2 x 2 but carries only one whole pixel and part of another
    let data = vec![1, 2, 3, 4, 5];
    let mut screen = vec![0xaau8; 16];
    let short = image_msg_to_pixels(message(2, 2, data), &mut screen, 2, 2);
    assert_eq!(short, Some(Shortfall { pixel: 1, column: 1, row: 0, offset: 3 }));
    let mut expected = vec![0xaau8; 16];
    expected[0..4].copy_from_slice(&[3, 2, 1, 0]);
    assert_eq!(screen, expected);
}

#[test]
fn a_frame_narrower_than_the_message_shows_its_left_part() {
    // 3 x 2 message on a frame 2 pixels wide and 2 tall
    let data: Vec<u8> = (1..=18).collect();
    let mut screen = vec![0u8; 16];
    image_msg_to_pixels(message(3, 2, data), &mut screen, 2, 2);
    // row 0 shows message pixels 0 and 1, row 1 shows pixels 3 and 4
    assert_eq!(screen, vec![3, 2, 1, 0, 6, 5, 4, 0, 12, 11, 10, 0, 15, 14, 13, 0]);
}

#[test]
fn trailing_bytes_of_a_frame_are_untouched() {
    let data = vec![1, 2, 3, 4, 5, 6];
    let mut screen = vec![0xaau8; 10];
    image_msg_to_pixels(message(2, 1, data), &mut screen, 2, 1);
    assert_eq!(screen, vec![3, 2, 1, 0, 6, 5, 4, 0, 0xaa, 0xaa]);
}

#[test]
fn an_empty_frame_stays_empty() {
    let mut screen: Vec<u8> = Vec::new();
    image_msg_to_pixels(message(2, 1, vec![1, 2, 3, 4, 5, 6]), &mut screen, 0, 0);
    assert!(screen.is_empty());
}

#[test]
fn picture_needs_one_pixel_per_position() {
    assert!(Picture::new(2, 2, vec![[0; 4]; 3]).is_none());
    assert!(Picture::new(2, 2, vec![[0; 4]; 5]).is_none());
    let p = Picture::new(2, 3, vec![[1, 2, 3, 4]; 6]).unwrap();
    assert_eq!(p.dimensions(), (2, 3));
    assert_eq!(p.pixel(5), [1, 2, 3, 4]);
    assert!(Picture::new(0, 7, Vec::new()).is_some());
}

#[test]
fn message_of_a_picture_is_rgb8_with_alpha_dropped() {
    let pixels = vec![[1, 2, 3, 250], [4, 5, 6, 251], [7, 8, 9, 252], [10, 11, 12, 253], [13, 14, 15, 254], [16, 17, 18, 255]];
    let pic = Picture::new(3, 2, pixels).unwrap();
    let msg = image_msg_from(pic, Time { sec: 17, nsec: 5 });
    assert_eq!(msg.header.seq, 0);
    assert_eq!(msg.header.stamp, Time { sec: 17, nsec: 5 });
    assert_eq!(msg.header.frame_id, "todo");
    assert_eq!(msg.width, 3);
    assert_eq!(msg.height, 2);
    assert_eq!(msg.encoding, "rgb8");
    assert_eq!(msg.is_bigendian, 0);
    assert_eq!(msg.step, 9);
    assert_eq!(msg.data, (1..=18).collect::<Vec<u8>>());
}

#[test]
fn message_of_an_empty_picture_has_no_data() {
    let msg = image_msg_from(Picture::new(4, 0, Vec::new()).unwrap(), Time { sec: 0, nsec: 0 });
    assert_eq!(msg.step, 12);
    assert!(msg.data.is_empty());
}

#[test]
fn blank_picture_gives_zeroed_message() {
    let msg = image_msg_from(Picture::new(10, 10, vec![[0; 4]; 100]).unwrap(), Time { sec: 1, nsec: 2 });
    assert_eq!(msg.step, 30);
    assert_eq!(msg.data, vec![0u8; 300]);
}

#[test]
fn published_picture_is_shown_channel_swapped() {
    let pixels: Vec<[u8; 4]> = (0..6u8).map(|i| [10 * i, 10 * i + 1, 10 * i + 2, 99]).collect();
    let msg = image_msg_from(Picture::new(3, 2, pixels.clone()).unwrap(), Time { sec: 0, nsec: 0 });
    // frame 4 pixels wide and 3 tall
    let mut screen = vec![0x55u8; 48];
    image_msg_to_pixels(msg, &mut screen, 4, 3);
    for y in 0..2usize {
        for x in 0..3usize {
            let px = pixels[y * 3 + x];
            let c = y * 4 + x;
            assert_eq!(&screen[4 * c..4 * c + 4], &[px[2], px[1], px[0], 0]);
        }
    }
    // the column right of the picture and the row below it are untouched
    assert_eq!(&screen[12..16], &[0x55; 4]);
    assert_eq!(&screen[28..32], &[0x55; 4]);
    assert_eq!(&screen[32..48], &[0x55; 16]);
}

#[test]
fn clock_needs_an_initialized_node() {
    assert!(RosClock::connected().is_none());
}

fn quiet(exit: bool, request_redraw: bool) -> FrameActions {
    FrameActions { report_scale_factor: false, resize: None, report_left: false, exit, request_redraw }
}

#[test]
fn failed_render_ends_the_loop() {
    let input = InputSummary { close_requested: false, scale_factor_changed: true, resized: None, left_held: true };
    assert_eq!(frame_actions(true, true, Some(input), true), quiet(true, false));
}

#[test]
fn close_request_ends_the_loop() {
    let input = InputSummary { close_requested: true, scale_factor_changed: true, resized: Some(Size { width: 5, height: 6 }), left_held: true };
    assert_eq!(frame_actions(false, false, Some(input), true), quiet(true, false));
}

#[test]
fn input_is_acted_on_and_redrawn() {
    let size = Size { width: 640, height: 480 };
    let input = InputSummary { close_requested: false, scale_factor_changed: true, resized: Some(size), left_held: true };
    assert_eq!(
        frame_actions(false, false, Some(input), true),
        FrameActions { report_scale_factor: true, resize: Some(size), report_left: true, exit: false, request_redraw: true }
    );
    assert_eq!(
        frame_actions(false, false, Some(input), false),
        FrameActions { report_scale_factor: true, resize: Some(size), report_left: true, exit: true, request_redraw: false }
    );
}

#[test]
fn redraw_only_after_drawing_or_input() {
    assert_eq!(frame_actions(true, false, None, true), quiet(false, true));
    assert_eq!(frame_actions(false, false, None, true), quiet(false, false));
    assert_eq!(frame_actions(true, false, None, false), quiet(true, false));
}

#[test]
fn redrawing_the_same_message_changes_nothing() {
    let data: Vec<u8> = (1..=18).collect();
    let mut screen = vec![0x77u8; 40];
    image_msg_to_pixels(message(3, 2, data.clone()), &mut screen, 2, 5);
    let once = screen.clone();
    image_msg_to_pixels(message(3, 2, data), &mut screen, 2, 5);
    assert_eq!(screen, once);
}

#[test]
fn short_data_is_reported_once_where_drawing_stopped() {
    // 2 x 1 message with five bytes: the second pixel lacks its third byte
    let mut screen = vec![9u8; 8];
    let short = image_msg_to_pixels(message(2, 1, vec![1, 2, 3, 4, 5]), &mut screen, 2, 1);
    assert_eq!(screen, vec![3, 2, 1, 0, 9, 9, 9, 9]);
    assert_eq!(short, Some(Shortfall { pixel: 1, column: 1, row: 0, offset: 3 }));
}

#[test]
fn short_data_on_a_later_row_is_reported_there() {
    // 1 x 3 message on a frame 2 wide: rows 0 and 1 draw, row 2 runs short
    let mut screen = vec![0u8; 24];
    let short = image_msg_to_pixels(message(1, 3, vec![1, 2, 3, 4, 5, 6, 7]), &mut screen, 2, 3);
    assert_eq!(short, Some(Shortfall { pixel: 4, column: 0, row: 2, offset: 6 }));
    assert_eq!(&screen[0..4], &[3, 2, 1, 0]);
    assert_eq!(&screen[8..12], &[6, 5, 4, 0]);
    assert_eq!(&screen[16..24], &[0u8; 8]);
}

#[test]
fn no_report_when_the_frame_ends_first() {
    // data runs short only past the frame's last pixel
    let mut screen = vec![0u8; 8];
    let short = image_msg_to_pixels(message(4, 1, vec![1, 2, 3, 4, 5, 6]), &mut screen, 2, 1);
    assert_eq!(short, None);
}

#[test]
fn offsets_fit_for_ordinary_messages() {
    let msg = message(2000, 1000, vec![0; 6_000_000]);
    assert!(drawing_offsets_fit(&msg, 4 * 2000 * 1000, 2000));
    assert!(drawing_offsets_fit(&message(3, 3, vec![]), 0, 0));
}

#[test]
fn offsets_fit_for_a_huge_message_seen_through_a_small_frame() {
    // 3 * width * height is far beyond u32, but the frame shows little of it
    let msg = message(100_000, 100_000, vec![0; 64]);
    assert!(drawing_offsets_fit(&msg, 4 * 16, 4));
}

#[test]
fn offsets_overflow_when_drawing_reaches_a_far_row() {
    // the frame's second row shows message pixel 2^31, whose bytes start
    // beyond u32::MAX; the first row's two pixels fit in the data
    let msg = message(1 << 31, 2, vec![0; 6]);
    assert!(!drawing_offsets_fit(&msg, 4 * 4, 2));
    // with a frame of one row, drawing never gets there
    assert!(drawing_offsets_fit(&msg, 4 * 2, 2));
}

#[test]
fn entries_publish_only_decoded_files() {
    assert_eq!(entry_rejection(false, false), Some(Rejection::NotAFile));
    assert_eq!(entry_rejection(false, true), Some(Rejection::NotAFile));
    assert_eq!(entry_rejection(true, false), Some(Rejection::UnsupportedImage));
    assert_eq!(entry_rejection(true, true), None);
    assert_eq!(Rejection::NotAFile.message(), "not a file");
    assert_eq!(Rejection::UnsupportedImage.message(), "not a supported image file");
}

#[test]
fn sleeps_after_each_publish_and_after_an_empty_pass() {
    assert_eq!(after_entry(0, true), (1, true));
    assert_eq!(after_entry(5, false), (5, false));
    assert!(sleep_after_pass(0));
    assert!(!sleep_after_pass(3));
}
