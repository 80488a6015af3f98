use nes_runtime::screen::{Color, Frame, Screen, ScreenReader, ScreenWriter, FRAME_BYTES};

fn staged(writer: &ScreenWriter) -> Vec<u8> {
    match writer {
        ScreenWriter::Real { pixels, .. } => pixels.bytes().clone(),
        ScreenWriter::Dummy => panic!("nothing is presented"),
    }
}

fn shown(writer: &ScreenWriter) -> Vec<u8> {
    match writer {
        ScreenWriter::Real { screen: Screen(ScreenReader::Real { pixels, .. }), .. } => {
            pixels.bytes().clone()
        }
        _ => panic!("nothing is presented"),
    }
}

#[test]
fn a_picture_has_four_bytes_for_each_pixel() {
    assert_eq!(FRAME_BYTES, 4 * 256 * 240);
    let frame = Frame::blank();
    assert_eq!(frame.bytes().len(), FRAME_BYTES);
    assert!(frame.bytes().iter().all(|byte| *byte == 0));
}

#[test]
fn from_bytes_takes_exactly_one_picture() {
    assert!(Frame::from_bytes(Vec::new()).is_none());
    assert!(Frame::from_bytes(vec![0; FRAME_BYTES - 1]).is_none());
    assert!(Frame::from_bytes(vec![0; FRAME_BYTES + 1]).is_none());
    let mut bytes = vec![0u8; FRAME_BYTES];
    bytes[0] = 9;
    bytes[FRAME_BYTES - 1] = 7;
    let frame = Frame::from_bytes(bytes.clone()).expect("one picture");
    assert_eq!(frame.bytes(), &bytes);
}

#[test]
fn put_writes_red_green_blue_and_full_opacity() {
    let mut frame = Frame::blank();
    frame.put(3, 2, Color(10, 20, 30));
    let at = 4 * (2 * 256 + 3);
    let mut expected = vec![0u8; FRAME_BYTES];
    expected[at] = 10;
    expected[at + 1] = 20;
    expected[at + 2] = 30;
    expected[at + 3] = 0xff;
    assert_eq!(frame.bytes(), &expected);
    assert_eq!(frame.rgb_at(3, 2), Color(10, 20, 30));
    assert_eq!(frame.rgb_at(2, 2), Color(0, 0, 0));
    assert_eq!(frame.rgb_at(4, 2), Color(0, 0, 0));
}

#[test]
fn put_reaches_the_first_and_the_last_pixel() {
    let mut frame = Frame::blank();
    frame.put(0, 0, Color(1, 2, 3));
    frame.put(255, 239, Color(4, 5, 6));
    assert_eq!(&frame.bytes()[..4], &[1, 2, 3, 0xff]);
    assert_eq!(&frame.bytes()[FRAME_BYTES - 4..], &[4, 5, 6, 0xff]);
    assert_eq!(frame.rgb_at(0, 0), Color(1, 2, 3));
    assert_eq!(frame.rgb_at(255, 239), Color(4, 5, 6));
}

#[test]
fn a_column_past_the_row_end_continues_in_the_next_row() {
    let mut frame = Frame::blank();
    frame.put(256, 0, Color(7, 8, 9));
    assert_eq!(frame.rgb_at(0, 1), Color(7, 8, 9));
}

#[test]
fn duplicate_copies_the_whole_picture() {
    let mut frame = Frame::blank();
    frame.put(17, 33, Color(1, 1, 2));
    let copy = frame.duplicate();
    assert_eq!(copy.bytes(), frame.bytes());
    frame.put(17, 33, Color(3, 5, 8));
    assert_eq!(copy.rgb_at(17, 33), Color(1, 1, 2));
}

#[test]
fn dummy_sides_present_nothing() {
    let (screen, mut writer) = Screen::dummy();
    assert!(matches!(screen, Screen(ScreenReader::Dummy)));
    assert!(matches!(writer, ScreenWriter::Dummy));
    writer.draw_pixel(3, 2, Color(1, 2, 3));
    writer.draw_pixel(usize::MAX, usize::MAX, Color(1, 2, 3));
    writer.render_frame();
    assert!(matches!(writer, ScreenWriter::Dummy));
    assert_eq!(writer.pointed(3, 2), None);
    assert!(writer.collect().is_none());
}

#[test]
fn new_handoff_starts_from_the_given_picture() {
    let mut first = Frame::blank();
    first.put(1, 1, Color(50, 60, 70));
    let bytes = first.bytes().clone();
    let mut writer = Screen::new(first);
    assert_eq!(staged(&writer), bytes);
    assert_eq!(shown(&writer), bytes);
    assert_eq!(writer.pointed(1, 1), Some(Color(50, 60, 70)));
    assert!(writer.collect().is_none());
    let screen = writer.screen().expect("a picture is presented");
    assert_eq!(screen.picture().expect("a picture is presented").bytes(), &bytes);
    match screen {
        Screen(ScreenReader::Real { pixels, fresh }) => {
            assert_eq!(pixels.bytes(), &bytes);
            assert!(!fresh);
        }
        _ => panic!("a picture is presented"),
    }
}

#[test]
fn the_reader_sees_what_the_writer_published() {
    let mut writer = Screen::new(Frame::blank());
    writer.draw_pixel(3, 2, Color(10, 20, 30));
    let before = writer.screen().expect("presented").picture().expect("shown").bytes().clone();
    assert_eq!(before, vec![0u8; FRAME_BYTES]);
    writer.render_frame();
    let staged_at_publish = staged(&writer);
    let seen = writer.screen().expect("presented").picture().expect("shown").bytes().clone();
    assert_eq!(seen, staged_at_publish);
    assert_eq!(&seen[4 * (2 * 256 + 3)..4 * (2 * 256 + 3) + 4], &[10, 20, 30, 0xff]);
    writer.draw_pixel(3, 2, Color(1, 1, 1));
    let later = writer.screen().expect("presented").picture().expect("shown").bytes().clone();
    assert_eq!(later, staged_at_publish);
}

#[test]
fn a_dummy_handoff_has_no_reader() {
    let (screen, writer) = Screen::dummy();
    assert!(writer.screen().is_none());
    assert!(screen.picture().is_none());
}

#[test]
fn draw_pixel_is_not_shown_before_it_is_published() {
    let mut writer = Screen::new(Frame::blank());
    writer.draw_pixel(3, 2, Color(10, 20, 30));
    let at = 4 * (2 * 256 + 3);
    assert_eq!(&staged(&writer)[at..at + 4], &[10, 20, 30, 0xff]);
    assert_eq!(shown(&writer), vec![0u8; FRAME_BYTES]);
    assert_eq!(writer.pointed(3, 2), Some(Color(0, 0, 0)));
    assert!(writer.collect().is_none());
}

#[test]
fn published_picture_is_the_staged_one_byte_for_byte() {
    let mut writer = Screen::new(Frame::blank());
    for y in 0..240usize {
        for x in 0..256usize {
            writer.draw_pixel(x, y, Color(x as u8, y as u8, (x ^ y) as u8));
        }
    }
    let staged_at_publish = staged(&writer);
    writer.render_frame();
    let collected = writer.collect().expect("a picture was published").bytes().clone();
    assert_eq!(collected, staged_at_publish);
    assert_eq!(shown(&writer), staged_at_publish);
    assert_eq!(staged(&writer), staged_at_publish);
    assert_eq!(writer.pointed(200, 100), Some(Color(200, 100, 200 ^ 100)));
}

#[test]
fn drawing_after_a_publication_leaves_what_is_shown() {
    let mut writer = Screen::new(Frame::blank());
    writer.draw_pixel(9, 9, Color(1, 2, 3));
    writer.render_frame();
    let published = shown(&writer);
    writer.draw_pixel(9, 9, Color(4, 5, 6));
    writer.draw_pixel(10, 9, Color(7, 8, 9));
    assert_eq!(shown(&writer), published);
    assert_eq!(writer.pointed(9, 9), Some(Color(1, 2, 3)));
    assert_eq!(writer.pointed(10, 9), Some(Color(0, 0, 0)));
    writer.render_frame();
    assert_eq!(writer.pointed(9, 9), Some(Color(4, 5, 6)));
    assert_eq!(writer.pointed(10, 9), Some(Color(7, 8, 9)));
}

#[test]
fn a_published_picture_is_collected_once() {
    let mut writer = Screen::new(Frame::blank());
    assert!(writer.collect().is_none());
    writer.render_frame();
    assert!(writer.collect().is_some());
    assert!(writer.collect().is_none());
    writer.render_frame();
    writer.render_frame();
    assert!(writer.collect().is_some());
    assert!(writer.collect().is_none());
}

#[test]
fn a_writer_whose_screen_presents_nothing_publishes_nothing() {
    let mut writer =
        ScreenWriter::Real { screen: Screen(ScreenReader::Dummy), pixels: Frame::blank() };
    writer.draw_pixel(0, 0, Color(1, 2, 3));
    writer.render_frame();
    assert_eq!(writer.pointed(0, 0), None);
    assert!(writer.collect().is_none());
    assert_eq!(&staged(&writer)[..4], &[1, 2, 3, 0xff]);
}

#[test]
fn the_presentation_side_collects_what_was_published_to_it() {
    let mut screen = Screen(ScreenReader::Real { pixels: Frame::blank(), fresh: true });
    assert_eq!(screen.collect().expect("fresh").bytes(), &vec![0u8; FRAME_BYTES]);
    assert!(screen.collect().is_none());
    let mut none = Screen(ScreenReader::Dummy);
    assert!(none.collect().is_none());
}
