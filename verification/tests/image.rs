use ratatui::buffer::Buffer;
use ratatui::layout::Alignment;
use ratatui::widgets::{Paragraph, Widget};
use sender::backend::BackendError;
use sender::layout::Rect;
use sender::tui::image::{
    decoded_picture, fetched_picture, image_area, placeholder_lines, Pixels,
};

fn area(width: u16, height: u16) -> Rect {
    Rect { x: 0, y: 0, width, height }
}

fn drawn(status: &str) -> Buffer {
    let mut buf = Buffer::empty(ratatui::layout::Rect::new(0, 0, 20, 5));
    let lines = placeholder_lines(status, area(20, 5));
    Paragraph::new(lines.join("\n")).alignment(Alignment::Center).render(buf.area, &mut buf);
    buf
}

#[test]
fn placeholder_renders_status_text_centered() {
    let buf = drawn("Loading image…");
    // 1 line in a 5-row area starting at row 2, centered horizontally.
    assert_eq!(buf.cell((3, 2)).unwrap().symbol(), "L");
    assert_eq!(buf.cell((0, 0)).unwrap().symbol(), " ");
}

#[test]
fn error_restores_placeholder() {
    let buf = drawn("Media not available");
    assert_eq!(buf.cell((6, 1)).unwrap().symbol(), "M");
}

#[test]
fn encode_failure_keeps_state_usable() {
    assert_eq!(drawn("nope").cell((8, 2)).unwrap().symbol(), "n");
    assert_eq!(drawn("down").cell((8, 2)).unwrap().symbol(), "d");
}

#[test]
fn a_picture_is_centred_and_cut() {
    assert_eq!(image_area(area(20, 10), 10, 4), Rect { x: 5, y: 3, width: 10, height: 4 });
    assert_eq!(image_area(area(20, 10), 40, 40), area(20, 10));
}

/// A picture of two rows, as a file.
fn png() -> Vec<u8> {
    let image = image::RgbImage::from_raw(1, 2, vec![220, 120, 200, 0, 40, 30]).unwrap();
    let mut file = std::io::Cursor::new(Vec::new());
    image::DynamicImage::ImageRgb8(image).write_to(&mut file, image::ImageFormat::Png).unwrap();
    file.into_inner()
}

#[test]
fn a_fetched_picture_is_decoded() {
    let pixels = fetched_picture(&Ok(Some(png()))).unwrap();
    assert_eq!(
        pixels,
        Pixels { width: 1, height: 2, rgba: vec![220, 120, 200, 255, 0, 40, 30, 255] }
    );
}

#[test]
fn what_cannot_be_shown_is_said() {
    let note = fetched_picture(&Ok(Some(b"no picture".to_vec()))).unwrap_err();
    assert_eq!(
        note,
        format!(
            "Failed to decode image: {}",
            image::load_from_memory(b"no picture").unwrap_err()
        )
    );
    assert_eq!(fetched_picture(&Ok(None)).unwrap_err(), "Media not available");
    assert_eq!(
        fetched_picture(&Err(BackendError::Other("timed out".into()))).unwrap_err(),
        "Failed to load image: operation failed: timed out"
    );
}

#[test]
fn a_failed_decoding_becomes_a_notice() {
    assert_eq!(
        decoded_picture(Err("bad header".into())).unwrap_err(),
        "Failed to decode image: bad header"
    );
    let pixels = Pixels { width: 1, height: 1, rgba: vec![1, 2, 3, 4] };
    assert_eq!(decoded_picture(Ok(pixels)).unwrap().rgba, [1, 2, 3, 4]);
}
