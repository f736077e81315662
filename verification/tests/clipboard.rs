use base64::Engine;
use bdengine_desktop::clipboard::decode_utf16;
use bdengine_desktop::clipboard::decoded_to_cf_dib;
use bdengine_desktop::clipboard::encode_utf16;
use bdengine_desktop::clipboard::pixels_to_cf_dib;
use bdengine_desktop::clipboard::png_bytes_to_cf_dib;
use bdengine_desktop::clipboard::read_html_text;
use bdengine_desktop::clipboard::read_unicode_text;
use bdengine_desktop::clipboard::write_html_text;
use bdengine_desktop::clipboard::write_unicode_text;
use bdengine_desktop::clipboard::RgbaPixels;
use bdengine_desktop::clipboard_items::plan_clipboard_item;
use bdengine_desktop::clipboard_items::plan_clipboard_write;
use bdengine_desktop::clipboard_items::plan_decoded_png;
use bdengine_desktop::clipboard_items::plan_png;
use bdengine_desktop::clipboard_items::read_clipboard_items;
use bdengine_desktop::clipboard_items::ClipboardItemPayload;
use bdengine_desktop::clipboard_items::ClipboardWrite;

fn png(width: u32, height: u32, pixels: &[[u8; 4]]) -> Vec<u8> {
    let raw: Vec<u8> = pixels.iter().flat_map(|pixel| pixel.to_vec()).collect();
    let image = image::RgbaImage::from_raw(width, height, raw).unwrap();
    let mut bytes: Vec<u8> = Vec::new();
    image
        .write_to(&mut std::io::Cursor::new(&mut bytes), image::ImageFormat::Png)
        .unwrap();
    bytes
}

fn item(mime_type: &str, text: Option<&str>, base64: Option<&str>) -> ClipboardItemPayload {
    ClipboardItemPayload {
        mime_type: mime_type.to_string(),
        text: text.map(|t| t.to_string()),
        base64: base64.map(|b| b.to_string()),
    }
}

fn describe(write: &ClipboardWrite) -> (&'static str, Vec<u8>) {
    match write {
        ClipboardWrite::UnicodeText(bytes) => ("text", bytes.clone()),
        ClipboardWrite::Html(bytes) => ("html", bytes.clone()),
        ClipboardWrite::Png(bytes) => ("png", bytes.clone()),
        ClipboardWrite::Dib(bytes) => ("dib", bytes.clone()),
    }
}

#[test]
fn utf16_agrees_with_the_standard_library() {
    for s in ["", "a", "äö", "\u{ffff}", "\u{10000}x", "😀\u{10ffff}", "\u{d7ff}\u{e000}"] {
        let expected: Vec<u16> = s.encode_utf16().collect();
        assert_eq!(encode_utf16(s), expected, "{:?}", s);
        assert_eq!(decode_utf16(&expected), s);
    }
}

#[test]
fn lone_surrogates_are_replaced() {
    for units in [
        vec![0xd800u16],
        vec![0xdc00],
        vec![0xd800, 0x41],
        vec![0xd800, 0xd800, 0xdc00],
        vec![0xdc00, 0xd800],
        vec![0xd83d, 0xde00, 0xde00],
        vec![0x41, 0xdfff, 0x42],
    ] {
        assert_eq!(decode_utf16(&units), String::from_utf16_lossy(&units), "{:x?}", units);
    }
}

#[test]
fn unicode_text_ends_at_the_first_nul() {
    assert_eq!(read_unicode_text(&[0x41, 0, 0x42, 0, 0, 0, 0x43, 0]), Some("AB".to_string()));
    assert_eq!(read_unicode_text(&[0x41, 0, 0x42]), Some("A".to_string()));
    assert_eq!(read_unicode_text(&[0, 0]), Some(String::new()));
    assert_eq!(read_unicode_text(&[0x41]), None);
    assert_eq!(read_unicode_text(&[]), None);
}

#[test]
fn unicode_text_is_read_back() {
    for s in ["", "plain", "ä😀", "two\nlines"] {
        let mut bytes = write_unicode_text(s);
        assert_eq!(read_unicode_text(&bytes), Some(s.to_string()));
        bytes.extend_from_slice(&[7, 8, 9]);
        assert_eq!(read_unicode_text(&bytes), Some(s.to_string()));
    }
    assert_eq!(write_unicode_text("A\u{1f600}"), vec![0x41, 0, 0x3d, 0xd8, 0, 0xde, 0, 0]);
    assert_eq!(read_unicode_text(&write_unicode_text("a\0b")), Some("a".to_string()));
}

#[test]
fn html_loses_zeros_at_its_end() {
    assert_eq!(read_html_text(b"<b>\0x</b>\0\0".to_vec()), Some("<b>\0x</b>".to_string()));
    assert_eq!(read_html_text(vec![0, 0]), Some(String::new()));
    assert_eq!(read_html_text(vec![0xff, 0]), None);
    for s in ["", "<i>ä</i>"] {
        let mut bytes = write_html_text(s);
        assert_eq!(bytes, s.as_bytes());
        bytes.push(0);
        assert_eq!(read_html_text(bytes), Some(s.to_string()));
    }
}

#[test]
fn bitmap_has_header_and_pixels() {
    let image = RgbaPixels {
        width: 2,
        height: 1,
        pixels: vec![[1, 2, 3, 4], [5, 6, 7, 8]],
    };
    assert_eq!(
        pixels_to_cf_dib(&image).unwrap(),
        vec![
            40, 0, 0, 0, 2, 0, 0, 0, 0xff, 0xff, 0xff, 0xff, 1, 0, 32, 0, 0, 0, 0, 0, 8, 0, 0, 0, 0,
            0, 0, 0, 0, 0, 0, 0, 0, 0, 0, 0, 0, 0, 0, 0, 3, 2, 1, 4, 7, 6, 5, 8,
        ]
    );
}

#[test]
fn empty_images_have_no_bitmap() {
    let image = RgbaPixels { width: 0, height: 3, pixels: Vec::new() };
    assert_eq!(pixels_to_cf_dib(&image), Err("Image is empty.".to_string()));
    let image = RgbaPixels { width: 3, height: 0, pixels: Vec::new() };
    assert_eq!(pixels_to_cf_dib(&image), Err("Image is empty.".to_string()));
}

#[test]
fn images_that_cannot_be_read_have_no_bitmap() {
    assert_eq!(
        decoded_to_cf_dib(Err("bad".to_string())),
        Err("Could not decode image/png for CF_DIB: bad".to_string())
    );
    let error = png_bytes_to_cf_dib(b"not an image").unwrap_err();
    assert!(error.starts_with("Could not decode image/png for CF_DIB: "));
}

#[test]
fn png_becomes_a_bitmap() {
    let bytes = png(1, 2, &[[10, 20, 30, 40], [50, 60, 70, 80]]);
    let dib = png_bytes_to_cf_dib(&bytes).unwrap();
    assert_eq!(dib.len(), 40 + 8);
    assert_eq!(&dib[4..12], &[1, 0, 0, 0, 0xfe, 0xff, 0xff, 0xff]);
    assert_eq!(&dib[40..], &[30, 20, 10, 40, 70, 60, 50, 80]);
}

#[test]
fn items_are_read_in_order() {
    let items = read_clipboard_items(
        Some(vec![0x41, 0, 0, 0]),
        Some(b"<p>\0".to_vec()),
        Some(vec![1, 2, 3]),
    );
    assert_eq!(items.len(), 3);
    assert_eq!(items[0].mime_type, "text/plain");
    assert_eq!(items[0].text.as_deref(), Some("A"));
    assert_eq!(items[0].base64, None);
    assert_eq!(items[1].mime_type, "text/html");
    assert_eq!(items[1].text.as_deref(), Some("<p>"));
    assert_eq!(items[2].mime_type, "image/png");
    assert_eq!(items[2].text, None);
    assert_eq!(items[2].base64.as_deref(), Some("AQID"));
}

#[test]
fn unreadable_items_are_left_out() {
    assert!(read_clipboard_items(None, None, None).is_empty());
    assert!(read_clipboard_items(Some(vec![1]), Some(vec![0xff]), None).is_empty());
}

#[test]
fn text_items_are_written() {
    let plan = plan_clipboard_item(&item("text/plain", Some("A"), None));
    assert_eq!(plan.failure, None);
    assert_eq!(describe(&plan.writes[0]), ("text", vec![0x41, 0, 0, 0]));
    let plan = plan_clipboard_item(&item("text/plain", None, None));
    assert_eq!(describe(&plan.writes[0]), ("text", vec![0, 0]));
    let plan = plan_clipboard_item(&item("text/html", Some("<ä>"), None));
    assert_eq!(describe(&plan.writes[0]), ("html", "<ä>".as_bytes().to_vec()));
}

#[test]
fn other_items_are_not_written() {
    let plan = plan_clipboard_item(&item("text/rtf", Some("x"), None));
    assert!(plan.writes.is_empty());
    assert_eq!(plan.failure, None);
}

#[test]
fn image_items_are_written_as_file_and_bitmap() {
    let bytes = png(1, 1, &[[1, 2, 3, 4]]);
    let text = base64::engine::general_purpose::STANDARD.encode(&bytes);
    let plan = plan_clipboard_item(&item("image/png", None, Some(&text)));
    assert_eq!(plan.failure, None);
    assert_eq!(plan.writes.len(), 2);
    assert_eq!(describe(&plan.writes[0]), ("png", bytes.clone()));
    assert_eq!(describe(&plan.writes[1]), ("dib", png_bytes_to_cf_dib(&bytes).unwrap()));
}

#[test]
fn image_items_can_fail() {
    let plan = plan_clipboard_item(&item("image/png", None, None));
    assert!(plan.writes.is_empty());
    assert_eq!(plan.failure.as_deref(), Some("image/png item is missing base64."));

    let plan = plan_clipboard_item(&item("image/png", None, Some("%%")));
    assert!(plan.writes.is_empty());
    let expected = base64::engine::general_purpose::STANDARD.decode("%%").unwrap_err();
    assert_eq!(
        plan.failure,
        Some(format!("Could not decode image/png clipboard payload: {}", expected))
    );

    let plan = plan_clipboard_item(&item("image/png", None, Some("AQID")));
    assert_eq!(plan.writes.len(), 1);
    assert_eq!(describe(&plan.writes[0]), ("png", vec![1, 2, 3]));
    assert!(plan.failure.unwrap().starts_with("Could not decode image/png for CF_DIB: "));
}

#[test]
fn image_plan_follows_the_bitmap() {
    let plan = plan_png(vec![1], Ok(vec![2]));
    assert_eq!(describe(&plan.writes[0]), ("png", vec![1]));
    assert_eq!(describe(&plan.writes[1]), ("dib", vec![2]));
    assert_eq!(plan.failure, None);
    let plan = plan_png(vec![1], Err("no".to_string()));
    assert_eq!(plan.writes.len(), 1);
    assert_eq!(plan.failure.as_deref(), Some("no"));
}

#[test]
fn image_plan_follows_the_base64() {
    let plan = plan_decoded_png(Err("odd".to_string()));
    assert!(plan.writes.is_empty());
    assert_eq!(
        plan.failure.as_deref(),
        Some("Could not decode image/png clipboard payload: odd")
    );
    let bytes = png(1, 1, &[[9, 8, 7, 6]]);
    let plan = plan_decoded_png(Ok(bytes.clone()));
    assert_eq!(describe(&plan.writes[0]), ("png", bytes));
    assert_eq!(plan.failure, None);
}

#[test]
fn writing_stops_at_the_first_failure() {
    let items = vec![
        item("text/plain", Some("A"), None),
        item("unknown", None, None),
        item("image/png", None, None),
        item("text/html", Some("never"), None),
    ];
    let plan = plan_clipboard_write(&items);
    assert_eq!(plan.writes.len(), 1);
    assert_eq!(plan.failure.as_deref(), Some("image/png item is missing base64."));
    assert!(plan_clipboard_write(&Vec::new()).writes.is_empty());
}

#[test]
fn text_items_are_read_back() {
    let items = vec![item("text/plain", Some("ä"), None), item("text/html", Some("<u>"), None)];
    let plan = plan_clipboard_write(&items);
    let (_, text) = describe(&plan.writes[0]);
    let (_, html) = describe(&plan.writes[1]);
    let back = read_clipboard_items(Some(text), Some(html), None);
    assert_eq!(back[0].text.as_deref(), Some("ä"));
    assert_eq!(back[1].text.as_deref(), Some("<u>"));
}
