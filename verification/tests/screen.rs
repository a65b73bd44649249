use termweb_client::display::{DisplayError, DisplayState, Mode, TabInfo};
use termweb_client::screen::{build_layout, url_bar_areas, Area, DottedView, LineStyle};

fn state() -> DisplayState {
    DisplayState::new(80, 24, true)
}

fn tab(id: &str, active: bool) -> TabInfo {
    TabInfo { id: id.to_string(), url: String::new(), title: String::new(), active }
}

#[test]
fn new_display_is_empty() {
    let s = DisplayState::new(100, 30, false);
    assert_eq!((s.cols, s.rows), (100, 30));
    assert!(!s.connected && !s.loading && !s.dotted);
    assert_eq!(s.mode, Mode::Normal);
    assert!(s.image.is_none() && s.tabs.is_empty() && s.error_log.is_empty());
    assert_eq!(s.scroll_offset, 0);
}

#[test]
fn layout_gives_address_page_and_status_bands() {
    let (bar, page, status) = build_layout(Area { x: 0, y: 0, width: 80, height: 24 });
    assert_eq!(bar, Area { x: 0, y: 0, width: 80, height: 2 });
    assert_eq!(page, Area { x: 0, y: 2, width: 80, height: 21 });
    assert_eq!(status, Area { x: 0, y: 23, width: 80, height: 1 });
}

#[test]
fn url_bar_shows_address_and_markers() {
    let mut s = state();
    let bar = s.url_bar();
    assert_eq!(bar.text, "  about:blank");
    assert!(!bar.editing && bar.tab_label.is_none());
    assert_eq!(bar.right_width, 0);
    s.url = "https://safe.test".to_string();
    s.loading = true;
    s.tabs = vec![tab("a", false), tab("b", false), tab("c", true)];
    let bar = s.url_bar();
    assert_eq!(bar.text, " \u{1f512} https://safe.test");
    assert_eq!(bar.tab_label.as_deref(), Some(" [3]"));
    assert_eq!(bar.right_width, 4 + 4);
    s.tabs = vec![tab("a", false)];
    assert_eq!(s.url_bar().tab_label.as_deref(), Some(" [1]"));
}

#[test]
fn url_bar_draws_cursor_while_typing() {
    let mut s = state();
    s.url_buffer = "abc".to_string();
    s.mode = Mode::UrlInput { cursor: 1 };
    let bar = s.url_bar();
    assert!(bar.editing);
    assert_eq!(bar.text, "  a\u{2588}bc");
    s.mode = Mode::UrlInput { cursor: 50 };
    assert_eq!(s.url_bar().text, "  abc\u{2588}");
    s.url_buffer = "\u{e9}".to_string();
    s.mode = Mode::UrlInput { cursor: 1 };
    assert!(!s.address_drawable());
    assert!(s.status_line_drawable(80));
    s.mode = Mode::FindActive { cursor: 1 };
    s.find_buffer = "\u{e9}".to_string();
    assert!(s.address_drawable());
    assert_eq!(s.url_bar().text, "  about:blank");
    assert!(!s.status_line_drawable(80));
}

#[test]
fn url_bar_areas_leave_room_for_markers() {
    let inner = Area { x: 2, y: 1, width: 40, height: 1 };
    let (left, right) = url_bar_areas(inner, 8);
    assert_eq!(left, Area { x: 2, y: 1, width: 31, height: 1 });
    assert_eq!(right, Area { x: 34, y: 1, width: 8, height: 1 });
    let (left, right) = url_bar_areas(Area { x: 0, y: 0, width: 5, height: 1 }, 8);
    assert_eq!(left.width, 0);
    assert_eq!(right.x, 0);
}

#[test]
fn image_area_messages() {
    let mut s = state();
    assert_eq!(s.image_message(), Some("Connecting to server..."));
    s.connected = true;
    assert_eq!(s.image_message(), Some("No page loaded \u{2014} navigate to a URL (Ctrl+L)"));
    s.loading = true;
    assert_eq!(s.image_message(), Some("Loading..."));
}

fn tiny_jpeg() -> Vec<u8> {
    let img = image::RgbImage::from_pixel(2, 2, image::Rgb([200, 10, 10]));
    let mut out = std::io::Cursor::new(Vec::new());
    img.write_to(&mut out, image::ImageFormat::Jpeg).unwrap();
    out.into_inner()
}

#[test]
fn frames_replace_the_image() {
    let mut s = state();
    s.connected = true;
    assert_eq!(s.set_image_from_jpeg(b"not a jpeg"), Err(DisplayError::FrameDecode));
    assert!(s.image.is_none());
    assert_eq!(DisplayError::FrameDecode.message(), "Failed to decode JPEG frame");
    assert_eq!(s.set_image_from_jpeg(&tiny_jpeg()), Ok(()));
    assert!(s.image.is_some());
    assert_eq!(s.image_message(), None);
}

#[test]
fn status_line_layouts() {
    let mut s = state();
    assert_eq!(s.status_line(80), " 80\u{d7}24  [NORMAL]");
    s.status = "Page loaded".to_string();
    assert_eq!(s.status_line(80), "Page loaded  80\u{d7}24  [NORMAL]");
    // no room for the left part
    assert_eq!(s.status_line(10), " 80\u{d7}24  [NORMAL]");
    assert_eq!(s.status_line(20), " 80\u{d7}24  [NORMAL]");
    // cut short
    assert_eq!(s.status_line(24), "Page \u{2026}  80\u{d7}24  [NORMAL]");
}

#[test]
fn status_line_shows_find_text_and_mode() {
    let mut s = state();
    s.mode = Mode::FindActive { cursor: 2 };
    s.find_buffer = "abc".to_string();
    s.status = "ignored".to_string();
    assert_eq!(s.status_line(80), "Find: ab\u{2588}c  80\u{d7}24  [FIND]");
    s.mode = Mode::UrlInput { cursor: 0 };
    assert_eq!(s.status_line(80), "ignored  80\u{d7}24  [URL]");
}

#[test]
fn status_line_cut_inside_a_character_is_refused() {
    let mut s = state();
    s.status = "\u{e9}".repeat(9);
    // 23 cells leave 5 bytes for the left part: the cut at byte 4 ends a character
    assert!(s.status_line_drawable(23));
    assert_eq!(s.status_line(23), "\u{e9}\u{e9}\u{2026}  80\u{d7}24  [NORMAL]");
    // 22 and 24 cells would cut inside a character
    assert!(!s.status_line_drawable(22));
    assert!(!s.status_line_drawable(24));
}

#[test]
fn dotted_view_notices() {
    let mut s = state();
    match s.dotted_view(20) {
        DottedView::Notice { text, loading } => {
            assert_eq!(text, "Connecting to server...");
            assert!(!loading);
        }
        other => panic!("unexpected {other:?}"),
    }
    s.connected = true;
    assert!(matches!(s.dotted_view(20), DottedView::Notice { text, .. } if text.starts_with("No page loaded")));
    s.loading = true;
    assert!(matches!(s.dotted_view(20), DottedView::Notice { text: "Loading...", loading: true }));
    // an empty page needs no room for scrolling
    s.scroll_offset = usize::MAX;
    assert!(matches!(s.dotted_view(20), DottedView::Notice { text: "Loading...", loading: true }));
}

#[test]
fn dotted_view_lines_and_links() {
    let mut s = state();
    s.page_text = "one\r\n   \ntwo\nthree\nfour\n".to_string();
    s.scroll_offset = 0;
    match s.dotted_view(5) {
        DottedView::Lines(lines) => {
            let texts: Vec<&str> = lines.iter().map(|l| l.text.as_str()).collect();
            assert_eq!(texts, vec!["one", "", "two"]);
            assert!(lines.iter().all(|l| l.style == LineStyle::Page));
        }
        other => panic!("unexpected {other:?}"),
    }
    s.scroll_offset = 3;
    s.page_links = (0..22).map(|i| (format!("link{i}"), format!("/p{i}"))).collect();
    match s.dotted_view(5) {
        DottedView::Lines(lines) => {
            assert_eq!(lines[0].text, "three");
            assert_eq!(lines[1].text, "four");
            assert_eq!(lines[2].text, "");
            assert_eq!(
                lines[3].text,
                "\u{2500}\u{2500}\u{2500} Links (press number to navigate) \u{2500}\u{2500}\u{2500} 22 total \u{2500}\u{2500}\u{2500}"
            );
            assert_eq!(lines[3].style, LineStyle::Note);
            assert_eq!(lines[4].text, "[1] link0 \u{2192} /p0");
            assert_eq!(lines[4].style, LineStyle::Link);
            assert_eq!(lines[23].text, "[20] link19 \u{2192} /p19");
            assert_eq!(lines[24].text, "... and 2 more links");
            assert_eq!(lines.len(), 25);
        }
        other => panic!("unexpected {other:?}"),
    }
    s.scroll_offset = 10;
    s.page_links.clear();
    assert!(matches!(s.dotted_view(5), DottedView::Lines(l) if l.is_empty()));
}

#[test]
fn errors_are_logged() {
    let mut s = state();
    s.push_error("first");
    for i in 0..10 {
        s.push_error(&format!("n{i}"));
    }
    assert_eq!(s.error_log.len(), 10);
    assert_eq!(s.error_log[0], "n0");
    assert_eq!(s.error_log[9], "n9");
}

#[test]
fn url_bar_loading_mark_follows_loading() {
    let mut s = state();
    assert_eq!(s.url_bar().loading_mark(), None);
    s.loading = true;
    let bar = s.url_bar();
    assert_eq!(bar.loading_mark(), Some(" \u{25cc}"));
    assert_eq!(bar.right_width, 4);
}

#[test]
fn decoded_frames_are_shown_and_failures_kept_out() {
    let mut s = state();
    let img = image::DynamicImage::ImageRgb8(image::RgbImage::from_pixel(3, 1, image::Rgb([1, 2, 3])));
    assert_eq!(s.show_decoded_frame(Ok(img.clone())), Ok(()));
    assert_eq!(s.image.as_ref(), Some(&img));
    let failure = image::load_from_memory_with_format(b"xx", image::ImageFormat::Jpeg);
    assert!(failure.is_err());
    assert_eq!(s.show_decoded_frame(failure), Err(DisplayError::FrameDecode));
    assert_eq!(s.image.as_ref(), Some(&img));
}
