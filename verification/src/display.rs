//! The client's display state: what page is shown, what the user is typing,
//! the tab list and the recent errors, with the operations that update it.
use vstd::prelude::*;

use crate::text::string_of;

verus! {

/// What the keyboard is editing. Cursors are byte offsets into the buffer
/// being edited.
#[derive(Debug, Clone, Copy, PartialEq, Eq, Structural)]
pub enum Mode {
    Normal,
    UrlInput { cursor: usize },
    FindActive { cursor: usize },
}

/// A browser tab as the display lists it.
#[derive(Debug, Clone)]
pub struct TabInfo {
    pub id: String,
    pub url: String,
    pub title: String,
    pub active: bool,
}

/// The mathematical form of a tab.
pub struct TabView {
    pub id: Seq<char>,
    pub url: Seq<char>,
    pub title: Seq<char>,
    pub active: bool,
}

impl View for TabInfo {
    type V = TabView;

    open spec fn view(&self) -> TabView {
        TabView { id: self.id@, url: self.url@, title: self.title@, active: self.active }
    }
}

pub open spec fn tab_views(tabs: Seq<TabInfo>) -> Seq<TabView> {
    tabs.map_values(|t: TabInfo| t@)
}

pub open spec fn string_views(v: Seq<String>) -> Seq<Seq<char>> {
    v.map_values(|s: String| s@)
}

pub open spec fn link_views(v: Seq<(String, String)>) -> Seq<(Seq<char>, Seq<char>)> {
    v.map_values(|p: (String, String)| (p.0@, p.1@))
}

#[verifier::external_type_specification]
#[verifier::external_body]
pub struct ExDynamicImage(image::DynamicImage);

#[verifier::external_type_specification]
#[verifier::external_body]
pub struct ExImageError(image::ImageError);

/// The display state the client draws from.
pub struct DisplayState {
    /// The last screenshot frame, decoded.
    pub image: Option<image::DynamicImage>,
    pub url: String,
    pub url_buffer: String,
    pub find_buffer: String,
    pub status: String,
    pub error_log: Vec<String>,
    pub cols: u16,
    pub rows: u16,
    pub connected: bool,
    pub loading: bool,
    pub mode: Mode,
    pub tabs: Vec<TabInfo>,
    pub dotted: bool,
    pub page_text: String,
    pub page_links: Vec<(String, String)>,
    pub scroll_offset: usize,
}

/// The mathematical form of the display state.
#[verifier::ext_equal]
pub struct DisplayView {
    pub image: Option<image::DynamicImage>,
    pub url: Seq<char>,
    pub url_buffer: Seq<char>,
    pub find_buffer: Seq<char>,
    pub status: Seq<char>,
    pub error_log: Seq<Seq<char>>,
    pub cols: u16,
    pub rows: u16,
    pub connected: bool,
    pub loading: bool,
    pub mode: Mode,
    pub tabs: Seq<TabView>,
    pub dotted: bool,
    pub page_text: Seq<char>,
    pub page_links: Seq<(Seq<char>, Seq<char>)>,
    pub scroll_offset: usize,
}

impl View for DisplayState {
    type V = DisplayView;

    open spec fn view(&self) -> DisplayView {
        DisplayView {
            image: self.image,
            url: self.url@,
            url_buffer: self.url_buffer@,
            find_buffer: self.find_buffer@,
            status: self.status@,
            error_log: string_views(self.error_log@),
            cols: self.cols,
            rows: self.rows,
            connected: self.connected,
            loading: self.loading,
            mode: self.mode,
            tabs: tab_views(self.tabs@),
            dotted: self.dotted,
            page_text: self.page_text@,
            page_links: link_views(self.page_links@),
            scroll_offset: self.scroll_offset,
        }
    }
}

/// The most errors the display keeps.
pub const MAX_ERRORS: usize = 10;

/// The error log after `msg` is recorded: the newest last, the oldest dropped
/// once more than `MAX_ERRORS` would be kept.
pub open spec fn log_after_push(log: Seq<Seq<char>>, msg: Seq<char>) -> Seq<Seq<char>> {
    if log.len() + 1 > MAX_ERRORS {
        log.push(msg).drop_first()
    } else {
        log.push(msg)
    }
}

/// A frame could not be decoded.
#[derive(Debug, Clone, Copy, PartialEq, Eq, Structural)]
pub enum DisplayError {
    FrameDecode,
}

impl DisplayError {
    /// The message the error is reported with.
    pub fn message(&self) -> (r: &'static str)
        ensures
            r@ == "Failed to decode JPEG frame"@,
    {
        "Failed to decode JPEG frame"
    }
}

/// The image that `bytes` decode to as a JPEG file, `None` when they do not
/// decode.
pub uninterp spec fn jpeg_image(bytes: Seq<u8>) -> Option<image::DynamicImage>;

/// `image::load_from_memory_with_format(bytes, ImageFormat::Jpeg)`: decodes a
/// JPEG image. Whether it succeeds, and the image it gives, depend on the
/// bytes alone.
#[verifier::external_body]
fn decode_jpeg(bytes: &[u8]) -> (r: Result<image::DynamicImage, image::ImageError>)
    ensures
        match r {
            Ok(img) => jpeg_image(bytes@) == Some(img),
            Err(_) => jpeg_image(bytes@) is None,
        },
{
    image::load_from_memory_with_format(bytes, image::ImageFormat::Jpeg)
}

impl DisplayState {
    /// Records an error message, keeping only the most recent `MAX_ERRORS`.
    pub fn push_error(&mut self, msg: &str)
        ensures
            final(self)@ == (DisplayView {
                error_log: log_after_push(old(self)@.error_log, msg@),
                ..old(self)@
            }),
    {
        let ghost before = self.error_log@;
        let s = string_of(msg);
        self.error_log.push(s);
        assert(string_views(self.error_log@) =~= string_views(before).push(msg@));
        if self.error_log.len() > MAX_ERRORS {
            self.error_log.remove(0);
            assert(string_views(self.error_log@) =~= string_views(before).push(msg@).drop_first());
        }
    }

    /// A display of `cols` by `rows` cells, not yet connected, showing nothing.
    pub fn new(cols: u16, rows: u16, dotted: bool) -> (r: Self)
        ensures
            r@ == (DisplayView {
                image: None,
                url: Seq::empty(),
                url_buffer: Seq::empty(),
                find_buffer: Seq::empty(),
                status: Seq::empty(),
                error_log: Seq::empty(),
                cols,
                rows,
                connected: false,
                loading: false,
                mode: Mode::Normal,
                tabs: Seq::empty(),
                dotted,
                page_text: Seq::empty(),
                page_links: Seq::empty(),
                scroll_offset: 0,
            }),
    {
        let r = DisplayState {
            image: None,
            url: String::new(),
            url_buffer: String::new(),
            find_buffer: String::new(),
            status: String::new(),
            error_log: Vec::new(),
            cols,
            rows,
            connected: false,
            loading: false,
            mode: Mode::Normal,
            tabs: Vec::new(),
            dotted,
            page_text: String::new(),
            page_links: Vec::new(),
            scroll_offset: 0,
        };
        assert(string_views(r.error_log@) =~= Seq::empty());
        assert(tab_views(r.tabs@) =~= Seq::empty());
        assert(link_views(r.page_links@) =~= Seq::empty());
        r
    }

    /// Decodes a JPEG screenshot and makes it the shown image; on failure the
    /// state is left as it was.
    pub fn set_image_from_jpeg(&mut self, jpeg_bytes: &[u8]) -> (r: Result<(), DisplayError>)
        ensures
            r is Ok <==> jpeg_image(jpeg_bytes@) is Some,
            r is Ok ==> final(self)@ == (DisplayView { image: jpeg_image(jpeg_bytes@), ..old(self)@ }),
            r is Err ==> final(self)@ == old(self)@ && r == Err::<(), DisplayError>(
                DisplayError::FrameDecode,
            ),
    {
        self.show_decoded_frame(decode_jpeg(jpeg_bytes))
    }

    /// Shows a decoded frame; a frame that did not decode is reported and
    /// leaves the state as it was.
    pub fn show_decoded_frame(&mut self, decoded: Result<image::DynamicImage, image::ImageError>) -> (r:
        Result<(), DisplayError>)
        ensures
            match decoded {
                Ok(img) => r is Ok && final(self)@ == (DisplayView { image: Some(img), ..old(self)@ }),
                Err(_) => r == Err::<(), DisplayError>(DisplayError::FrameDecode) && final(self)@
                    == old(self)@,
            },
    {
        match decoded {
            Ok(img) => {
                self.image = Some(img);
                Ok(())
            },
            Err(_) => Err(DisplayError::FrameDecode),
        }
    }
}

} // verus!
