//! What the screen shows, computed from the display state: the layout of the
//! three bands, the address bar, the message in place of a missing frame,
//! the status bar, and the text rendering of a page. Drawing these is left
//! to the terminal front end.
use vstd::prelude::*;
use ratatui::layout::Constraint;

use crate::display::{DisplayState, DisplayView, Mode, TabView, tab_views, link_views};
use crate::text::{
    byte_len, char_index_at, decimal, string_of, append_str, string_insert, string_len,
    starts_with, decimal_string, lemma_char_index_at_sound, lemma_byte_len_take_le,
    lemma_byte_len_concat, lemma_decimal_len_u64, str_prefix, is_boundary,
};

verus! {

// ─── Layout ─────────────────────────────────────────────────────────────────
/// A rectangle of terminal cells.
#[derive(Debug, Clone, Copy, PartialEq, Eq, Structural)]
pub struct Area {
    pub x: u16,
    pub y: u16,
    pub width: u16,
    pub height: u16,
}

/// The bands that the terminal UI's layout solver gives `area` when it cuts it
/// top to bottom into a band of exactly `top` rows, a band of at least
/// `middle_min` rows and a band of exactly `bottom` rows.
pub uninterp spec fn vertical_bands(area: Area, top: u16, middle_min: u16, bottom: u16) -> (
    Area,
    Area,
    Area,
);

/// `ratatui::layout::Layout::vertical([Length(top), Min(middle_min),
/// Length(bottom)]).split(area)`. The bands depend on the area and the sizes
/// alone; which bands the solver picks is not stated.
#[verifier::external_body]
fn split_vertical(area: Area, top: u16, middle_min: u16, bottom: u16) -> (r: (Area, Area, Area))
    ensures
        r == vertical_bands(area, top, middle_min, bottom),
{
    let rects = ratatui::layout::Layout::vertical([Constraint::Length(top), Constraint::Min(middle_min), Constraint::Length(bottom)])
        .split(ratatui::layout::Rect::new(area.x, area.y, area.width, area.height));
    (
        Area { x: rects[0].x, y: rects[0].y, width: rects[0].width, height: rects[0].height },
        Area { x: rects[1].x, y: rects[1].y, width: rects[1].width, height: rects[1].height },
        Area { x: rects[2].x, y: rects[2].y, width: rects[2].width, height: rects[2].height },
    )
}

/// The screen's bands: the address bar (two rows), the page (the rest, at
/// least one row) and the status bar (one row).
pub fn build_layout(area: Area) -> (r: (Area, Area, Area))
    ensures
        r == vertical_bands(area, 2, 1, 1),
{
    split_vertical(area, 2, 1, 1)
}

// ─── Address bar ────────────────────────────────────────────────────────────
/// The character drawn where the text cursor stands.
pub open spec fn cursor_char() -> char {
    '\u{2588}'
}

/// `text` with the cursor drawn at byte offset `cursor`, clamped to the end;
/// `None` when that offset is not a character boundary.
pub open spec fn with_cursor(text: Seq<char>, cursor: usize) -> Option<Seq<char>> {
    let pos = if cursor < byte_len(text) {
        cursor as int
    } else {
        byte_len(text) as int
    };
    match char_index_at(text, pos) {
        Some(k) => Some(text.insert(k, cursor_char())),
        None => None,
    }
}

/// The address bar can be drawn: while the address is being typed, its
/// cursor stands on a character boundary of the typed text.
pub open spec fn address_drawable(s: DisplayView) -> bool {
    match s.mode {
        Mode::UrlInput { cursor } => with_cursor(s.url_buffer, cursor) is Some,
        _ => true,
    }
}

/// The find bar can be drawn: while finding, its cursor stands on a
/// character boundary of the find text.
pub open spec fn find_bar_drawable(s: DisplayView) -> bool {
    match s.mode {
        Mode::FindActive { cursor } => with_cursor(s.find_buffer, cursor) is Some,
        _ => true,
    }
}

/// The address shown in the address bar: the text being typed with its
/// cursor, else the page's address (`about:blank` when there is none).
pub open spec fn shown_address(s: DisplayView) -> Seq<char> {
    match s.mode {
        Mode::UrlInput { cursor } => with_cursor(s.url_buffer, cursor).unwrap(),
        _ => if s.url.len() == 0 {
            "about:blank"@
        } else {
            s.url
        },
    }
}

/// The icon before the address: a lock for https pages.
pub open spec fn address_prefix(url: Seq<char>) -> Seq<char> {
    if "https://"@.is_prefix_of(url) {
        " \u{1f512} "@
    } else {
        "  "@
    }
}

/// The index of the first active tab, if any is.
pub open spec fn first_active(tabs: Seq<TabView>) -> Option<nat>
    decreases tabs.len(),
{
    if tabs.len() == 0 {
        None
    } else if tabs[0].active {
        Some(0)
    } else {
        match first_active(tabs.drop_first()) {
            Some(k) => Some(k + 1),
            None => None,
        }
    }
}

/// The index of the first active tab, 0 when none is.
pub open spec fn active_tab_index(tabs: Seq<TabView>) -> nat {
    match first_active(tabs) {
        Some(k) => k,
        None => 0,
    }
}

/// The tab marker of the address bar: the active tab's number, counted from 1.
pub open spec fn tab_label(tabs: Seq<TabView>) -> Option<Seq<char>> {
    if tabs.len() == 0 {
        None
    } else {
        Some(" ["@ + decimal(active_tab_index(tabs) + 1) + "]"@)
    }
}

/// The loading marker of the address bar.
pub open spec fn loading_mark() -> Seq<char> {
    " \u{25cc}"@
}

/// What the address bar shows.
pub struct UrlBar {
    /// The icon and the address.
    pub text: String,
    /// The address is being typed (drawn in the editing colour).
    pub editing: bool,
    /// The page is loading (the loading marker is shown at the right).
    pub loading: bool,
    /// The tab marker shown at the right, if there are tabs.
    pub tab_label: Option<String>,
    /// The width of the right-hand markers, in bytes of their text.
    pub right_width: u16,
}

impl UrlBar {
    /// The loading marker drawn at the right, while the page loads.
    pub fn loading_mark(&self) -> (r: Option<&'static str>)
        ensures
            r is Some <==> self.loading,
            r matches Some(m) ==> m@ == loading_mark(),
    {
        if self.loading {
            let mark = " \u{25cc}";
            proof {
                reveal_strlit(" \u{25cc}");
            }
            Some(mark)
        } else {
            None
        }
    }
}

/// The width the right-hand markers take.
pub open spec fn right_width(s: DisplayView) -> nat {
    (if s.loading {
        byte_len(loading_mark())
    } else {
        0
    }) + match tab_label(s.tabs) {
        Some(l) => byte_len(l),
        None => 0,
    }
}

pub open spec fn is_url_mode(m: Mode) -> bool {
    m is UrlInput
}

pub open spec fn opt_string_view(o: Option<String>) -> Option<Seq<char>> {
    match o {
        Some(s) => Some(s@),
        None => None,
    }
}

fn find_active_index(tabs: &Vec<crate::display::TabInfo>) -> (r: usize)
    ensures
        r == active_tab_index(tab_views(tabs@)),
        r < tabs.len() || tabs.len() == 0,
{
    let ghost tv = tab_views(tabs@);
    let mut i: usize = 0;
    assert(tv.skip(0) =~= tv);
    while i < tabs.len()
        invariant
            i <= tabs.len(),
            tv == tab_views(tabs@),
            tv.len() == tabs.len(),
            first_active(tv) == (match first_active(tv.skip(i as int)) {
                Some(k) => Some((k + i) as nat),
                None => None,
            }),
        decreases tabs.len() - i,
    {
        let ghost rest = tv.skip(i as int);
        assert(rest[0] == tv[i as int]);
        if tabs[i].active {
            return i;
        }
        assert(rest.drop_first() =~= tv.skip(i + 1));
        i = i + 1;
    }
    assert(tv.skip(i as int).len() == 0);
    0
}

fn draw_cursor(text: &String, cursor: usize) -> (r: String)
    requires
        with_cursor(text@, cursor) is Some,
    ensures
        r@ == with_cursor(text@, cursor).unwrap(),
{
    let mut s = text.clone();
    let len = string_len(&s);
    let pos = if cursor < len {
        cursor
    } else {
        len
    };
    string_insert(&mut s, pos, '\u{2588}');
    s
}

impl DisplayState {
    /// Whether the address bar can be drawn (see `address_drawable`).
    pub fn address_drawable(&self) -> (r: bool)
        ensures
            r == address_drawable(self@),
    {
        match self.mode {
            Mode::UrlInput { cursor } => cursor_on_boundary(&self.url_buffer, cursor),
            _ => true,
        }
    }

    /// What the address bar shows.
    pub fn url_bar(&self) -> (r: UrlBar)
        requires
            address_drawable(self@),
        ensures
            r.text@ == address_prefix(self.url@) + shown_address(self@),
            r.editing == is_url_mode(self.mode),
            r.loading == self.loading,
            opt_string_view(r.tab_label) == tab_label(tab_views(self.tabs@)),
            r.right_width == right_width(self@),
    {
        let address = match self.mode {
            Mode::UrlInput { cursor } => draw_cursor(&self.url_buffer, cursor),
            _ => {
                if self.url.as_str().is_empty() {
                    string_of("about:blank")
                } else {
                    self.url.clone()
                }
            },
        };
        let mut text = if starts_with(self.url.as_str(), "https://") {
            string_of(" \u{1f512} ")
        } else {
            string_of("  ")
        };
        append_str(&mut text, address.as_str());
        let editing = match self.mode {
            Mode::UrlInput { .. } => true,
            _ => false,
        };
        let mut width: u16 = 0;
        if self.loading {
            let mark = string_of(" \u{25cc}");
            let n = string_len(&mark);
            proof {
                lemma_loading_mark_width();
            }
            width = n as u16;
        }
        let label = if self.tabs.len() > 0 {
            let idx = find_active_index(&self.tabs);
            let mut l = string_of(" [");
            let digits = decimal_string((idx + 1) as u64);
            append_str(&mut l, digits.as_str());
            append_str(&mut l, "]");
            let n = string_len(&l);
            proof {
                lemma_label_width(idx as nat + 1);
            }
            width = width + n as u16;
            Some(l)
        } else {
            None
        };
        UrlBar { text, editing, loading: self.loading, tab_label: label, right_width: width }
    }

    /// The message shown in place of the page when no frame has arrived.
    pub fn image_message(&self) -> (r: Option<&'static str>)
        ensures
            match r {
                Some(m) => self.image is None && m@ == image_message_text(self.loading, self.connected),
                None => self.image is Some,
            },
    {
        if self.image.is_some() {
            None
        } else if self.loading {
            Some("Loading...")
        } else if self.connected {
            Some("No page loaded \u{2014} navigate to a URL (Ctrl+L)")
        } else {
            Some("Connecting to server...")
        }
    }
}

/// The message in place of a missing frame.
pub open spec fn image_message_text(loading: bool, connected: bool) -> Seq<char> {
    if loading {
        "Loading..."@
    } else if connected {
        "No page loaded \u{2014} navigate to a URL (Ctrl+L)"@
    } else {
        "Connecting to server..."@
    }
}

fn cursor_on_boundary(text: &String, cursor: usize) -> (r: bool)
    ensures
        r == (with_cursor(text@, cursor) is Some),
{
    let len = string_len(text);
    let pos = if cursor < len {
        cursor
    } else {
        len
    };
    is_boundary(text.as_str(), pos)
}

proof fn lemma_label_width(n: nat)
    requires
        n <= usize::MAX + 1,
    ensures
        byte_len(" ["@ + decimal(n) + "]"@) <= 23,
{
    reveal_strlit(" [");
    reveal_strlit("]");
    lemma_decimal_len_u64(n);
    lemma_byte_len_concat(" ["@ + decimal(n), "]"@);
    lemma_byte_len_concat(" ["@, decimal(n));
    reveal_with_fuel(byte_len, 3);
}

proof fn lemma_loading_mark_width()
    ensures
        byte_len(loading_mark()) == 4,
{
    reveal_strlit(" \u{25cc}");
    reveal_with_fuel(byte_len, 3);
}

/// The two parts of the address bar's inner area: the address on the left,
/// keeping one cell free before the markers, which take the right.
pub fn url_bar_areas(inner: Area, right_width: u16) -> (r: (Area, Area))
    requires
        inner.x + inner.width <= u16::MAX,
        right_width < u16::MAX,
    ensures
        r.0 == (Area {
            width: if inner.width > right_width + 1 {
                (inner.width - right_width - 1) as u16
            } else {
                0
            },
            ..inner
        }),
        r.1 == (Area {
            x: (inner.x + if inner.width > right_width {
                inner.width - right_width
            } else {
                0
            }) as u16,
            width: right_width,
            ..inner
        }),
{
    let left = Area { width: inner.width.saturating_sub(right_width + 1), ..inner };
    let right = Area { x: inner.x + inner.width.saturating_sub(right_width), width: right_width, ..inner };
    (left, right)
}

// ─── Status bar ─────────────────────────────────────────────────────────────
/// The tag of an input mode.
pub open spec fn mode_tag(m: Mode) -> Seq<char> {
    match m {
        Mode::Normal => "NORMAL"@,
        Mode::UrlInput { .. } => "URL"@,
        Mode::FindActive { .. } => "FIND"@,
    }
}

/// The find bar's text, shown while finding.
pub open spec fn find_text(s: DisplayView) -> Seq<char> {
    match s.mode {
        Mode::FindActive { cursor } => "Find: "@ + with_cursor(s.find_buffer, cursor).unwrap(),
        _ => Seq::empty(),
    }
}

/// The right part of the status bar: the terminal size and the mode tag.
pub open spec fn status_right(s: DisplayView) -> Seq<char> {
    " "@ + decimal(s.cols as nat) + "\u{d7}"@ + decimal(s.rows as nat) + "  ["@ + mode_tag(s.mode)
        + "]"@
}

/// The left part of the status bar: the find bar while finding, else the
/// status text.
pub open spec fn status_left(s: DisplayView) -> Seq<char> {
    let f = find_text(s);
    if f.len() > 0 {
        f
    } else if s.status.len() > 0 {
        s.status
    } else {
        Seq::empty()
    }
}

/// The status bar's line for a bar `width` cells wide: the right part alone
/// when the left part is empty or there is no room for it, else both parts,
/// the left one cut short (ending in an ellipsis) where it would not fit.
/// `None` when the cut falls inside a character, or the find cursor is not on
/// a character boundary of the find text.
pub open spec fn status_line(s: DisplayView, width: u16) -> Option<Seq<char>> {
    let right = status_right(s);
    let left = status_left(s);
    let min_right = byte_len(right) + 1;
    if !find_bar_drawable(s) {
        None
    } else if left.len() == 0 || width <= min_right || width <= min_right + 3 {
        Some(right)
    } else {
        let avail = width - min_right;
        if byte_len(left) > avail {
            match char_index_at(left, avail - 1) {
                Some(k) => Some(left.take(k) + "\u{2026} "@ + right),
                None => None,
            }
        } else {
            Some(left + " "@ + right)
        }
    }
}

proof fn lemma_status_right_width(s: DisplayView)
    ensures
        byte_len(status_right(s)) <= 60,
{
    reveal_strlit(" ");
    reveal_strlit("\u{d7}");
    reveal_strlit("  [");
    reveal_strlit("]");
    reveal_strlit("NORMAL");
    reveal_strlit("URL");
    reveal_strlit("FIND");
    lemma_decimal_len_u64(s.cols as nat);
    lemma_decimal_len_u64(s.rows as nat);
    let a = " "@;
    let b = decimal(s.cols as nat);
    let c = "\u{d7}"@;
    let d = decimal(s.rows as nat);
    let e = "  ["@;
    let f = mode_tag(s.mode);
    let g = "]"@;
    lemma_byte_len_concat(a, b);
    lemma_byte_len_concat(a + b, c);
    lemma_byte_len_concat(a + b + c, d);
    lemma_byte_len_concat(a + b + c + d, e);
    lemma_byte_len_concat(a + b + c + d + e, f);
    lemma_byte_len_concat(a + b + c + d + e + f, g);
    reveal_with_fuel(byte_len, 7);
}

fn mode_tag_str(m: Mode) -> (r: &'static str)
    ensures
        r@ == mode_tag(m),
{
    match m {
        Mode::Normal => "NORMAL",
        Mode::UrlInput { .. } => "URL",
        Mode::FindActive { .. } => "FIND",
    }
}

impl DisplayState {
    fn build_status_line(&self, width: u16) -> (r: Option<String>)
        ensures
            opt_string_view(r) == status_line(self@, width),
    {
        let find_text = match self.mode {
            Mode::FindActive { cursor } => {
                if !cursor_on_boundary(&self.find_buffer, cursor) {
                    return None;
                }
                let mut t = string_of("Find: ");
                let shown = draw_cursor(&self.find_buffer, cursor);
                append_str(&mut t, shown.as_str());
                t
            },
            _ => String::new(),
        };
        let mut right_text = string_of(" ");
        let cols = decimal_string(self.cols as u64);
        append_str(&mut right_text, cols.as_str());
        append_str(&mut right_text, "\u{d7}");
        let rows = decimal_string(self.rows as u64);
        append_str(&mut right_text, rows.as_str());
        append_str(&mut right_text, "  [");
        append_str(&mut right_text, mode_tag_str(self.mode));
        append_str(&mut right_text, "]");
        let left_text = if !find_text.as_str().is_empty() {
            find_text
        } else if !self.status.as_str().is_empty() {
            self.status.clone()
        } else {
            String::new()
        };
        proof {
            lemma_status_right_width(self@);
        }
        let min_right = string_len(&right_text) + 1;
        let w = width as usize;
        let full = if left_text.as_str().is_empty() {
            right_text
        } else if w <= min_right {
            right_text
        } else if w <= min_right + 3 {
            right_text
        } else {
            let avail = w - min_right;
            if string_len(&left_text) > avail {
                let cut = avail - 1;
                if !is_boundary(left_text.as_str(), cut) {
                    return None;
                }
                let mut t = string_of(str_prefix(left_text.as_str(), cut));
                append_str(&mut t, "\u{2026} ");
                append_str(&mut t, right_text.as_str());
                t
            } else {
                let mut t = left_text;
                append_str(&mut t, " ");
                append_str(&mut t, right_text.as_str());
                t
            }
        };
        Some(full)
    }

    /// Whether the status bar can be drawn `width` cells wide (see `status_line`).
    pub fn status_line_drawable(&self, width: u16) -> (r: bool)
        ensures
            r == status_line(self@, width) is Some,
    {
        self.build_status_line(width).is_some()
    }

    /// The status bar's line for a bar `width` cells wide.
    pub fn status_line(&self, width: u16) -> (r: String)
        requires
            status_line(self@, width) is Some,
        ensures
            Some(r@) == status_line(self@, width),
    {
        match self.build_status_line(width) {
            Some(l) => l,
            None => String::new(),
        }
    }
}

// ─── Text rendering of a page ───────────────────────────────────────────────
/// How a line of the text rendering is drawn.
#[derive(Debug, Clone, Copy, PartialEq, Eq, Structural)]
pub enum LineStyle {
    /// Page text, in the plain colour.
    Page,
    /// A heading or note about the links, dimmed.
    Note,
    /// A numbered link, highlighted.
    Link,
}

/// A line of the text rendering.
#[derive(Debug, Clone)]
pub struct DottedLine {
    pub text: String,
    pub style: LineStyle,
}

/// The text rendering of the page area.
#[derive(Debug, Clone)]
pub enum DottedView {
    /// A notice centred in the page area: `loading` marks the loading notice
    /// (drawn highlighted), the others are drawn dimmed.
    Notice { text: &'static str, loading: bool },
    /// The page's lines, then its links.
    Lines(Vec<DottedLine>),
}

pub open spec fn dotted_line_view(l: DottedLine) -> (Seq<char>, LineStyle) {
    (l.text@, l.style)
}

pub open spec fn dotted_line_views(v: Seq<DottedLine>) -> Seq<(Seq<char>, LineStyle)> {
    v.map_values(|l: DottedLine| dotted_line_view(l))
}

/// The most links listed under a page.
pub const MAX_LISTED_LINKS: usize = 20;

/// How a page line is shown: blank when it holds only white space.
pub open spec fn shown_page_line(line: Seq<char>) -> Seq<char> {
    if crate::text::trimmed(line).len() == 0 {
        Seq::empty()
    } else {
        line
    }
}

/// The page lines shown in an area `height` rows high: from the scroll
/// offset, as many as fit with two rows to spare.
pub open spec fn shown_page_lines(s: DisplayView, height: u16) -> Seq<(Seq<char>, LineStyle)> {
    let lines = crate::text::text_lines(s.page_text);
    let avail: int = if height >= 2 {
        height - 2
    } else {
        0
    };
    let end: int = if lines.len() < s.scroll_offset + avail {
        lines.len() as int
    } else {
        s.scroll_offset + avail
    };
    let count: int = if end > s.scroll_offset {
        end - s.scroll_offset
    } else {
        0
    };
    Seq::new(count as nat, |i: int| (shown_page_line(lines[s.scroll_offset + i]), LineStyle::Page))
}

/// The heading over the list of links.
pub open spec fn links_heading(n: nat) -> Seq<char> {
    "\u{2500}\u{2500}\u{2500} Links (press number to navigate) \u{2500}\u{2500}\u{2500} "@ + decimal(n)
        + " total \u{2500}\u{2500}\u{2500}"@
}

/// The label of link `i` (counted from 0) with its text and target.
pub open spec fn link_label(i: nat, link: (Seq<char>, Seq<char>)) -> Seq<char> {
    "["@ + decimal(i + 1) + "] "@ + link.0 + " \u{2192} "@ + link.1
}

/// The list of a page's links: a blank line, the heading, at most
/// `MAX_LISTED_LINKS` numbered links, and a note of how many more there are.
pub open spec fn link_lines(links: Seq<(Seq<char>, Seq<char>)>) -> Seq<(Seq<char>, LineStyle)> {
    let n = links.len();
    if n == 0 {
        Seq::empty()
    } else {
        let shown: nat = if n < MAX_LISTED_LINKS {
            n
        } else {
            MAX_LISTED_LINKS as nat
        };
        seq![(Seq::empty(), LineStyle::Page), (links_heading(n), LineStyle::Note)] + Seq::new(
            shown,
            |i: int| (link_label(i as nat, links[i]), LineStyle::Link),
        ) + if n > MAX_LISTED_LINKS {
            seq![
                (
                    "... and "@ + decimal((n - MAX_LISTED_LINKS) as nat) + " more links"@,
                    LineStyle::Note,
                ),
            ]
        } else {
            Seq::empty()
        }
    }
}

/// The text rendering of the page area, `height` rows high.
pub open spec fn dotted_view(s: DisplayView, height: u16) -> Result<
    (Seq<char>, bool),
    Seq<(Seq<char>, LineStyle)>,
> {
    if s.page_text.len() == 0 && !s.loading {
        Ok(
            (
                if s.connected {
                    "No page loaded \u{2014} press Ctrl+L to enter a URL"@
                } else {
                    "Connecting to server..."@
                },
                false,
            ),
        )
    } else if s.loading && s.page_text.len() == 0 {
        Ok(("Loading..."@, true))
    } else {
        Err(shown_page_lines(s, height) + link_lines(s.page_links))
    }
}

pub open spec fn dotted_view_of(v: DottedView) -> Result<
    (Seq<char>, bool),
    Seq<(Seq<char>, LineStyle)>,
> {
    match v {
        DottedView::Notice { text, loading } => Ok((text@, loading)),
        DottedView::Lines(lines) => Err(dotted_line_views(lines@)),
    }
}

fn push_line(out: &mut Vec<DottedLine>, text: String, style: LineStyle)
    ensures
        dotted_line_views(final(out)@) == dotted_line_views(old(out)@).push((text@, style)),
{
    let ghost before = out@;
    let l = DottedLine { text, style };
    out.push(l);
    assert(dotted_line_views(out@) =~= dotted_line_views(before).push((text@, style)));
}

fn link_label_string(i: usize, link: &(String, String)) -> (r: String)
    requires
        i < MAX_LISTED_LINKS,
    ensures
        r@ == link_label(i as nat, (link.0@, link.1@)),
{
    let mut t = string_of("[");
    let d = decimal_string((i + 1) as u64);
    append_str(&mut t, d.as_str());
    append_str(&mut t, "] ");
    append_str(&mut t, link.0.as_str());
    append_str(&mut t, " \u{2192} ");
    append_str(&mut t, link.1.as_str());
    t
}

impl DisplayState {
    /// The text rendering of the page area, `height` rows high.
    pub fn dotted_view(&self, height: u16) -> (r: DottedView)
        requires
            self.page_text@.len() > 0 ==> self.scroll_offset + (if height >= 2 {
                height - 2
            } else {
                0
            }) <= usize::MAX,
        ensures
            dotted_view_of(r) == dotted_view(self@, height),
    {
        if self.page_text.as_str().is_empty() && !self.loading {
            let msg = if self.connected {
                "No page loaded \u{2014} press Ctrl+L to enter a URL"
            } else {
                "Connecting to server..."
            };
            return DottedView::Notice { text: msg, loading: false };
        }
        if self.loading && self.page_text.as_str().is_empty() {
            return DottedView::Notice { text: "Loading...", loading: true };
        }
        let mut out: Vec<DottedLine> = Vec::new();
        let text_lines = crate::text::str_lines(self.page_text.as_str());
        let ghost lines = crate::text::text_lines(self.page_text@);
        let available = height as usize;
        let avail = available.saturating_sub(2);
        let stop = self.scroll_offset + avail;
        let end = if text_lines.len() < stop {
            text_lines.len()
        } else {
            stop
        };
        let ghost page = shown_page_lines(self@, height);
        let mut i = self.scroll_offset;
        proof {
            assert(crate::text::str_views(text_lines@).len() == text_lines@.len());
            assert(dotted_line_views(out@) =~= page.take(0));
        }
        while i < end
            invariant
                self.scroll_offset <= i <= end || (i == self.scroll_offset && end <= i),
                end <= text_lines.len(),
                lines == crate::text::str_views(text_lines@),
                lines == crate::text::text_lines(self.page_text@),
                page == shown_page_lines(self@, height),
                end == (if lines.len() < self.scroll_offset + (if height >= 2 {
                    height - 2
                } else {
                    0
                }) {
                    lines.len() as int
                } else {
                    self.scroll_offset + (if height >= 2 {
                        height - 2
                    } else {
                        0
                    })
                }),
                dotted_line_views(out@) == page.take(i - self.scroll_offset),
            decreases end - i,
        {
            let line = text_lines[i];
            let trimmed = crate::text::str_trim(line);
            let shown = if trimmed.is_empty() {
                String::new()
            } else {
                string_of(line)
            };
            proof {
                assert(lines[i as int] == line@);
            }
            push_line(&mut out, shown, LineStyle::Page);
            assert(dotted_line_views(out@) =~= page.take(i + 1 - self.scroll_offset));
            i = i + 1;
        }
        assert(dotted_line_views(out@) =~= page);
        let n = self.page_links.len();
        let ghost links = link_views(self.page_links@);
        if n > 0 {
            push_line(&mut out, String::new(), LineStyle::Page);
            let mut heading = string_of(
                "\u{2500}\u{2500}\u{2500} Links (press number to navigate) \u{2500}\u{2500}\u{2500} ",
            );
            let d = decimal_string(n as u64);
            append_str(&mut heading, d.as_str());
            append_str(&mut heading, " total \u{2500}\u{2500}\u{2500}");
            push_line(&mut out, heading, LineStyle::Note);
            let max_show = if n < MAX_LISTED_LINKS {
                n
            } else {
                MAX_LISTED_LINKS
            };
            let ghost before_links = dotted_line_views(out@);
            let ghost listed = Seq::new(
                max_show as nat,
                |j: int| (link_label(j as nat, links[j]), LineStyle::Link),
            );
            let mut j: usize = 0;
            assert(before_links + listed.take(0) =~= before_links);
            while j < max_show
                invariant
                    j <= max_show,
                    max_show <= n,
                    max_show <= MAX_LISTED_LINKS,
                    n == self.page_links.len(),
                    links == link_views(self.page_links@),
                    listed == Seq::new(
                        max_show as nat,
                        |k: int| (link_label(k as nat, links[k]), LineStyle::Link),
                    ),
                    dotted_line_views(out@) == before_links + listed.take(j as int),
                decreases max_show - j,
            {
                let label = link_label_string(j, &self.page_links[j]);
                push_line(&mut out, label, LineStyle::Link);
                assert(before_links + listed.take(j + 1) =~= (before_links + listed.take(
                    j as int,
                )).push(listed[j as int]));
                j = j + 1;
            }
            assert(listed.take(j as int) =~= listed);
            if n > MAX_LISTED_LINKS {
                let mut more = string_of("... and ");
                let d = decimal_string((n - MAX_LISTED_LINKS) as u64);
                append_str(&mut more, d.as_str());
                append_str(&mut more, " more links");
                push_line(&mut out, more, LineStyle::Note);
            }
            assert(dotted_line_views(out@) =~= page + link_lines(links));
        } else {
            assert(link_lines(links) =~= Seq::<(Seq<char>, LineStyle)>::empty());
            assert(dotted_line_views(out@) =~= page + link_lines(links));
        }
        DottedView::Lines(out)
    }
}

} // verus!
