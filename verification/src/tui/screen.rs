//! What is drawn: styled text, borders and lists in areas of the screen.
//!
//! The views describe a screen as a list of [`Drawing`]s, each over those before
//! it. A terminal library paints them.
use vstd::prelude::*;

use crate::order;
use crate::tui::theme::{Color, Style};

verus! {

/// An area of the screen, in cells.
#[derive(Debug, Clone, Copy, PartialEq, Eq, Structural)]
pub struct Rect {
    pub x: u16,
    pub y: u16,
    pub width: u16,
    pub height: u16,
}

impl Rect {
    /// Whether the far edges can be counted.
    pub open spec fn fits(self) -> bool {
        self.x + self.width <= u16::MAX && self.y + self.height <= u16::MAX
    }

    /// Whether the area lies in another.
    pub open spec fn within(self, other: Rect) -> bool {
        &&& other.x <= self.x
        &&& other.y <= self.y
        &&& self.x + self.width <= other.x + other.width
        &&& self.y + self.height <= other.y + other.height
    }
}

// ---------------------------------------------------------------------------
// Styles
// ---------------------------------------------------------------------------

/// The role of a piece of text.
#[derive(Debug, Clone, Copy, PartialEq, Eq, Structural)]
pub enum Tone {
    Plain,
    Title,
    Accent,
    Muted,
    Info,
    Good,
    Warning,
    Bad,
    Label,
    Header,
    Border,
    Selected,
    Disabled,
}

impl Tone {
    /// The style of the role.
    pub open spec fn styled(self) -> Style {
        match self {
            Tone::Plain => Style::none(),
            Tone::Title => Style { bold: true, ..Style::none().colored(Color::White) },
            Tone::Accent => Style { bold: true, ..Style::none().colored(Color::Cyan) },
            Tone::Muted => Style::none().colored(Color::DarkGray),
            Tone::Info => Style::none().colored(Color::White),
            Tone::Good => Style::none().colored(Color::Green),
            Tone::Warning => Style::none().colored(Color::Yellow),
            Tone::Bad => Style::none().colored(Color::Red),
            Tone::Label => Style::none().colored(Color::DarkGray),
            Tone::Header => Style { bold: true, ..Style::none().colored(Color::DarkGray) },
            Tone::Border => Style::none().colored(Color::DarkGray),
            Tone::Selected => Style { reversed: true, ..Style::none() },
            Tone::Disabled => Style::none().colored(Color::DarkGray),
        }
    }

    /// The style of the role.
    pub fn style(self) -> (r: Style)
        ensures
            r == self.styled(),
    {
        let plain = Style::plain();
        match self {
            Tone::Plain => plain,
            Tone::Title => Style { bold: true, ..plain.fg(Color::White) },
            Tone::Accent => Style { bold: true, ..plain.fg(Color::Cyan) },
            Tone::Muted => plain.fg(Color::DarkGray),
            Tone::Info => plain.fg(Color::White),
            Tone::Good => plain.fg(Color::Green),
            Tone::Warning => plain.fg(Color::Yellow),
            Tone::Bad => plain.fg(Color::Red),
            Tone::Label => plain.fg(Color::DarkGray),
            Tone::Header => Style { bold: true, ..plain.fg(Color::DarkGray) },
            Tone::Border => plain.fg(Color::DarkGray),
            Tone::Selected => Style { reversed: true, ..plain },
            Tone::Disabled => plain.fg(Color::DarkGray),
        }
    }
}

// ---------------------------------------------------------------------------
// Text
// ---------------------------------------------------------------------------

/// A piece of text in one style.
#[derive(Debug, PartialEq, Eq)]
pub struct Span {
    pub text: String,
    pub style: Style,
}

/// The content of a [`Span`].
#[verifier::ext_equal]
pub struct SpanView {
    pub text: Seq<char>,
    pub style: Style,
}

impl View for Span {
    type V = SpanView;

    open spec fn view(&self) -> SpanView {
        SpanView { text: self.text@, style: self.style }
    }
}

/// A piece of text in the style of a role.
pub open spec fn piece(text: Seq<char>, tone: Tone) -> SpanView {
    SpanView { text, style: tone.styled() }
}

/// A line of text.
#[derive(Debug, PartialEq, Eq)]
pub struct TextLine {
    pub spans: Vec<Span>,
}

impl View for TextLine {
    type V = Seq<SpanView>;

    open spec fn view(&self) -> Seq<SpanView> {
        order::views(self.spans@)
    }
}

impl Span {
    /// A piece of text in the style of a role.
    pub fn toned(text: &str, tone: Tone) -> (r: Span)
        ensures
            r@ == piece(text@, tone),
    {
        Span { text: text.to_owned(), style: tone.style() }
    }
}

impl TextLine {
    /// A line without text.
    pub fn empty() -> (r: TextLine)
        ensures
            r@ == Seq::<SpanView>::empty(),
    {
        let r = TextLine { spans: Vec::new() };
        assert(r@ =~= Seq::<SpanView>::empty());
        r
    }

    /// A line of one piece.
    pub fn one(text: &str, tone: Tone) -> (r: TextLine)
        ensures
            r@ == seq![piece(text@, tone)],
    {
        TextLine::empty().and(text, tone)
    }

    /// The line with one more piece.
    pub fn and(self, text: &str, tone: Tone) -> (r: TextLine)
        ensures
            r@ == self@.push(piece(text@, tone)),
    {
        let mut spans = self.spans;
        let ghost before = spans@;
        let span = Span::toned(text, tone);
        spans.push(span);
        assert(order::views(spans@) =~= order::views(before).push(span@));
        TextLine { spans }
    }
}

// ---------------------------------------------------------------------------
// Drawings
// ---------------------------------------------------------------------------

/// Where a border runs.
#[derive(Debug, Clone, Copy, PartialEq, Eq, Structural)]
pub enum Edges {
    Open,
    Above,
    Below,
    Around,
}

/// A border with a title.
#[derive(Debug, PartialEq, Eq)]
pub struct Chrome {
    pub edges: Edges,
    pub style: Style,
    pub title: Option<Span>,
}

/// The content of a [`Chrome`].
#[verifier::ext_equal]
pub struct ChromeView {
    pub edges: Edges,
    pub style: Style,
    pub title: Option<SpanView>,
}

impl View for Chrome {
    type V = ChromeView;

    open spec fn view(&self) -> ChromeView {
        ChromeView {
            edges: self.edges,
            style: self.style,
            title: match self.title {
                Some(t) => Some(t@),
                None => None,
            },
        }
    }
}

/// A border in the style of a role, without a title.
pub open spec fn border(edges: Edges, tone: Tone) -> ChromeView {
    ChromeView { edges, style: tone.styled(), title: None }
}

/// A border all around, with a title.
pub open spec fn framed(tone: Tone, title: SpanView) -> ChromeView {
    ChromeView { edges: Edges::Around, style: tone.styled(), title: Some(title) }
}

impl Chrome {
    /// A border in the style of a role, without a title.
    pub fn bare(edges: Edges, tone: Tone) -> (r: Chrome)
        ensures
            r@ == border(edges, tone),
    {
        Chrome { edges, style: tone.style(), title: None }
    }

    /// A border all around, with a title.
    pub fn titled(tone: Tone, title: Span) -> (r: Chrome)
        ensures
            r@ == framed(tone, title@),
    {
        Chrome { edges: Edges::Around, style: tone.style(), title: Some(title) }
    }
}

/// What becomes of lines that are too long.
#[derive(Debug, Clone, Copy, PartialEq, Eq, Structural)]
pub enum Wrapping {
    /// They are cut off.
    Cut,
    /// They go on in the next row.
    Wrap,
    /// They go on in the next row, without the blanks at its start.
    WrapTrimmed,
}

/// Something to draw.
#[derive(Debug, PartialEq, Eq)]
pub enum Drawing {
    /// Text that starts at a cell and is cut off after some columns.
    Text { x: u16, y: u16, width: u16, text: String, style: Style },
    /// A style over an area.
    Tint { area: Rect, style: Style },
    /// An area without anything in it.
    Blank { area: Rect },
    /// A border.
    Frame { area: Rect, chrome: Chrome },
    /// Lines of text inside a border.
    Paragraph { area: Rect, chrome: Chrome, lines: Vec<TextLine>, wrapping: Wrapping },
    /// Items of several lines inside a border, one of them highlighted.
    Items {
        area: Rect,
        chrome: Chrome,
        items: Vec<Vec<TextLine>>,
        selected: Option<usize>,
        highlight: Style,
    },
}

/// The content of a [`Drawing`].
#[verifier::ext_equal]
pub enum DrawingView {
    Text { x: u16, y: u16, width: u16, text: Seq<char>, style: Style },
    Tint { area: Rect, style: Style },
    Blank { area: Rect },
    Frame { area: Rect, chrome: ChromeView },
    Paragraph {
        area: Rect,
        chrome: ChromeView,
        lines: Seq<Seq<SpanView>>,
        wrapping: Wrapping,
    },
    Items {
        area: Rect,
        chrome: ChromeView,
        items: Seq<Seq<Seq<SpanView>>>,
        selected: Option<int>,
        highlight: Style,
    },
}

/// The content of the items of a list.
pub open spec fn items_view(items: Seq<Vec<TextLine>>) -> Seq<Seq<Seq<SpanView>>> {
    items.map_values(|lines: Vec<TextLine>| order::views(lines@))
}

impl View for Drawing {
    type V = DrawingView;

    open spec fn view(&self) -> DrawingView {
        match self {
            Drawing::Text { x, y, width, text, style } => DrawingView::Text {
                x: *x,
                y: *y,
                width: *width,
                text: text@,
                style: *style,
            },
            Drawing::Tint { area, style } => DrawingView::Tint { area: *area, style: *style },
            Drawing::Blank { area } => DrawingView::Blank { area: *area },
            Drawing::Frame { area, chrome } => DrawingView::Frame { area: *area, chrome: chrome@ },
            Drawing::Paragraph { area, chrome, lines, wrapping } => DrawingView::Paragraph {
                area: *area,
                chrome: chrome@,
                lines: order::views(lines@),
                wrapping: *wrapping,
            },
            Drawing::Items { area, chrome, items, selected, highlight } => DrawingView::Items {
                area: *area,
                chrome: chrome@,
                items: items_view(items@),
                selected: match *selected {
                    Some(i) => Some(i as int),
                    None => None,
                },
                highlight: *highlight,
            },
        }
    }
}

/// Lines of text without a border.
pub open spec fn open_paragraph(
    area: Rect,
    lines: Seq<Seq<SpanView>>,
    wrapping: Wrapping,
) -> DrawingView {
    DrawingView::Paragraph { area, chrome: border(Edges::Open, Tone::Plain), lines, wrapping }
}

/// Drawings with one more.
pub fn add_drawing(out: &mut Vec<Drawing>, drawing: Drawing)
    ensures
        order::views(final(out)@) == order::views(old(out)@).push(drawing@),
{
    let ghost before = out@;
    out.push(drawing);
    assert(order::views(out@) =~= order::views(before).push(drawing@));
}

/// Drawings with lines of text without a border.
pub fn add_paragraph(
    out: &mut Vec<Drawing>,
    area: Rect,
    lines: Vec<TextLine>,
    wrapping: Wrapping,
)
    ensures
        order::views(final(out)@) == order::views(old(out)@).push(
            open_paragraph(area, order::views(lines@), wrapping),
        ),
{
    let chrome = Chrome::bare(Edges::Open, Tone::Plain);
    add_drawing(out, Drawing::Paragraph { area, chrome, lines, wrapping });
}

/// Lines with one more.
pub fn add_line(lines: &mut Vec<TextLine>, line: TextLine)
    ensures
        order::views(final(lines)@) == order::views(old(lines)@).push(line@),
{
    let ghost before = lines@;
    lines.push(line);
    assert(order::views(lines@) =~= order::views(before).push(line@));
}

/// Drawings with a text, unless there is no room for it.
pub open spec fn put_text(
    out: Seq<DrawingView>,
    x: int,
    y: int,
    width: int,
    text: Seq<char>,
    style: Style,
) -> Seq<DrawingView> {
    if width == 0 {
        out
    } else {
        out.push(
            DrawingView::Text { x: x as u16, y: y as u16, width: width as u16, text, style },
        )
    }
}

/// Drawings with a text, unless there is no room for it.
pub fn put(out: &mut Vec<Drawing>, x: u16, y: u16, width: u16, text: &str, style: Style)
    ensures
        order::views(final(out)@) == put_text(
            order::views(old(out)@),
            x as int,
            y as int,
            width as int,
            text@,
            style,
        ),
{
    if width == 0 {
        return;
    }
    add_drawing(out, Drawing::Text { x, y, width, text: text.to_owned(), style });
}

} // verus!
