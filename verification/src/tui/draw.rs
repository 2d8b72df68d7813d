//! How the simulators view looks.
use vstd::prelude::*;

use crate::model::{DeviceState, DeviceView, SimDevice, StateView};
use crate::order;
use crate::text;
use crate::text::{cat2, cat3, cat4, cat5, chars_of, decimal_text, pad_right, rsplit_last};
use crate::tui::action;
use crate::tui::action::{
    action_order, compact_time, is_enabled, short_udid, state_short, ActionKind,
};
use crate::tui::layout;
use crate::tui::layout::{Pane, Panes, MIN_HEIGHT, MIN_WIDTH};
use crate::tui::screen;
use crate::tui::screen::{
    add_drawing, add_line, add_paragraph, put, Chrome, Drawing, DrawingView, Edges, Rect, Span,
    SpanView, TextLine, Tone, Wrapping,
};
use crate::tui::simulators::{
    ActivityKind, ActivityView, App, AppView, EditKind, Focus, InputMode, LogLineView, ModeView, StateFilter,
};

verus! {

/// Columns of the marker of the selected row.
pub const MARKER_W: u16 = 2;

/// Columns of the state.
pub const STATE_W: u16 = 14;

/// Columns of the UDID.
pub const UDID_W: u16 = 37;

/// Columns of the runtime.
pub const RT_W: u16 = 12;

/// Columns of the version.
pub const OS_W: u16 = 9;

/// Columns of the availability.
pub const AVAIL_W: u16 = 7;

/// The number of columns of a text, as far as sixteen bits hold it.
pub open spec fn columns_of_text(s: Seq<char>) -> int {
    s.len() as int % 65536
}

fn text_columns(s: &str) -> (r: u16)
    ensures
        r == columns_of_text(s@),
{
    let count: usize = chars_of(s).len();
    (count % 65536) as u16
}

// ---------------------------------------------------------------------------
// Headings
// ---------------------------------------------------------------------------

/// With the heading of a pane: a title over a line.
pub open spec fn with_heading(
    out: Seq<DrawingView>,
    pane: Pane,
    title: Seq<char>,
    focused: bool,
) -> Seq<DrawingView> {
    match pane.head {
        None => out,
        Some(head) => out.push(
            DrawingView::Frame {
                area: head,
                chrome: screen::border(Edges::Below, Tone::Border),
            },
        ).push(
            screen::open_paragraph(
                Rect { height: 1, ..head },
                seq![
                    seq![
                        screen::piece(
                            title,
                            if focused {
                                Tone::Accent
                            } else {
                                Tone::Muted
                            },
                        ),
                    ],
                ],
                Wrapping::Cut,
            ),
        ),
    }
}

fn pane_head(out: &mut Vec<Drawing>, pane: &Pane, title: &str, focused: bool)
    ensures
        order::views(final(out)@) == with_heading(
            order::views(old(out)@),
            *pane,
            title@,
            focused,
        ),
{
    if let Some(head) = pane.head {
        let chrome = Chrome::bare(Edges::Below, Tone::Border);
        add_drawing(out, Drawing::Frame { area: head, chrome });
        let mut lines: Vec<TextLine> = Vec::new();
        let tone = if focused {
            Tone::Accent
        } else {
            Tone::Muted
        };
        add_line(&mut lines, TextLine::one(title, tone));
        assert(order::views(lines@) =~= seq![seq![screen::piece(title@, tone)]]);
        let row = Rect { x: head.x, y: head.y, width: head.width, height: 1 };
        add_paragraph(out, row, lines, Wrapping::Cut);
    }
}

/// What the heading of the screen says of the session.
pub open spec fn session_text(v: AppView) -> Seq<char> {
    "gen "@ + text::decimal(v.generation as nat) + " | "@ + text::decimal(v.devices.len())
        + " devices | refresh "@ + (text::decimal(v.refresh_interval.0 as nat) + "s | follow "@ + (
    match v.follow_udid {
        Some(udid) => action::short_of(udid),
        None => "off"@,
    }) + " | as of "@ + v.snapshot_time)
}

/// With the heading of the screen: the name of the program on the left and, where
/// there is room for both, the session on the right.
pub open spec fn with_top(out: Seq<DrawingView>, v: AppView, area: Rect) -> Seq<DrawingView> {
    let session = session_text(v);
    let width = columns_of_text(session);
    let left = if width + 4 < area.width {
        area.width - width - 2
    } else {
        area.width as int
    };
    let named = out.push(
        DrawingView::Frame { area, chrome: screen::border(Edges::Below, Tone::Border) },
    ).push(
        screen::open_paragraph(
            Rect { width: left as u16, height: 1, ..area },
            seq![
                seq![
                    screen::piece("simtop"@, Tone::Title),
                    screen::piece("  -  iOS simulator monitor"@, Tone::Muted),
                ],
            ],
            Wrapping::Cut,
        ),
    );
    if left < area.width {
        screen::put_text(
            named,
            area.x + left + 2,
            area.y as int,
            area.width - left - 2,
            session,
            Tone::Muted.styled(),
        )
    } else {
        named
    }
}

fn render_top(out: &mut Vec<Drawing>, app: &App, area: Rect)
    requires
        area.fits(),
    ensures
        order::views(final(out)@) == with_top(order::views(old(out)@), app@, area),
{
    let chrome = Chrome::bare(Edges::Below, Tone::Border);
    add_drawing(out, Drawing::Frame { area, chrome });
    let follow = match &app.follow_udid {
        Some(udid) => short_udid(udid.as_str()),
        None => "off".to_owned(),
    };
    let generation = decimal_text(app.generation);
    let devices = decimal_text(app.devices.len() as u64);
    let seconds = decimal_text(app.refresh_interval.as_secs());
    let rest = cat5(
        seconds.as_str(),
        "s | follow ",
        follow.as_str(),
        " | as of ",
        app.snapshot_time.as_str(),
    );
    let start = cat5(
        "gen ",
        generation.as_str(),
        " | ",
        devices.as_str(),
        " devices | refresh ",
    );
    let session = cat2(start.as_str(), rest.as_str());
    assert(session@ == session_text(app@));
    let width = text_columns(session.as_str());
    let left: u16 = if width as u32 + 4 < area.width as u32 {
        area.width - width - 2
    } else {
        area.width
    };
    let mut lines: Vec<TextLine> = Vec::new();
    add_line(
        &mut lines,
        TextLine::one("simtop", Tone::Title).and("  -  iOS simulator monitor", Tone::Muted),
    );
    assert(order::views(lines@)[0] =~= seq![
        screen::piece("simtop"@, Tone::Title),
        screen::piece("  -  iOS simulator monitor"@, Tone::Muted),
    ]);
    assert(order::views(lines@) =~= seq![
        seq![
            screen::piece("simtop"@, Tone::Title),
            screen::piece("  -  iOS simulator monitor"@, Tone::Muted),
        ],
    ]);
    let row = Rect { x: area.x, y: area.y, width: left, height: 1 };
    add_paragraph(out, row, lines, Wrapping::Cut);
    if left < area.width {
        put(
            out,
            area.x + left + 2,
            area.y,
            area.width - left - 2,
            session.as_str(),
            Tone::Muted.style(),
        );
    }
}

// ---------------------------------------------------------------------------
// The list of devices
// ---------------------------------------------------------------------------

/// The title of the list: how many devices are shown, and what narrows them down.
pub open spec fn list_title_text(v: AppView) -> Seq<char> {
    let counted = (if v.focus == Focus::List {
        ">"@
    } else {
        " "@
    }) + " devices: "@ + text::decimal(v.filtered.len()) + "/"@ + text::decimal(v.devices.len());
    let filtered = if v.filter.len() > 0 {
        counted + "  filter: "@ + v.filter
    } else {
        counted
    };
    let narrowed = if v.state_filter != StateFilter::All {
        filtered + "  state: "@ + v.state_filter.name()
    } else {
        filtered
    };
    if v.last_snapshot_error is Some {
        narrowed + "  [!] snapshot error"@
    } else {
        narrowed
    }
}

/// Where the columns of the list stand, and which of them are shown.
#[derive(Debug, Clone, Copy, PartialEq, Eq, Structural)]
pub struct Columns {
    pub show_udid: bool,
    pub show_rt: bool,
    pub show_os: bool,
    pub show_avail: bool,
    pub name_width: u16,
    pub state_x: u16,
    pub name_x: u16,
    pub udid_x: u16,
    pub rt_x: u16,
    pub os_x: u16,
    pub avail_x: u16,
}

/// The width of a column, when it is shown.
pub open spec fn width_if(shown: bool, width: u16) -> int {
    if shown {
        width as int
    } else {
        0
    }
}

/// The columns of the list in an area: the wider it is, the more of them. The name
/// has what the others leave, and never less than four.
pub open spec fn columns_in(body: Rect) -> Columns {
    let show_udid = body.width >= 58;
    let show_rt = body.width >= 74;
    let show_os = body.width >= 90;
    let show_avail = body.width >= 104;
    let fixed = MARKER_W + STATE_W + width_if(show_udid, UDID_W) + width_if(show_rt, RT_W)
        + width_if(show_os, OS_W) + width_if(show_avail, AVAIL_W);
    let name_width = if body.width - fixed >= 4 {
        body.width - fixed
    } else {
        4
    };
    let state_x = body.x + MARKER_W;
    let name_x = state_x + STATE_W;
    let udid_x = name_x + name_width;
    let rt_x = udid_x + width_if(show_udid, UDID_W);
    let os_x = rt_x + width_if(show_rt, RT_W);
    let avail_x = os_x + width_if(show_os, OS_W);
    Columns {
        show_udid,
        show_rt,
        show_os,
        show_avail,
        name_width: name_width as u16,
        state_x: state_x as u16,
        name_x: name_x as u16,
        udid_x: udid_x as u16,
        rt_x: rt_x as u16,
        os_x: os_x as u16,
        avail_x: avail_x as u16,
    }
}

fn width_when(shown: bool, width: u16) -> (r: u16)
    ensures
        r == width_if(shown, width),
{
    if shown {
        width
    } else {
        0
    }
}

/// Where the columns of the list stand in an area.
pub fn columns(body: Rect) -> (r: Columns)
    requires
        body.fits(),
        body.x + layout::LIST_COLUMNS <= u16::MAX,
    ensures
        r == columns_in(body),
{
    let width: u16 = body.width;
    let show_udid = width >= 58;
    let show_rt = width >= 74;
    let show_os = width >= 90;
    let show_avail = width >= 104;
    let udid_w = width_when(show_udid, UDID_W);
    let rt_w = width_when(show_rt, RT_W);
    let os_w = width_when(show_os, OS_W);
    let avail_w = width_when(show_avail, AVAIL_W);
    let fixed: u16 = MARKER_W + STATE_W + udid_w + rt_w + os_w + avail_w;
    let name_width: u16 = if width >= fixed && width - fixed >= 4 {
        width - fixed
    } else {
        4
    };
    let state_x: u16 = body.x + MARKER_W;
    let name_x: u16 = state_x + STATE_W;
    let udid_x: u16 = name_x + name_width;
    let rt_x: u16 = udid_x + udid_w;
    let os_x: u16 = rt_x + rt_w;
    let avail_x: u16 = os_x + os_w;
    Columns {
        show_udid,
        show_rt,
        show_os,
        show_avail,
        name_width,
        state_x,
        name_x,
        udid_x,
        rt_x,
        os_x,
        avail_x,
    }
}

/// Columns do not overlap: each one that is shown starts where the one before it
/// ends, and where the name can have what is left they end with the area.
pub proof fn columns_do_not_overlap(body: Rect)
    requires
        body.fits(),
        body.x + layout::LIST_COLUMNS <= u16::MAX,
    ensures
        ({
            let c = columns_in(body);
            &&& body.x + MARKER_W == c.state_x
            &&& c.state_x + STATE_W == c.name_x
            &&& c.name_x + c.name_width == c.udid_x
            &&& c.name_width >= 4
            &&& c.udid_x + width_if(c.show_udid, UDID_W) == c.rt_x
            &&& c.rt_x + width_if(c.show_rt, RT_W) == c.os_x
            &&& c.os_x + width_if(c.show_os, OS_W) == c.avail_x
            &&& body.width >= layout::LIST_COLUMNS ==> c.avail_x + width_if(
                c.show_avail,
                AVAIL_W,
            ) == body.x + body.width
        }),
{
}

/// What stands in place of an empty list.
pub open spec fn empty_list_text(v: AppView) -> Seq<char> {
    if v.devices.len() > 0 {
        "no devices match the current filter"@
    } else {
        match v.last_snapshot_error {
            Some(error) => "snapshot failed: "@ + error,
            None => "no simulators found"@,
        }
    }
}

/// The first row that is shown: the one scrolled to, moved so far that the selected
/// row is in sight.
pub open spec fn first_shown(v: AppView, height: nat) -> nat {
    let count = v.filtered.len();
    let scrolled = if v.list_scroll < count {
        v.list_scroll as int
    } else {
        count - 1
    };
    match v.selected {
        None => scrolled as nat,
        Some(selected) => {
            let raised = if selected < scrolled {
                selected
            } else {
                scrolled
            };
            if selected >= raised + height {
                (selected - height + 1) as nat
            } else {
                raised as nat
            }
        },
    }
}

/// The selected device is in sight, wherever the list was scrolled to.
pub proof fn selected_rows_are_in_sight(v: AppView, height: nat)
    requires
        v.sound(),
        v.selected is Some,
        height > 0,
    ensures
        first_shown(v, height) <= v.selected->0 < first_shown(v, height) + height,
{
}

/// The role of a state.
pub open spec fn state_tone(state: StateView) -> Tone {
    match state {
        StateView::Booted => Tone::Good,
        StateView::Booting => Tone::Warning,
        StateView::ShuttingDown => Tone::Warning,
        StateView::Shutdown => Tone::Muted,
        StateView::Creating => Tone::Accent,
        StateView::Unknown(_) => Tone::Bad,
    }
}

fn tone_of_state(state: &DeviceState) -> (r: Tone)
    ensures
        r == state_tone(state@),
{
    match state {
        DeviceState::Booted => Tone::Good,
        DeviceState::Booting => Tone::Warning,
        DeviceState::ShuttingDown => Tone::Warning,
        DeviceState::Shutdown => Tone::Muted,
        DeviceState::Creating => Tone::Accent,
        DeviceState::Unknown(_) => Tone::Bad,
    }
}

/// With the header of the list.
pub open spec fn with_header(out: Seq<DrawingView>, c: Columns, y: u16) -> Seq<DrawingView> {
    let style = Tone::Header.styled();
    let y = y as int;
    let out = screen::put_text(out, c.state_x as int, y, STATE_W - 1, "STATE"@, style);
    let out = screen::put_text(out, c.name_x as int, y, c.name_width - 1, "NAME"@, style);
    let out = if c.show_udid {
        screen::put_text(out, c.udid_x as int, y, UDID_W - 1, "UDID"@, style)
    } else {
        out
    };
    let out = if c.show_rt {
        screen::put_text(out, c.rt_x as int, y, RT_W - 1, "RUNTIME"@, style)
    } else {
        out
    };
    let out = if c.show_os {
        screen::put_text(out, c.os_x as int, y, OS_W - 1, "OS"@, style)
    } else {
        out
    };
    if c.show_avail {
        screen::put_text(out, c.avail_x as int, y, AVAIL_W - 1, "AVAIL"@, style)
    } else {
        out
    }
}

fn render_header(out: &mut Vec<Drawing>, c: &Columns, y: u16)
    requires
        c.name_width >= 4,
    ensures
        order::views(final(out)@) == with_header(order::views(old(out)@), *c, y),
{
    let style = Tone::Header.style();
    put(out, c.state_x, y, STATE_W - 1, "STATE", style);
    put(out, c.name_x, y, c.name_width - 1, "NAME", style);
    if c.show_udid {
        put(out, c.udid_x, y, UDID_W - 1, "UDID", style);
    }
    if c.show_rt {
        put(out, c.rt_x, y, RT_W - 1, "RUNTIME", style);
    }
    if c.show_os {
        put(out, c.os_x, y, OS_W - 1, "OS", style);
    }
    if c.show_avail {
        put(out, c.avail_x, y, AVAIL_W - 1, "AVAIL", style);
    }
}

/// With the row of a device. A selected row is reversed from edge to edge.
pub open spec fn with_row(
    out: Seq<DrawingView>,
    d: DeviceView,
    selected: bool,
    body: Rect,
    c: Columns,
    y: u16,
) -> Seq<DrawingView> {
    let over = if selected {
        Tone::Selected.styled()
    } else {
        Tone::Plain.styled()
    };
    let out = if selected {
        out.push(
            DrawingView::Tint {
                area: Rect { x: body.x, y, width: body.width, height: 1 },
                style: Tone::Selected.styled(),
            },
        )
    } else {
        out
    };
    let row = y as int;
    let out = screen::put_text(
        out,
        body.x as int,
        row,
        MARKER_W as int,
        if selected {
            ">"@
        } else {
            " "@
        },
        over,
    );
    let out = screen::put_text(
        out,
        c.state_x as int,
        row,
        STATE_W - 1,
        action::state_word(d.state),
        state_tone(d.state).styled().under(over),
    );
    let out = screen::put_text(
        out,
        c.name_x as int,
        row,
        c.name_width - 1,
        d.name,
        (if d.is_available {
            Tone::Info
        } else {
            Tone::Muted
        }).styled().under(over),
    );
    let muted = Tone::Muted.styled().under(over);
    let out = if c.show_udid {
        screen::put_text(out, c.udid_x as int, row, UDID_W - 1, d.udid, muted)
    } else {
        out
    };
    let out = if c.show_rt {
        screen::put_text(
            out,
            c.rt_x as int,
            row,
            RT_W - 1,
            text::after_last(d.runtime, '.'),
            muted,
        )
    } else {
        out
    };
    let out = if c.show_os {
        screen::put_text(
            out,
            c.os_x as int,
            row,
            OS_W - 1,
            d.os_version,
            Tone::Info.styled().under(over),
        )
    } else {
        out
    };
    if c.show_avail {
        screen::put_text(
            out,
            c.avail_x as int,
            row,
            AVAIL_W - 1,
            if d.is_available {
                "yes"@
            } else {
                "no"@
            },
            (if d.is_available {
                Tone::Good
            } else {
                Tone::Bad
            }).styled().under(over),
        )
    } else {
        out
    }
}

fn render_row(
    out: &mut Vec<Drawing>,
    d: &SimDevice,
    selected: bool,
    body: Rect,
    c: &Columns,
    y: u16,
)
    requires
        c.name_width >= 4,
    ensures
        order::views(final(out)@) == with_row(
            order::views(old(out)@),
            d@,
            selected,
            body,
            *c,
            y,
        ),
{
    let over = if selected {
        Tone::Selected.style()
    } else {
        Tone::Plain.style()
    };
    if selected {
        let area = Rect { x: body.x, y, width: body.width, height: 1 };
        add_drawing(out, Drawing::Tint { area, style: Tone::Selected.style() });
    }
    let marker = if selected {
        ">"
    } else {
        " "
    };
    put(out, body.x, y, MARKER_W, marker, over);
    let state_style = tone_of_state(&d.state).style().patch(over);
    put(out, c.state_x, y, STATE_W - 1, state_short(&d.state), state_style);
    let name_tone = if d.is_available {
        Tone::Info
    } else {
        Tone::Muted
    };
    put(out, c.name_x, y, c.name_width - 1, d.name.as_str(), name_tone.style().patch(over));
    let muted = Tone::Muted.style().patch(over);
    if c.show_udid {
        put(out, c.udid_x, y, UDID_W - 1, d.udid.as_str(), muted);
    }
    if c.show_rt {
        let runtime = rsplit_last(d.runtime.as_str(), '.');
        put(out, c.rt_x, y, RT_W - 1, runtime.as_str(), muted);
    }
    if c.show_os {
        put(out, c.os_x, y, OS_W - 1, d.os_version.as_str(), Tone::Info.style().patch(over));
    }
    if c.show_avail {
        let (word, tone) = if d.is_available {
            ("yes", Tone::Good)
        } else {
            ("no", Tone::Bad)
        };
        put(out, c.avail_x, y, AVAIL_W - 1, word, tone.style().patch(over));
    }
}

/// With the rows from a first one on, as far as there are devices for them.
pub open spec fn with_rows(
    out: Seq<DrawingView>,
    v: AppView,
    body: Rect,
    first: nat,
    rows: nat,
) -> Seq<DrawingView>
    decreases rows,
{
    if rows == 0 {
        out
    } else {
        let before = with_rows(out, v, body, first, (rows - 1) as nat);
        let index = first + rows - 1;
        if index < v.filtered.len() {
            with_row(
                before,
                v.devices[v.filtered[index]],
                v.selected == Some(index as int),
                body,
                columns_in(body),
                (body.y + rows - 1) as u16,
            )
        } else {
            before
        }
    }
}

/// With the list of devices.
pub open spec fn with_list(out: Seq<DrawingView>, v: AppView, pane: Pane) -> Seq<DrawingView> {
    let body = pane.body;
    let headed = with_heading(out, pane, list_title_text(v), v.focus == Focus::List);
    if v.filtered.len() == 0 {
        let message = empty_list_text(v);
        let width = columns_of_text(message);
        let margin = if width < body.width {
            (body.width - width) / 2
        } else {
            0
        };
        screen::put_text(
            headed,
            body.x + margin,
            body.y + body.height as int / 2,
            body.width as int,
            message,
            Tone::Muted.styled(),
        )
    } else {
        with_rows(
            with_header(headed, columns_in(body), body.y),
            v,
            body,
            first_shown(v, body.height as nat),
            body.height as nat,
        )
    }
}

/// The state after its list was drawn: the list stays scrolled to where it was
/// drawn from.
pub open spec fn scrolled(v: AppView, height: nat) -> AppView {
    if v.filtered.len() == 0 {
        v
    } else {
        AppView { list_scroll: first_shown(v, height), ..v }
    }
}

fn list_title(app: &App) -> (r: String)
    ensures
        r@ == list_title_text(app@),
{
    let marker = if app.focus == Focus::List {
        ">"
    } else {
        " "
    };
    let shown = decimal_text(app.filtered.len() as u64);
    let all = decimal_text(app.devices.len() as u64);
    let mut title = cat5(marker, " devices: ", shown.as_str(), "/", all.as_str());
    if !app.filter.as_str().is_empty() {
        title = cat3(title.as_str(), "  filter: ", app.filter.as_str());
    }
    if app.state_filter != StateFilter::All {
        title = cat3(title.as_str(), "  state: ", app.state_filter.label());
    }
    if app.last_snapshot_error.is_some() {
        title = cat2(title.as_str(), "  [!] snapshot error");
    }
    title
}

#[verifier::spinoff_prover]
fn render_list(out: &mut Vec<Drawing>, app: &mut App, pane: &Pane)
    requires
        old(app)@.sound(),
        pane.fits(),
        pane.body.x + layout::LIST_COLUMNS <= u16::MAX,
    ensures
        order::views(final(out)@) == with_list(order::views(old(out)@), old(app)@, *pane),
        final(app)@ == scrolled(old(app)@, pane.body.height as nat),
        final(app)@.sound(),
{
    let body = pane.body;
    let title = list_title(app);
    pane_head(out, pane, title.as_str(), app.focus == Focus::List);
    let count: usize = app.filtered.len();
    if count == 0 {
        let message = if app.devices.len() > 0 {
            "no devices match the current filter".to_owned()
        } else {
            match &app.last_snapshot_error {
                Some(error) => cat2("snapshot failed: ", error.as_str()),
                None => "no simulators found".to_owned(),
            }
        };
        let width = text_columns(message.as_str());
        let margin: u16 = if width < body.width {
            (body.width - width) / 2
        } else {
            0
        };
        let x: u16 = body.x + margin;
        let y: u16 = body.y + body.height / 2;
        put(out, x, y, body.width, message.as_str(), Tone::Muted.style());
        return;
    }
    let height: usize = body.height as usize;
    let mut first: usize = if app.list_scroll < count {
        app.list_scroll
    } else {
        count - 1
    };
    if let Some(selected) = app.selected {
        if selected < first {
            first = selected;
        }
        if selected - first >= height {
            first = selected - height + 1;
        }
    }
    assert(first == first_shown(app@, body.height as nat));
    let ghost v = app@;
    let c = columns(body);
    proof {
        columns_do_not_overlap(body);
    }
    render_header(out, &c, body.y);
    let ghost headed = order::views(out@);
    let mut row: u16 = 0;
    while row < body.height
        invariant
            row <= body.height,
            body.fits(),
            c == columns_in(body),
            c.name_width >= 4,
            v == app@,
            v.sound(),
            first <= count,
            count == app.filtered@.len(),
            order::views(out@) == with_rows(headed, v, body, first as nat, row as nat),
        decreases body.height - row,
    {
        let offset: usize = row as usize;
        if offset < count - first {
            let index: usize = first + offset;
            assert(v.filtered[index as int] == app.filtered@[index as int]);
            let place: usize = app.filtered[index];
            assert(v.devices[place as int] == app.devices@[place as int]@);
            let selected = match app.selected {
                Some(s) => s == index,
                None => false,
            };
            render_row(out, &app.devices[place], selected, body, &c, body.y + row);
        }
        row = row + 1;
    }
    app.list_scroll = first;
}

// ---------------------------------------------------------------------------
// Details
// ---------------------------------------------------------------------------

/// The title of the details.
pub open spec fn details_title_text(v: AppView) -> Seq<char> {
    match v.chosen() {
        Some(d) => " details: "@ + d.name,
        None => " details"@,
    }
}

/// A labelled line.
pub open spec fn labelled(label: Seq<char>, value: Seq<char>, tone: Tone) -> Seq<SpanView> {
    seq![
        screen::piece(label, Tone::Label),
        screen::piece("  "@, Tone::Plain),
        screen::piece(value, tone),
    ]
}

fn labelled_line(label: &str, value: &str, tone: Tone) -> (r: TextLine)
    ensures
        r@ == labelled(label@, value@, tone),
{
    let r = TextLine::one(label, Tone::Label).and("  ", Tone::Plain).and(value, tone);
    assert(r@ =~= labelled(label@, value@, tone));
    r
}

/// The line of an operation: its key, where it is offered, and its name.
pub open spec fn operation_line(d: DeviceView, kind: ActionKind) -> Seq<SpanView> {
    let offered = action::enabled(d, kind);
    seq![
        if offered {
            screen::piece("["@ + seq![kind.bound_key()] + "]"@, Tone::Accent)
        } else {
            screen::piece("   "@, Tone::Disabled)
        },
        screen::piece(" "@, Tone::Plain),
        screen::piece(
            kind.name(),
            if offered {
                Tone::Info
            } else {
                Tone::Disabled
            },
        ),
    ]
}

fn render_operation(d: &SimDevice, kind: ActionKind) -> (r: TextLine)
    ensures
        r@ == operation_line(d@, kind),
{
    let offered = is_enabled(d, kind);
    let r = if offered {
        let mut key = String::new();
        key.push(kind.key());
        assert(key@ =~= seq![kind.bound_key()]);
        let shown = cat3("[", key.as_str(), "]");
        TextLine::one(shown.as_str(), Tone::Accent).and(" ", Tone::Plain).and(
            kind.label(),
            Tone::Info,
        )
    } else {
        TextLine::one("   ", Tone::Disabled).and(" ", Tone::Plain).and(
            kind.label(),
            Tone::Disabled,
        )
    };
    assert(r@ =~= operation_line(d@, kind));
    r
}

/// The lines of operations.
pub open spec fn operation_lines(d: DeviceView, kinds: Seq<ActionKind>) -> Seq<Seq<SpanView>> {
    kinds.map_values(|kind: ActionKind| operation_line(d, kind))
}

/// The details of a device.
pub open spec fn device_lines(d: DeviceView) -> Seq<Seq<SpanView>> {
    seq![
        Seq::empty(),
        labelled("udid"@, d.udid, Tone::Plain),
        labelled("name"@, d.name, Tone::Plain),
        labelled("state"@, d.state.shown(), state_tone(d.state)),
        labelled("type"@, d.device_type, Tone::Plain),
        labelled("runtime"@, d.runtime, Tone::Plain),
        labelled("os"@, d.os_version, Tone::Plain),
        labelled(
            "available"@,
            if d.is_available {
                "yes"@
            } else {
                "no"@
            },
            if d.is_available {
                Tone::Good
            } else {
                Tone::Bad
            },
        ),
        Seq::empty(),
        seq![screen::piece("actions (enabled for current state)"@, Tone::Label)],
    ] + operation_lines(d, action::listed_kinds()) + seq![
        Seq::empty(),
        seq![screen::piece("Enter = boot when shutdown, open when booted"@, Tone::Label)],
    ]
}

/// The lines of the details.
pub open spec fn details_lines(v: AppView) -> Seq<Seq<SpanView>> {
    match v.chosen() {
        Some(d) => device_lines(d),
        None => seq![seq![screen::piece("no device selected"@, Tone::Muted)]],
    }
}

/// With the details of the selected device.
pub open spec fn with_details(out: Seq<DrawingView>, v: AppView, pane: Pane) -> Seq<DrawingView> {
    with_heading(out, pane, details_title_text(v), false).push(
        screen::open_paragraph(pane.body, details_lines(v), Wrapping::Wrap),
    )
}

fn lines_of_device(d: &SimDevice) -> (r: Vec<TextLine>)
    ensures
        order::views(r@) == device_lines(d@),
{
    let mut lines: Vec<TextLine> = Vec::new();
    let state = d.state.to_string();
    let (word, tone) = if d.is_available {
        ("yes", Tone::Good)
    } else {
        ("no", Tone::Bad)
    };
    lines.push(TextLine::empty());
    lines.push(labelled_line("udid", d.udid.as_str(), Tone::Plain));
    lines.push(labelled_line("name", d.name.as_str(), Tone::Plain));
    lines.push(labelled_line("state", state.as_str(), tone_of_state(&d.state)));
    lines.push(labelled_line("type", d.device_type.as_str(), Tone::Plain));
    lines.push(labelled_line("runtime", d.runtime.as_str(), Tone::Plain));
    lines.push(labelled_line("os", d.os_version.as_str(), Tone::Plain));
    lines.push(labelled_line("available", word, tone));
    lines.push(TextLine::empty());
    lines.push(TextLine::one("actions (enabled for current state)", Tone::Label));
    let ghost start = order::views(lines@);
    let kinds = action_order();
    let ghost wanted = operation_lines(d@, kinds@);
    let mut i: usize = 0;
    assert(start + wanted.take(0) =~= start);
    while i < kinds.len()
        invariant
            i <= kinds@.len(),
            wanted == operation_lines(d@, kinds@),
            order::views(lines@) == start + wanted.take(i as int),
        decreases kinds@.len() - i,
    {
        let line = render_operation(d, kinds[i]);
        assert(line@ == wanted[i as int]);
        add_line(&mut lines, line);
        assert(start + wanted.take(i + 1) =~= (start + wanted.take(i as int)).push(line@));
        i = i + 1;
    }
    assert(wanted.take(i as int) =~= wanted);
    add_line(&mut lines, TextLine::empty());
    add_line(
        &mut lines,
        TextLine::one("Enter = boot when shutdown, open when booted", Tone::Label),
    );
    assert(start =~= device_lines(d@).take(10));
    assert(order::views(lines@) =~= device_lines(d@));
    lines
}

fn render_details(out: &mut Vec<Drawing>, app: &App, pane: &Pane)
    requires
        app@.sound(),
    ensures
        order::views(final(out)@) == with_details(order::views(old(out)@), app@, *pane),
{
    let (title, lines) = match app.selected_device() {
        Some(d) => (cat2(" details: ", d.name.as_str()), lines_of_device(d)),
        None => {
            let mut lines: Vec<TextLine> = Vec::new();
            lines.push(TextLine::one("no device selected", Tone::Muted));
            assert(order::views(lines@) =~= details_lines(app@));
            (" details".to_owned(), lines)
        },
    };
    pane_head(out, pane, title.as_str(), false);
    add_paragraph(out, pane.body, lines, Wrapping::Wrap);
}

// ---------------------------------------------------------------------------
// Logs
// ---------------------------------------------------------------------------

/// The title of the logs.
pub open spec fn logs_title_text(v: AppView) -> Seq<char> {
    let marker = if v.focus == Focus::Logs {
        ">"@
    } else {
        " "@
    };
    match v.follow_udid {
        Some(udid) => marker + " logs "@ + action::short_of(udid) + " [follow] - "@ + (
        text::decimal(v.logs.len()) + " entries"@),
        None => marker + " logs [off] - press l to follow"@,
    }
}

fn logs_title(app: &App) -> (r: String)
    ensures
        r@ == logs_title_text(app@),
{
    let marker = if app.focus == Focus::Logs {
        ">"
    } else {
        " "
    };
    match &app.follow_udid {
        Some(udid) => {
            let short = short_udid(udid.as_str());
            let count = decimal_text(app.logs.len() as u64);
            let entries = cat2(count.as_str(), " entries");
            cat5(marker, " logs ", short.as_str(), " [follow] - ", entries.as_str())
        },
        None => cat2(marker, " logs [off] - press l to follow"),
    }
}

/// The line of a log entry.
pub open spec fn log_line(e: LogLineView) -> Seq<SpanView> {
    seq![
        screen::piece(action::time_of_day(e.time), Tone::Muted),
        screen::piece(" "@, Tone::Plain),
        screen::piece(e.process, Tone::Accent),
        screen::piece(" "@, Tone::Plain),
        screen::piece(e.message, Tone::Plain),
    ]
}

/// The log entries in sight: as many as there are rows, up to the one scrolled back
/// to.
pub open spec fn logs_in_sight(v: AppView, height: nat) -> Seq<LogLineView> {
    let total = v.logs.len();
    let scroll = if v.log_scroll < total {
        v.log_scroll
    } else {
        total
    };
    let to = total - scroll;
    let from = if to > height {
        to - height
    } else {
        0
    };
    v.logs.subrange(from as int, to as int)
}

/// The lines of the logs.
pub open spec fn logs_lines(v: AppView, height: nat) -> Seq<Seq<SpanView>> {
    if v.logs.len() == 0 {
        seq![
            seq![
                screen::piece(
                    if v.follow_udid is Some {
                        "waiting for log entries..."@
                    } else {
                        "press l to follow logs for the selected device"@
                    },
                    Tone::Muted,
                ),
            ],
        ]
    } else {
        logs_in_sight(v, height).map_values(|e: LogLineView| log_line(e))
    }
}

/// With the logs.
pub open spec fn with_logs(out: Seq<DrawingView>, v: AppView, pane: Pane) -> Seq<DrawingView> {
    with_heading(out, pane, logs_title_text(v), v.focus == Focus::Logs).push(
        screen::open_paragraph(
            pane.body,
            logs_lines(v, pane.body.height as nat),
            Wrapping::Cut,
        ),
    )
}

/// The newest entries are in sight while the log is not scrolled back, and never
/// more than there are rows.
pub proof fn newest_logs_are_in_sight(v: AppView, height: nat)
    ensures
        logs_in_sight(v, height).len() <= height,
        v.log_scroll == 0 && v.logs.len() > 0 && height > 0 ==> logs_in_sight(v, height).last()
            == v.logs.last(),
{
}

fn render_logs(out: &mut Vec<Drawing>, app: &App, pane: &Pane)
    ensures
        order::views(final(out)@) == with_logs(order::views(old(out)@), app@, *pane),
{
    let title = logs_title(app);
    pane_head(out, pane, title.as_str(), app.focus == Focus::Logs);
    let total: usize = app.logs.len();
    let height: usize = pane.body.height as usize;
    let mut lines: Vec<TextLine> = Vec::new();
    if total == 0 {
        let message = if app.follow_udid.is_some() {
            "waiting for log entries..."
        } else {
            "press l to follow logs for the selected device"
        };
        lines.push(TextLine::one(message, Tone::Muted));
        assert(order::views(lines@) =~= logs_lines(app@, height as nat));
    } else {
        let scroll: usize = if app.log_scroll < total {
            app.log_scroll
        } else {
            total
        };
        let to: usize = total - scroll;
        let from: usize = if to > height {
            to - height
        } else {
            0
        };
        let ghost wanted = logs_lines(app@, height as nat);
        let mut i: usize = from;
        assert(order::views(lines@) =~= wanted.take(0));
        while i < to
            invariant
                from <= i <= to,
                to <= app.logs@.len(),
                app.logs@.len() > 0,
                wanted == logs_lines(app@, height as nat),
                wanted.len() == to - from,
                logs_in_sight(app@, height as nat) == app@.logs.subrange(from as int, to as int),
                order::views(lines@) == wanted.take(i - from),
            decreases to - i,
        {
            let e = &app.logs[i];
            let time = compact_time(e.time.as_str());
            let line = TextLine::one(time.as_str(), Tone::Muted).and(" ", Tone::Plain).and(
                e.process.as_str(),
                Tone::Accent,
            ).and(" ", Tone::Plain).and(e.message.as_str(), Tone::Plain);
            assert(line@ =~= log_line(e@));
            assert(app@.logs[i as int] == e@);
            assert(wanted[i - from] == line@);
            add_line(&mut lines, line);
            assert(wanted.take(i + 1 - from) =~= wanted.take(i - from).push(line@));
            i = i + 1;
        }
        assert(wanted.take(i - from) =~= wanted);
    }
    add_paragraph(out, pane.body, lines, Wrapping::Cut);
}

// ---------------------------------------------------------------------------
// Activity and status
// ---------------------------------------------------------------------------

/// The role of a line of the activity history.
pub open spec fn activity_tone(kind: ActivityKind) -> Tone {
    match kind {
        ActivityKind::Info => Tone::Info,
        ActivityKind::Done => Tone::Good,
        ActivityKind::Warning => Tone::Warning,
        ActivityKind::Failed => Tone::Bad,
    }
}

fn tone_of_activity(kind: ActivityKind) -> (r: Tone)
    ensures
        r == activity_tone(kind),
{
    match kind {
        ActivityKind::Info => Tone::Info,
        ActivityKind::Done => Tone::Good,
        ActivityKind::Warning => Tone::Warning,
        ActivityKind::Failed => Tone::Bad,
    }
}

/// The line of an operation that was run.
pub open spec fn activity_line(a: ActivityView) -> Seq<SpanView> {
    seq![
        screen::piece(a.time, Tone::Muted),
        screen::piece("  "@, Tone::Plain),
        screen::piece(a.text, activity_tone(a.kind)),
    ]
}

/// The lines of the activity history, as many as there are rows.
pub open spec fn activity_lines(v: AppView, height: nat) -> Seq<Seq<SpanView>> {
    v.activity.take(
        if height < v.activity.len() {
            height as int
        } else {
            v.activity.len() as int
        },
    ).map_values(|a: ActivityView| activity_line(a))
}

/// With the activity history.
pub open spec fn with_activity(out: Seq<DrawingView>, v: AppView, pane: Pane) -> Seq<DrawingView> {
    with_heading(
        out,
        pane,
        " activity - last "@ + text::decimal(v.activity_capacity) + " ops"@,
        false,
    ).push(
        screen::open_paragraph(
            pane.body,
            activity_lines(v, pane.body.height as nat),
            Wrapping::Cut,
        ),
    )
}

fn render_activity(out: &mut Vec<Drawing>, app: &App, pane: &Pane)
    ensures
        order::views(final(out)@) == with_activity(order::views(old(out)@), app@, *pane),
{
    let capacity = decimal_text(app.activity_capacity as u64);
    let title = cat3(" activity - last ", capacity.as_str(), " ops");
    pane_head(out, pane, title.as_str(), false);
    let height: usize = pane.body.height as usize;
    let count: usize = if height < app.activity.len() {
        height
    } else {
        app.activity.len()
    };
    let ghost wanted = activity_lines(app@, height as nat);
    let mut lines: Vec<TextLine> = Vec::new();
    let mut i: usize = 0;
    assert(order::views(lines@) =~= wanted.take(0));
    while i < count
        invariant
            i <= count,
            count <= app.activity@.len(),
            wanted == activity_lines(app@, height as nat),
            wanted.len() == count,
            order::views(lines@) == wanted.take(i as int),
        decreases count - i,
    {
        let a = &app.activity[i];
        let line = TextLine::one(a.time.as_str(), Tone::Muted).and("  ", Tone::Plain).and(
            a.text.as_str(),
            tone_of_activity(a.kind),
        );
        assert(line@ =~= activity_line(a@));
        assert(app@.activity[i as int] == a@);
        assert(wanted[i as int] == line@);
        add_line(&mut lines, line);
        assert(wanted.take(i + 1) =~= wanted.take(i as int).push(line@));
        i = i + 1;
    }
    assert(wanted.take(i as int) =~= wanted);
    add_paragraph(out, pane.body, lines, Wrapping::Cut);
}

/// The status line: what is being edited, or what can be done.
pub open spec fn status_line(v: AppView) -> Seq<SpanView> {
    match v.mode {
        ModeView::Normal => seq![
            screen::piece(
                if v.show_help {
                    "help open - press ? or q to close"@
                } else if v.confirm_delete is Some {
                    "delete "@ + action::short_of(v.confirm_delete->0) + ": y/N (Enter = no)"@
                } else if v.focus == Focus::Logs {
                    "[PgUp/PgDn/j/k] scroll logs  [Tab] focus devices  [q] quit"@
                } else {
                    "[up/down/j/k] select  [Enter] boot/open  [b] boot  [s] shutdown  [o] open  [/] search  [f] state filter  [l] logs  [d] delete  [r] refresh  [?] help  [q] quit"@
                },
                if v.confirm_delete is Some {
                    Tone::Warning
                } else {
                    Tone::Info
                },
            ),
        ],
        ModeView::Edit { kind, buffer } => seq![
            screen::piece(kind.prompt() + ": "@, Tone::Accent),
            screen::piece(buffer.text, Tone::Plain),
        ],
    }
}

/// With the status line.
pub open spec fn with_status(out: Seq<DrawingView>, v: AppView, area: Rect) -> Seq<DrawingView> {
    out.push(screen::open_paragraph(area, seq![status_line(v)], Wrapping::Cut))
}

fn render_status(out: &mut Vec<Drawing>, app: &App, area: Rect)
    ensures
        order::views(final(out)@) == with_status(order::views(old(out)@), app@, area),
{
    let line = match &app.mode {
        InputMode::Normal => {
            let message = if app.show_help {
                "help open - press ? or q to close".to_owned()
            } else {
                match &app.confirm_delete {
                    Some(udid) => {
                        let short = short_udid(udid.as_str());
                        cat3("delete ", short.as_str(), ": y/N (Enter = no)")
                    },
                    None => if app.focus == Focus::Logs {
                        "[PgUp/PgDn/j/k] scroll logs  [Tab] focus devices  [q] quit".to_owned()
                    } else {
                        "[up/down/j/k] select  [Enter] boot/open  [b] boot  [s] shutdown  [o] open  [/] search  [f] state filter  [l] logs  [d] delete  [r] refresh  [?] help  [q] quit".to_owned()
                    },
                }
            };
            let tone = if app.confirm_delete.is_some() {
                Tone::Warning
            } else {
                Tone::Info
            };
            TextLine::one(message.as_str(), tone)
        },
        InputMode::Edit { kind, buffer } => {
            let prompt = cat2(kind.title(), ": ");
            let typed = buffer.text();
            TextLine::one(prompt.as_str(), Tone::Accent).and(typed.as_str(), Tone::Plain)
        },
    };
    assert(line@ =~= status_line(app@));
    let mut lines: Vec<TextLine> = Vec::new();
    lines.push(line);
    assert(order::views(lines@) =~= seq![status_line(app@)]);
    add_paragraph(out, area, lines, Wrapping::Cut);
}

/// Where the cursor stands while a line is edited: behind the prompt and what is
/// before it in the line, and never beyond the end of the status line.
pub open spec fn cursor_place(v: AppView, area: Rect) -> Option<(u16, u16)> {
    match v.mode {
        ModeView::Normal => None,
        ModeView::Edit { kind, buffer } => {
            let wanted = area.x + kind.prompt().len() + 2 + buffer.cursor as int % 65536;
            let limit = area.x + if area.width > 0 {
                area.width - 1
            } else {
                0
            };
            Some(
                (
                    if wanted < limit {
                        wanted as u16
                    } else {
                        limit as u16
                    },
                    area.y,
                ),
            )
        },
    }
}

proof fn prompts_are_short(kind: EditKind)
    ensures
        kind.prompt().len() <= 19,
{
    reveal_strlit("search");
    reveal_strlit("install path");
    reveal_strlit("launch bundle id");
    reveal_strlit("terminate bundle id");
    reveal_strlit("uninstall bundle id");
    reveal_strlit("url");
    reveal_strlit("screenshot path");
}

fn place_cursor(app: &App, area: Rect) -> (r: Option<(u16, u16)>)
    requires
        area.fits(),
    ensures
        r == cursor_place(app@, area),
{
    match &app.mode {
        InputMode::Normal => None,
        InputMode::Edit { kind, buffer } => {
            let prompt = chars_of(kind.title());
            proof {
                prompts_are_short(*kind);
            }
            let cursor: u64 = (buffer.cursor() % 65536) as u64;
            let wanted: u64 = area.x as u64 + prompt.len() as u64 + 2 + cursor;
            let limit: u16 = area.x + if area.width > 0 {
                area.width - 1
            } else {
                0
            };
            Some(
                (
                    if wanted < limit as u64 {
                        wanted as u16
                    } else {
                        limit
                    },
                    area.y,
                ),
            )
        },
    }
}

// ---------------------------------------------------------------------------
// Help
// ---------------------------------------------------------------------------

/// A line of the help: keys, and what they do.
pub open spec fn help_line(keys: Seq<char>, meaning: Seq<char>) -> Seq<SpanView> {
    seq![
        screen::piece(text::padded(keys, 28), Tone::Accent),
        screen::piece(meaning, Tone::Plain),
    ]
}

fn help_row(keys: &str, meaning: &str) -> (r: TextLine)
    ensures
        r@ == help_line(keys@, meaning@),
{
    let padded = pad_right(keys, 28);
    let r = TextLine::one(padded.as_str(), Tone::Accent).and(meaning, Tone::Plain);
    assert(r@ =~= help_line(keys@, meaning@));
    r
}

/// The lines of the help.
pub open spec fn help_lines() -> Seq<Seq<SpanView>> {
    seq![
        help_line("q / Ctrl+C / Esc"@, "quit"@),
        help_line("up/down or j/k"@, "select device"@),
        help_line("g / G"@, "first / last device"@),
        help_line("Enter"@, "boot when shutdown, open when booted"@),
        help_line("b / s"@, "boot / shutdown selected"@),
        help_line("o"@, "open Simulator.app"@),
        help_line("p"@, "screenshot (path prompt)"@),
        help_line("l"@, "follow / unfollow device logs"@),
        help_line("i"@, "install app (path prompt)"@),
        help_line("a / t / u"@, "launch / terminate / uninstall app"@),
        help_line("w"@, "open URL in device"@),
        help_line("d"@, "delete device (y/N confirmation)"@),
        help_line("r"@, "refresh now"@),
        help_line("/"@, "search and filter devices"@),
        help_line("f"@, "cycle state filter: all/booted/shutdown"@),
        help_line("+ / -"@, "faster / slower refresh"@),
        help_line("Tab"@, "cycle focus: devices / logs"@),
        help_line("PgUp / PgDn"@, "scroll focused pane"@),
        help_line("Esc"@, "cancel prompt / clear search"@),
        help_line("?"@, "toggle this help"@),
    ]
}

fn lines_of_help() -> (r: Vec<TextLine>)
    ensures
        order::views(r@) == help_lines(),
{
    let mut lines: Vec<TextLine> = Vec::new();
    lines.push(help_row("q / Ctrl+C / Esc", "quit"));
    lines.push(help_row("up/down or j/k", "select device"));
    lines.push(help_row("g / G", "first / last device"));
    lines.push(help_row("Enter", "boot when shutdown, open when booted"));
    lines.push(help_row("b / s", "boot / shutdown selected"));
    lines.push(help_row("o", "open Simulator.app"));
    lines.push(help_row("p", "screenshot (path prompt)"));
    lines.push(help_row("l", "follow / unfollow device logs"));
    lines.push(help_row("i", "install app (path prompt)"));
    lines.push(help_row("a / t / u", "launch / terminate / uninstall app"));
    lines.push(help_row("w", "open URL in device"));
    lines.push(help_row("d", "delete device (y/N confirmation)"));
    lines.push(help_row("r", "refresh now"));
    lines.push(help_row("/", "search and filter devices"));
    lines.push(help_row("f", "cycle state filter: all/booted/shutdown"));
    lines.push(help_row("+ / -", "faster / slower refresh"));
    lines.push(help_row("Tab", "cycle focus: devices / logs"));
    lines.push(help_row("PgUp / PgDn", "scroll focused pane"));
    lines.push(help_row("Esc", "cancel prompt / clear search"));
    lines.push(help_row("?", "toggle this help"));
    assert(order::views(lines@) =~= help_lines());
    lines
}

/// The window of the help: in the middle of the screen, with room for every line
/// where there is room.
pub open spec fn help_window(area: Rect) -> Rect {
    let width = if area.width < 24 {
        20
    } else if area.width < 68 {
        area.width - 4
    } else {
        64
    };
    let height = if area.height < 12 {
        8
    } else if area.height < 28 {
        area.height - 4
    } else {
        24
    };
    Rect {
        x: (area.x + (area.width - width) / 2) as u16,
        y: (area.y + (area.height - height) / 2) as u16,
        width: width as u16,
        height: height as u16,
    }
}

/// With the help over what was drawn.
pub open spec fn with_help(out: Seq<DrawingView>, area: Rect) -> Seq<DrawingView> {
    let window = help_window(area);
    out.push(DrawingView::Blank { area: window }).push(
        DrawingView::Frame {
            area: window,
            chrome: screen::framed(
                Tone::Border,
                screen::piece(" simtop help "@, Tone::Accent),
            ),
        },
    ).push(
        screen::open_paragraph(
            Rect {
                x: (window.x + 1) as u16,
                y: (window.y + 1) as u16,
                width: (window.width - 2) as u16,
                height: (window.height - 2) as u16,
            },
            help_lines(),
            Wrapping::Cut,
        ),
    )
}

fn render_help(out: &mut Vec<Drawing>, area: Rect)
    requires
        area.fits(),
        area.width >= 20,
        area.height >= 8,
    ensures
        order::views(final(out)@) == with_help(order::views(old(out)@), area),
{
    let width: u16 = if area.width < 24 {
        20
    } else if area.width < 68 {
        area.width - 4
    } else {
        64
    };
    let height: u16 = if area.height < 12 {
        8
    } else if area.height < 28 {
        area.height - 4
    } else {
        24
    };
    let window = Rect {
        x: area.x + (area.width - width) / 2,
        y: area.y + (area.height - height) / 2,
        width,
        height,
    };
    assert(window == help_window(area));
    add_drawing(out, Drawing::Blank { area: window });
    let chrome = Chrome::titled(Tone::Border, Span::toned(" simtop help ", Tone::Accent));
    add_drawing(out, Drawing::Frame { area: window, chrome });
    let inside = Rect { x: window.x + 1, y: window.y + 1, width: width - 2, height: height - 2 };
    add_paragraph(out, inside, lines_of_help(), Wrapping::Cut);
}

/// The help lies on the screen.
pub proof fn help_lies_on_the_screen(area: Rect)
    requires
        area.fits(),
        area.width >= 20,
        area.height >= 8,
    ensures
        help_window(area).within(area),
{
}

// ---------------------------------------------------------------------------
// The screen
// ---------------------------------------------------------------------------

/// What stands on a screen that is too small for the panes.
pub open spec fn too_small_text(area: Rect) -> Seq<char> {
    "terminal too small: need at least "@ + (text::decimal(MIN_WIDTH as nat) + "x"@
        + text::decimal(MIN_HEIGHT as nat)) + ", have "@ + (text::decimal(area.width as nat)
        + "x"@ + text::decimal(area.height as nat))
}

/// What is drawn on a screen that is too small for the panes: as much as there is
/// room for.
pub open spec fn too_small_drawn(area: Rect) -> Seq<DrawingView> {
    let message = too_small_text(area);
    let width = columns_of_text(message);
    let center_x = area.x + area.width as int / 2;
    let center_y = area.y + area.height as int / 2;
    let noted = if width <= area.width {
        screen::put_text(
            Seq::empty(),
            center_x - width / 2,
            if center_y > 0 {
                center_y - 1
            } else {
                0
            },
            width,
            message,
            Tone::Warning.styled(),
        )
    } else {
        Seq::empty()
    };
    if area.width >= 10 {
        screen::put_text(noted, center_x - 5, center_y, 10, "press q to quit"@, Tone::Muted.styled())
    } else {
        noted
    }
}

/// Draws the notice that a screen is too small.
pub fn render_too_small(area: Rect) -> (r: Vec<Drawing>)
    requires
        area.fits(),
    ensures
        order::views(r@) == too_small_drawn(area),
{
    let mut out: Vec<Drawing> = Vec::new();
    assert(order::views(out@) =~= Seq::empty());
    let min_width = decimal_text(MIN_WIDTH as u64);
    let min_height = decimal_text(MIN_HEIGHT as u64);
    let width = decimal_text(area.width as u64);
    let height = decimal_text(area.height as u64);
    let needed = cat3(min_width.as_str(), "x", min_height.as_str());
    let had = cat3(width.as_str(), "x", height.as_str());
    let message = cat4(
        "terminal too small: need at least ",
        needed.as_str(),
        ", have ",
        had.as_str(),
    );
    assert(message@ == too_small_text(area));
    let columns = text_columns(message.as_str());
    let center_x: u16 = area.x + area.width / 2;
    let center_y: u16 = area.y + area.height / 2;
    let above: u16 = if center_y > 0 {
        center_y - 1
    } else {
        0
    };
    if columns <= area.width {
        put(
            &mut out,
            center_x - columns / 2,
            above,
            columns,
            message.as_str(),
            Tone::Warning.style(),
        );
    }
    if area.width >= 10 {
        put(&mut out, center_x - 5, center_y, 10, "press q to quit", Tone::Muted.style());
    }
    out
}

/// A screen: what is drawn on it, and where the cursor stands when it is shown.
#[derive(Debug, PartialEq, Eq)]
pub struct Picture {
    pub drawings: Vec<Drawing>,
    pub cursor: Option<(u16, u16)>,
}

/// The content of a [`Picture`].
#[verifier::ext_equal]
pub struct PictureView {
    pub drawings: Seq<DrawingView>,
    pub cursor: Option<(u16, u16)>,
}

impl View for Picture {
    type V = PictureView;

    open spec fn view(&self) -> PictureView {
        PictureView { drawings: order::views(self.drawings@), cursor: self.cursor }
    }
}

/// Whether a screen is too small for the panes.
pub open spec fn too_small(area: Rect) -> bool {
    area.width < MIN_WIDTH || area.height < MIN_HEIGHT
}

impl AppView {
    /// The state after it was drawn in panes.
    pub open spec fn after_painting(self, panes: Panes) -> AppView {
        scrolled(
            AppView { logs_visible: panes.logs is Some, ..self },
            panes.list.body.height as nat,
        )
    }

    /// The view in panes: heading, list, details and logs where they have panes,
    /// activity and status, and the help over them when it is open.
    pub open spec fn painted(self, area: Rect, panes: Panes) -> PictureView {
        let out = with_list(with_top(Seq::empty(), self, panes.top), self, panes.list);
        let out = match panes.details {
            Some(pane) => with_details(out, self, pane),
            None => out,
        };
        let out = match panes.logs {
            Some(pane) => with_logs(out, self, pane),
            None => out,
        };
        let out = with_status(with_activity(out, self, panes.activity), self, panes.status);
        PictureView {
            drawings: if self.show_help {
                with_help(out, area)
            } else {
                out
            },
            cursor: cursor_place(self, panes.status),
        }
    }
}

impl Panes {
    /// Whether the panes can be drawn in.
    pub fn can_be_drawn(&self) -> (r: bool)
        requires
            self.fit(),
        ensures
            r == self.drawable(),
    {
        self.list.body.x <= u16::MAX - layout::LIST_COLUMNS
    }
}

impl App {
    /// Draws the view in panes.
    #[verifier::spinoff_prover]
    #[verifier::rlimit(40)]
    pub fn paint(&mut self, area: Rect, panes: &Panes) -> (r: Picture)
        requires
            old(self)@.sound(),
            area.fits(),
            !too_small(area),
            panes.drawable(),
        ensures
            r@ == old(self)@.painted(area, *panes),
            final(self)@ == old(self)@.after_painting(*panes),
            final(self)@.sound(),
    {
        let mut out: Vec<Drawing> = Vec::new();
        assert(order::views(out@) =~= Seq::empty());
        render_top(&mut out, self, panes.top);
        let ghost before = self@;
        let ghost topped = order::views(out@);
        self.logs_visible = panes.logs.is_some();
        let ghost marked = self@;
        assert(marked =~= AppView { logs_visible: panes.logs is Some, ..before });
        render_list(&mut out, self, &panes.list);
        let ghost after = self@;
        proof {
            drawing_ignores_scrolling(before, marked, after, topped, *panes);
        }
        if let Some(pane) = &panes.details {
            render_details(&mut out, self, pane);
        }
        if let Some(pane) = &panes.logs {
            render_logs(&mut out, self, pane);
        }
        render_activity(&mut out, self, &panes.activity);
        render_status(&mut out, self, panes.status);
        if self.show_help {
            render_help(&mut out, area);
        }
        let cursor = place_cursor(self, panes.status);
        Picture { drawings: out, cursor }
    }

    /// Draws the view on a screen. A screen that is too small shows a notice, and
    /// one that reaches too far for a row of the list to be counted nothing.
    pub fn draw(&mut self, area: Rect) -> (r: Option<Picture>)
        requires
            old(self)@.sound(),
            area.fits(),
        ensures
            final(self)@.sound(),
            if too_small(area) {
                r matches Some(p) && p@ == (PictureView {
                    drawings: too_small_drawn(area),
                    cursor: None,
                }) && final(self)@ == old(self)@
            } else {
                exists|panes: Panes|
                    {
                        &&& #[trigger] panes.may_lie_on(area)
                        &&& panes.within(area)
                        &&& panes.details is Some <==> area.width >= 78
                        &&& panes.logs is Some <==> area.width >= 110
                        &&& match r {
                            Some(p) => panes.drawable() && p@ == old(self)@.painted(area, panes)
                                && final(self)@ == old(self)@.after_painting(panes),
                            None => !panes.drawable() && final(self)@ == old(self)@,
                        }
                    }
            },
    {
        if area.width < MIN_WIDTH || area.height < MIN_HEIGHT {
            return Some(Picture { drawings: render_too_small(area), cursor: None });
        }
        let panes = Panes::of_screen(area);
        if !panes.can_be_drawn() {
            return None;
        }
        Some(self.paint(area, &panes))
    }
}

/// The panes other than the list do not depend on where the list is scrolled to.
proof fn drawing_ignores_scrolling(
    before: AppView,
    marked: AppView,
    after: AppView,
    out: Seq<DrawingView>,
    panes: Panes,
)
    requires
        before.sound(),
        marked == (AppView { logs_visible: panes.logs is Some, ..before }),
        after == scrolled(marked, panes.list.body.height as nat),
    ensures
        with_list(out, marked, panes.list) == with_list(out, before, panes.list),
        forall|o: Seq<DrawingView>, p: Pane|
            #[trigger] with_details(o, after, p) == with_details(o, before, p),
        forall|o: Seq<DrawingView>, p: Pane|
            #[trigger] with_logs(o, after, p) == with_logs(o, before, p),
        forall|o: Seq<DrawingView>, p: Pane|
            #[trigger] with_activity(o, after, p) == with_activity(o, before, p),
        status_line(after) == status_line(before),
        cursor_place(after, panes.status) == cursor_place(before, panes.status),
        after == before.after_painting(panes),
{
    let body = panes.list.body;
    rows_ignore_marks(
        with_header(
            with_heading(
                out,
                panes.list,
                list_title_text(before),
                before.focus == Focus::List,
            ),
            columns_in(body),
            body.y,
        ),
        before,
        marked,
        body,
        first_shown(before, body.height as nat),
        body.height as nat,
    );
}

proof fn rows_ignore_marks(
    out: Seq<DrawingView>,
    v: AppView,
    w: AppView,
    body: Rect,
    first: nat,
    rows: nat,
)
    requires
        v.filtered == w.filtered,
        v.devices == w.devices,
        v.selected == w.selected,
    ensures
        with_rows(out, v, body, first, rows) == with_rows(out, w, body, first, rows),
    decreases rows,
{
    if rows > 0 {
        rows_ignore_marks(out, v, w, body, first, (rows - 1) as nat);
    }
}

/// Whether a text is drawn from a column on.
pub open spec fn says_at(out: Seq<DrawingView>, x: u16, y: u16, said: Seq<char>) -> bool {
    exists|i: int|
        0 <= i < out.len() && (#[trigger] out[i] matches DrawingView::Text { x: at, y: row, text, .. }
            && at == x && row == y && text == said)
}

proof fn put_texts_are_said(
    out: Seq<DrawingView>,
    x: u16,
    y: u16,
    width: int,
    said: Seq<char>,
    style: crate::tui::theme::Style,
)
    requires
        width != 0,
    ensures
        says_at(screen::put_text(out, x as int, y as int, width, said, style), x, y, said),
        screen::put_text(out, x as int, y as int, width, said, style).drop_last() == out,
{
    let after = screen::put_text(out, x as int, y as int, width, said, style);
    assert(after[after.len() - 1] == after.last());
    assert(after.drop_last() =~= out);
}

proof fn said_texts_stay(
    out: Seq<DrawingView>,
    more: Seq<DrawingView>,
    x: u16,
    y: u16,
    said: Seq<char>,
)
    requires
        says_at(out, x, y, said),
        more.len() >= out.len(),
        more.take(out.len() as int) == out,
    ensures
        says_at(more, x, y, said),
{
    let i = choose|i: int|
        0 <= i < out.len() && (#[trigger] out[i] matches DrawingView::Text {
            x: at,
            y: row,
            text,
            ..
        } && at == x && row == y && text == said);
    assert(more.take(out.len() as int)[i] == out[i]);
    assert(more[i] == out[i]);
}

/// The row of a device shows its state and its name in their columns, and where there is
/// room for it says last whether the device is available.
#[verifier::spinoff_prover]
#[verifier::rlimit(60)]
pub proof fn rows_show_their_device(
    out: Seq<DrawingView>,
    d: DeviceView,
    selected: bool,
    body: Rect,
    c: Columns,
    y: u16,
)
    requires
        c.name_width > 1,
    ensures
        says_at(with_row(out, d, selected, body, c, y), c.state_x, y, action::state_word(d.state)),
        says_at(with_row(out, d, selected, body, c, y), c.name_x, y, d.name),
        c.show_avail ==> (with_row(out, d, selected, body, c, y).last() matches DrawingView::Text {
            x,
            text,
            ..
        } && x == c.avail_x && (text == "yes"@ <==> d.is_available) && (text == "no"@
            <==> !d.is_available)),
{
    reveal_strlit("yes");
    reveal_strlit("no");
    assert("yes"@.len() == 3 && "no"@.len() == 2);
    let over = if selected {
        Tone::Selected.styled()
    } else {
        Tone::Plain.styled()
    };
    let all = with_row(out, d, selected, body, c, y);
    let tinted = if selected {
        out.push(
            DrawingView::Tint {
                area: Rect { x: body.x, y, width: body.width, height: 1 },
                style: Tone::Selected.styled(),
            },
        )
    } else {
        out
    };
    let marked = screen::put_text(
        tinted,
        body.x as int,
        y as int,
        MARKER_W as int,
        if selected {
            ">"@
        } else {
            " "@
        },
        over,
    );
    let stated = screen::put_text(
        marked,
        c.state_x as int,
        y as int,
        STATE_W - 1,
        action::state_word(d.state),
        state_tone(d.state).styled().under(over),
    );
    let named = screen::put_text(
        stated,
        c.name_x as int,
        y as int,
        c.name_width - 1,
        d.name,
        (if d.is_available {
            Tone::Info
        } else {
            Tone::Muted
        }).styled().under(over),
    );
    put_texts_are_said(
        marked,
        c.state_x,
        y,
        STATE_W - 1,
        action::state_word(d.state),
        state_tone(d.state).styled().under(over),
    );
    put_texts_are_said(
        stated,
        c.name_x,
        y,
        c.name_width - 1,
        d.name,
        (if d.is_available {
            Tone::Info
        } else {
            Tone::Muted
        }).styled().under(over),
    );
    assert(all.take(named.len() as int) =~= named);
    assert(all.take(stated.len() as int) =~= stated);
    said_texts_stay(stated, all, c.state_x, y, action::state_word(d.state));
    said_texts_stay(named, all, c.name_x, y, d.name);
}

/// The details of a device name its parts: what stands behind each label is the part that
/// the label names.
pub proof fn details_name_their_parts(d: DeviceView)
    ensures
        device_lines(d)[1][0].text == "udid"@ && device_lines(d)[1][2].text == d.udid,
        device_lines(d)[2][0].text == "name"@ && device_lines(d)[2][2].text == d.name,
        device_lines(d)[3][0].text == "state"@ && device_lines(d)[3][2].text == d.state.shown(),
        device_lines(d)[4][0].text == "type"@ && device_lines(d)[4][2].text == d.device_type,
        device_lines(d)[5][0].text == "runtime"@ && device_lines(d)[5][2].text == d.runtime,
        device_lines(d)[6][0].text == "os"@ && device_lines(d)[6][2].text == d.os_version,
        device_lines(d)[7][0].text == "available"@ && (device_lines(d)[7][2].text == "yes"@
            <==> d.is_available),
{
    reveal_strlit("yes");
    reveal_strlit("no");
    assert("yes"@.len() == 3 && "no"@.len() == 2);
}

/// An operation is shown with its key exactly when the device offers it, and with its name
/// in either case.
pub proof fn keys_are_shown_for_what_is_offered(d: DeviceView, kind: ActionKind)
    ensures
        operation_line(d, kind).last().text == kind.name(),
        operation_line(d, kind)[0].text == "["@ + seq![kind.bound_key()] + "]"@ <==> action::enabled(
            d,
            kind,
        ),
{
    reveal_strlit("[");
    reveal_strlit("]");
    reveal_strlit("   ");
    let shown = "["@ + seq![kind.bound_key()] + "]"@;
    assert(shown[0] == '[');
    assert("   "@[0] == ' ');
}

/// The headings stand over the columns of what they name.
#[verifier::spinoff_prover]
#[verifier::rlimit(60)]
pub proof fn headings_stand_over_their_columns(out: Seq<DrawingView>, c: Columns, y: u16)
    requires
        c.name_width > 1,
        c.show_udid && c.show_rt && c.show_os && c.show_avail,
    ensures
        ({
            let all = with_header(out, c, y);
            let n = out.len() as int;
            &&& all.len() == n + 6
            &&& all[n] matches DrawingView::Text { x, text, .. } && x == c.state_x && text
                == "STATE"@
            &&& all[n + 1] matches DrawingView::Text { x, text, .. } && x == c.name_x && text
                == "NAME"@
            &&& all[n + 2] matches DrawingView::Text { x, text, .. } && x == c.udid_x && text
                == "UDID"@
            &&& all[n + 3] matches DrawingView::Text { x, text, .. } && x == c.rt_x && text
                == "RUNTIME"@
            &&& all[n + 4] matches DrawingView::Text { x, text, .. } && x == c.os_x && text == "OS"@
            &&& all[n + 5] matches DrawingView::Text { x, text, .. } && x == c.avail_x && text
                == "AVAIL"@
        }),
{
}

/// The last line shows the question before a deletion with the device it is about, and the
/// prompt with what was typed so far.
pub proof fn last_lines_show_what_is_asked(
    v: AppView,
    udid: Seq<char>,
    kind: EditKind,
    buffer: crate::tui::input::EditView,
)
    ensures
        v.mode is Normal && !v.show_help && v.confirm_delete == Some(udid) ==> text::has_part(
            status_line(v)[0].text,
            action::short_of(udid),
        ),
        v.mode == (ModeView::Edit { kind, buffer }) ==> status_line(v)[0].text == kind.prompt()
            + ": "@ && status_line(v)[1].text == buffer.text,
{
    let line = "delete "@ + action::short_of(udid) + ": y/N (Enter = no)"@;
    let at = "delete "@.len() as int;
    assert(line.subrange(at, at + action::short_of(udid).len()) =~= action::short_of(udid));
    assert(text::occurs_at(line, action::short_of(udid), at));
}

proof fn parts_are_shown(before: Seq<char>, part: Seq<char>, after: Seq<char>)
    ensures
        text::has_part(before + part + after, part),
{
    let all = before + part + after;
    let at = before.len() as int;
    assert(all.subrange(at, at + part.len()) =~= part);
    assert(text::occurs_at(all, part, at));
}

/// The title of the list counts the devices that are shown among all, names the filters
/// that are set, and tells when the last snapshot failed.
pub proof fn titles_count_what_is_shown(v: AppView)
    ensures
        text::has_part(
            list_title_text(v),
            text::decimal(v.filtered.len()) + "/"@ + text::decimal(v.devices.len()),
        ),
        v.filter.len() > 0 ==> text::has_part(list_title_text(v), "filter: "@ + v.filter),
        v.state_filter == StateFilter::Booted ==> text::has_part(
            list_title_text(v),
            "state: "@ + "booted"@,
        ),
        v.state_filter == StateFilter::Shutdown ==> text::has_part(
            list_title_text(v),
            "state: "@ + "shutdown"@,
        ),
        v.last_snapshot_error is Some ==> text::has_part(list_title_text(v), "snapshot error"@),
{
    reveal_strlit("  filter: ");
    reveal_strlit("filter: ");
    reveal_strlit("  state: ");
    reveal_strlit("state: ");
    reveal_strlit("  [!] snapshot error");
    reveal_strlit("snapshot error");
    let head = (if v.focus == Focus::List {
        ">"@
    } else {
        " "@
    }) + " devices: "@;
    let counts = text::decimal(v.filtered.len()) + "/"@ + text::decimal(v.devices.len());
    let counted = head + text::decimal(v.filtered.len()) + "/"@ + text::decimal(v.devices.len());
    let filter = "filter: "@ + v.filter;
    let filtered = if v.filter.len() > 0 {
        counted + "  filter: "@ + v.filter
    } else {
        counted
    };
    let state = "state: "@ + v.state_filter.name();
    let narrowed = if v.state_filter != StateFilter::All {
        filtered + "  state: "@ + v.state_filter.name()
    } else {
        filtered
    };
    let all = list_title_text(v);
    assert(counted =~= head + counts);
    last_parts_are_shown(head, counts);
    if v.filter.len() > 0 {
        assert(filtered =~= counted + ("  filter: "@ + v.filter));
        assert(filtered =~= (counted + seq![' ', ' ']) + filter);
        last_parts_are_shown(counted + seq![' ', ' '], filter);
        shown_parts_stay(counted, counts, "  filter: "@ + v.filter);
    }
    if v.state_filter != StateFilter::All {
        let more = "  state: "@ + v.state_filter.name();
        assert(narrowed =~= filtered + more);
        assert(narrowed =~= (filtered + seq![' ', ' ']) + state);
        last_parts_are_shown(filtered + seq![' ', ' '], state);
        shown_parts_stay(filtered, counts, more);
        if v.filter.len() > 0 {
            shown_parts_stay(filtered, filter, more);
        }
    }
    if v.last_snapshot_error is Some {
        let more = "  [!] snapshot error"@;
        let before = narrowed + seq![' ', ' ', '[', '!', ']', ' '];
        assert(all =~= before + "snapshot error"@);
        last_parts_are_shown(before, "snapshot error"@);
        shown_parts_stay(narrowed, counts, more);
        if v.filter.len() > 0 {
            shown_parts_stay(narrowed, filter, more);
        }
        if v.state_filter != StateFilter::All {
            shown_parts_stay(narrowed, state, more);
        }
    }
}

proof fn last_parts_are_shown(before: Seq<char>, part: Seq<char>)
    ensures
        text::has_part(before + part, part),
{
    parts_are_shown(before, part, Seq::empty());
    assert(before + part + Seq::<char>::empty() =~= before + part);
}

proof fn shown_parts_stay(all: Seq<char>, part: Seq<char>, more: Seq<char>)
    requires
        text::has_part(all, part),
    ensures
        text::has_part(all + more, part),
{
    let at = choose|at: int| text::occurs_at(all, part, at);
    assert((all + more).subrange(at, at + part.len()) =~= all.subrange(at, at + part.len()));
    assert(text::occurs_at(all + more, part, at));
}

/// Notes of failures are drawn as bad, of success as good and of warnings as warnings, and
/// a log line shows the time of day, the process and the message.
pub proof fn notes_are_drawn_as_what_they_are(a: ActivityView, e: LogLineView)
    ensures
        activity_line(a).last().text == a.text,
        a.kind == ActivityKind::Failed ==> activity_line(a).last().style == Tone::Bad.styled(),
        a.kind == ActivityKind::Done ==> activity_line(a).last().style == Tone::Good.styled(),
        a.kind == ActivityKind::Warning ==> activity_line(a).last().style
            == Tone::Warning.styled(),
        activity_line(a)[0].text == a.time,
        log_line(e)[0].text == action::time_of_day(e.time),
        log_line(e)[2].text == e.process,
        log_line(e)[4].text == e.message,
{
}

/// An empty list says why it is empty: because of a filter, because the snapshot failed, or
/// because there are no devices.
pub proof fn empty_lists_say_why(v: AppView)
    ensures
        v.devices.len() > 0 ==> empty_list_text(v) == "no devices match the current filter"@,
        v.devices.len() == 0 && v.last_snapshot_error is None ==> empty_list_text(v)
            == "no simulators found"@,
        v.devices.len() == 0 && v.last_snapshot_error is Some ==> text::has_part(
            empty_list_text(v),
            v.last_snapshot_error->0,
        ),
{
    if let Some(error) = v.last_snapshot_error {
        parts_are_shown("snapshot failed: "@, error, Seq::empty());
        assert("snapshot failed: "@ + error + Seq::<char>::empty() =~= "snapshot failed: "@
            + error);
    }
}

/// The details are those of the selected device, and its logs are titled by the device that
/// is followed.
pub proof fn details_are_those_of_the_selection(v: AppView, d: DeviceView, udid: Seq<char>)
    ensures
        v.chosen() == Some(d) ==> details_lines(v) == device_lines(d) && details_title_text(v)
            == " details: "@ + d.name,
        v.follow_udid == Some(udid) ==> text::has_part(
            logs_title_text(v),
            action::short_of(udid),
        ) && text::has_part(logs_title_text(v), text::decimal(v.logs.len())),
{
    if v.follow_udid == Some(udid) {
        let marker = if v.focus == Focus::Logs {
            ">"@
        } else {
            " "@
        };
        let short = action::short_of(udid);
        let count = text::decimal(v.logs.len());
        let all = logs_title_text(v);
        parts_are_shown(marker + " logs "@, short, " [follow] - "@ + (count + " entries"@));
        assert(all =~= (marker + " logs "@) + short + (" [follow] - "@ + (count + " entries"@)));
        parts_are_shown(marker + " logs "@ + short + " [follow] - "@, count, " entries"@);
        assert(all =~= (marker + " logs "@ + short + " [follow] - "@) + count + " entries"@);
    }
}

/// What scrolling back shows are the lines before the newest, as many as were scrolled by.
pub proof fn scrolled_logs_end_earlier(v: AppView, height: nat, k: int)
    requires
        v.log_scroll <= v.logs.len(),
        0 <= k < logs_in_sight(v, height).len(),
    ensures
        logs_in_sight(v, height)[k] == v.logs[v.logs.len() - v.log_scroll - logs_in_sight(
            v,
            height,
        ).len() + k],
        v.logs.len() - v.log_scroll >= height ==> logs_in_sight(v, height).len() == height,
{
}

/// The window is too small below its least width or height, and a cursor is shown exactly
/// while something is typed.
pub proof fn small_windows_are_told(area: Rect, v: AppView, panes: Panes)
    ensures
        too_small(area) <==> area.width < 52 || area.height < 10,
        v.mode is Normal ==> v.painted(area, panes).cursor is None,
        v.mode is Edit ==> v.painted(area, panes).cursor is Some,
{
}

/// A booted device is drawn as good and one in an unknown state as bad; those on the way
/// from one state into another are drawn as warnings.
pub proof fn states_are_drawn_by_their_meaning(d: DeviceView)
    ensures
        d.state is Booted ==> device_lines(d)[3][2].style == Tone::Good.styled(),
        d.state is Booting || d.state is ShuttingDown ==> device_lines(d)[3][2].style
            == Tone::Warning.styled(),
        d.state is Unknown ==> device_lines(d)[3][2].style == Tone::Bad.styled(),
        d.state is Shutdown ==> device_lines(d)[3][2].style == Tone::Muted.styled(),
        device_lines(d)[7][2].style == Tone::Good.styled() <==> d.is_available,
{
}

/// The cursor stands behind the prompt, its colon and what was typed before it, as far as
/// the line has room.
pub proof fn cursors_stand_behind_what_was_typed(
    v: AppView,
    area: Rect,
    kind: EditKind,
    buffer: crate::tui::input::EditView,
)
    requires
        v.mode == (ModeView::Edit { kind, buffer }),
        area.width > 0,
        area.x + area.width <= u16::MAX,
        0 <= buffer.cursor < 65536,
    ensures
        cursor_place(v, area) matches Some((x, y)) && y == area.y && area.x <= x < area.x
            + area.width && (area.x + (kind.prompt() + ": "@).len() + buffer.cursor < area.x
            + area.width ==> x == area.x + (kind.prompt() + ": "@).len() + buffer.cursor),
{
    reveal_strlit(": ");
    vstd::arithmetic::div_mod::lemma_small_mod(buffer.cursor as nat, 65536);
}

} // verus!
