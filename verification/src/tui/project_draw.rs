//! How the projects view looks.
use vstd::prelude::*;

use crate::build::output;
use crate::build::output::beginning;
use crate::model::DeviceView;
use crate::order;
use crate::text;
use crate::text::{cat2, cat3, cat4, cat5, decimal_text, same_text};
use crate::tui::layout;
use crate::tui::layout::{split, Axis, Constraint};
use crate::tui::projects;
use crate::tui::projects::{Focus, Input, InputView, ProjectsState, ProjectsView, Row, RowView};
use crate::tui::screen;
use crate::tui::screen::{
    add_drawing, add_line, add_paragraph, Chrome, Drawing, DrawingView, Edges, Rect, Span,
    SpanView, TextLine, Tone, Wrapping,
};
use crate::tui::simulators;

verus! {

// ---------------------------------------------------------------------------
// Areas
// ---------------------------------------------------------------------------

/// The areas of the projects view: the list of projects, the choices one below
/// another with a hint, the output and the status.
#[derive(Debug, Clone, Copy, PartialEq, Eq, Structural)]
pub struct ProjectPanes {
    pub list: Rect,
    pub setup: Rect,
    pub container: Rect,
    pub scheme: Rect,
    pub configuration: Rect,
    pub simulator: Rect,
    pub hint: Rect,
    pub output: Rect,
    pub status: Rect,
}

/// The area inside a border.
pub open spec fn inside(area: Rect) -> Rect {
    Rect {
        x: (if area.width > 0 {
            area.x + 1
        } else {
            area.x as int
        }) as u16,
        y: (if area.height > 0 {
            area.y + 1
        } else {
            area.y as int
        }) as u16,
        width: (if area.width > 2 {
            area.width - 2
        } else {
            0
        }) as u16,
        height: (if area.height > 2 {
            area.height - 2
        } else {
            0
        }) as u16,
    }
}

fn within_border(area: Rect) -> (r: Rect)
    requires
        area.fits(),
    ensures
        r == inside(area),
        r.within(area),
{
    Rect {
        x: if area.width > 0 {
            area.x + 1
        } else {
            area.x
        },
        y: if area.height > 0 {
            area.y + 1
        } else {
            area.y
        },
        width: if area.width > 2 {
            area.width - 2
        } else {
            0
        },
        height: if area.height > 2 {
            area.height - 2
        } else {
            0
        },
    }
}

/// The wanted heights: the panes, and a status of three rows.
pub open spec fn body_sizes() -> Seq<Constraint> {
    seq![Constraint::Min(1), Constraint::Length(3)]
}

/// The wanted widths of list, choices and output.
pub open spec fn pane_widths() -> Seq<Constraint> {
    seq![Constraint::Percentage(29), Constraint::Percentage(39), Constraint::Percentage(32)]
}

/// The wanted heights of the four choices and of the hint.
pub open spec fn field_sizes() -> Seq<Constraint> {
    seq![
        Constraint::Length(3),
        Constraint::Length(3),
        Constraint::Length(3),
        Constraint::Length(3),
        Constraint::Min(1),
    ]
}

/// The areas in rows, columns and fields.
pub open spec fn placed(rows: Seq<Rect>, columns: Seq<Rect>, fields: Seq<Rect>) -> ProjectPanes {
    ProjectPanes {
        list: columns[0],
        setup: columns[1],
        container: fields[0],
        scheme: fields[1],
        configuration: fields[2],
        simulator: fields[3],
        hint: fields[4],
        output: columns[2],
        status: rows[1],
    }
}

/// Whether the areas of a screen may lie so.
pub open spec fn may_lie(area: Rect, panes: ProjectPanes) -> bool {
    exists|rows: Seq<Rect>, columns: Seq<Rect>, fields: Seq<Rect>|
        {
            &&& layout::may_split(Axis::Vertical, body_sizes(), area, rows)
            &&& layout::may_split(Axis::Horizontal, pane_widths(), rows[0], columns)
            &&& layout::may_split(Axis::Vertical, field_sizes(), inside(columns[1]), fields)
            &&& panes == #[trigger] placed(rows, columns, fields)
        }
}

impl ProjectPanes {
    /// Whether every area lies within another.
    pub open spec fn within(self, area: Rect) -> bool {
        &&& self.list.within(area)
        &&& self.setup.within(area)
        &&& self.container.within(area)
        &&& self.scheme.within(area)
        &&& self.configuration.within(area)
        &&& self.simulator.within(area)
        &&& self.hint.within(area)
        &&& self.output.within(area)
        &&& self.status.within(area)
    }

    /// The areas of a screen, all of them on it.
    pub fn of_screen(area: Rect) -> (r: ProjectPanes)
        requires
            area.fits(),
        ensures
            may_lie(area, r),
            r.within(area),
            layout::spans_area(Axis::Vertical, area, r.status),
    {
        let sizes = vec![Constraint::Min(1), Constraint::Length(3)];
        assert(sizes@ =~= body_sizes());
        let rows = split(Axis::Vertical, &sizes, area);
        assert(rows@[0].within(area) && rows@[1].within(area));
        assert(layout::spans_area(Axis::Vertical, area, rows@[1]));
        let widths = vec![
            Constraint::Percentage(29),
            Constraint::Percentage(39),
            Constraint::Percentage(32),
        ];
        assert(widths@ =~= pane_widths());
        let columns = split(Axis::Horizontal, &widths, rows[0]);
        assert(columns@[0].within(rows@[0]));
        assert(columns@[1].within(rows@[0]));
        assert(columns@[2].within(rows@[0]));
        let heights = vec![
            Constraint::Length(3),
            Constraint::Length(3),
            Constraint::Length(3),
            Constraint::Length(3),
            Constraint::Min(1),
        ];
        assert(heights@ =~= field_sizes());
        let fields = split(Axis::Vertical, &heights, within_border(columns[1]));
        assert(forall|i: int| 0 <= i < 5 ==> (#[trigger] fields@[i]).within(inside(columns@[1])));
        assert(fields@[0].within(area) && fields@[1].within(area) && fields@[2].within(area));
        assert(fields@[3].within(area) && fields@[4].within(area));
        let r = ProjectPanes {
            list: columns[0],
            setup: columns[1],
            container: fields[0],
            scheme: fields[1],
            configuration: fields[2],
            simulator: fields[3],
            hint: fields[4],
            output: columns[2],
            status: rows[1],
        };
        assert(r == placed(rows@, columns@, fields@));
        r
    }
}

// ---------------------------------------------------------------------------
// The list of projects
// ---------------------------------------------------------------------------

/// The lines of a project: its name, and its directory or what became of its
/// metadata.
pub open spec fn project_lines(row: RowView, selected: bool) -> Seq<Seq<SpanView>> {
    seq![
        seq![
            screen::piece(
                (if selected {
                    "›"@
                } else {
                    " "@
                }) + " "@ + row.project.name,
                Tone::Plain,
            ),
        ],
        seq![
            screen::piece(
                if row.loading {
                    "  loading metadata…"@
                } else {
                    match row.error {
                        Some(error) => "  metadata: "@ + error,
                        None => "  "@ + row.project.directory,
                    }
                },
                Tone::Muted,
            ),
        ],
    ]
}

fn lines_of_project(row: &Row, selected: bool) -> (r: Vec<TextLine>)
    ensures
        order::views(r@) == project_lines(row@, selected),
{
    let marker = if selected {
        "›"
    } else {
        " "
    };
    let name = cat3(marker, " ", row.project.name.as_str());
    let detail = if row.loading {
        "  loading metadata…".to_owned()
    } else {
        match &row.error {
            Some(error) => cat2("  metadata: ", error.as_str()),
            None => cat2("  ", row.project.directory.as_str()),
        }
    };
    let mut lines: Vec<TextLine> = Vec::new();
    lines.push(TextLine::one(name.as_str(), Tone::Plain));
    lines.push(TextLine::one(detail.as_str(), Tone::Muted));
    assert(order::views(lines@) =~= project_lines(row@, selected));
    lines
}

/// The items of the list: the rows that pass the filter.
pub open spec fn project_items(v: ProjectsState) -> Seq<Seq<Seq<SpanView>>> {
    v.visible().map_values(|i: int| project_lines(v.rows[i], i == v.selected))
}

/// The title of the list: how many projects are shown, or what is being typed.
pub open spec fn projects_title(v: ProjectsState) -> Seq<char> {
    match v.input {
        InputView::Normal => " Projects ("@ + text::decimal(v.visible().len()) + "/"@
            + text::decimal(v.rows.len()) + ") "@,
        InputView::Filter(typed) => " Filter: "@ + typed + "_ "@,
        InputView::Root(typed) => " Add root: "@ + typed + "_ "@,
    }
}

/// The list of projects.
pub open spec fn list_drawn(v: ProjectsState, area: Rect) -> DrawingView {
    DrawingView::Items {
        area,
        chrome: screen::framed(Tone::Plain, screen::piece(projects_title(v), Tone::Title)),
        items: project_items(v),
        selected: projects::place_among(v.visible(), v.selected as int),
        highlight: (if v.focus == Focus::Projects {
            Tone::Selected
        } else {
            Tone::Plain
        }).styled(),
    }
}

fn project_list(view: &ProjectsView, area: Rect) -> (r: Drawing)
    ensures
        r@ == list_drawn(view@, area),
{
    let indices = view.indices();
    let ghost visible = view@.visible();
    let title = match &view.input {
        Input::Normal => {
            let shown = decimal_text(indices.len() as u64);
            let all = decimal_text(view.rows.len() as u64);
            cat5(" Projects (", shown.as_str(), "/", all.as_str(), ") ")
        },
        Input::Filter(typed) => cat3(" Filter: ", typed.as_str(), "_ "),
        Input::Root(typed) => cat3(" Add root: ", typed.as_str(), "_ "),
    };
    let selected = projects::find_place(&indices, view.selected);
    let ghost wanted = project_items(view@);
    let mut items: Vec<Vec<TextLine>> = Vec::new();
    let mut i: usize = 0;
    assert(screen::items_view(items@) =~= wanted.take(0));
    while i < indices.len()
        invariant
            i <= indices@.len(),
            visible == view@.visible(),
            visible == simulators::positions(indices@),
            forall|k: int| 0 <= k < indices@.len() ==> #[trigger] indices@[k] < view.rows@.len(),
            wanted == project_items(view@),
            screen::items_view(items@) == wanted.take(i as int),
        decreases indices@.len() - i,
    {
        let ghost before = items@;
        let place: usize = indices[i];
        assert(view@.rows[place as int] == view.rows@[place as int]@);
        assert(visible[i as int] == place);
        let lines = lines_of_project(&view.rows[place], place == view.selected);
        assert(order::views(lines@) == wanted[i as int]);
        items.push(lines);
        assert(screen::items_view(items@) =~= screen::items_view(before).push(
            order::views(lines@),
        ));
        assert(wanted.take(i + 1) =~= wanted.take(i as int).push(wanted[i as int]));
        i = i + 1;
    }
    assert(wanted.take(i as int) =~= wanted);
    let highlight = if view.focus == Focus::Projects {
        Tone::Selected.style()
    } else {
        Tone::Plain.style()
    };
    let chrome = Chrome::titled(Tone::Plain, Span::toned(title.as_str(), Tone::Title));
    Drawing::Items { area, chrome, items, selected, highlight }
}

// ---------------------------------------------------------------------------
// Choices
// ---------------------------------------------------------------------------

/// The first device with a UDID.
pub open spec fn device_at(devices: Seq<DeviceView>, udid: Seq<char>) -> Option<DeviceView>
    decreases devices.len(),
{
    if devices.len() == 0 {
        None
    } else {
        match device_at(devices.drop_last(), udid) {
            Some(d) => Some(d),
            None => if devices.last().udid == udid {
                Some(devices.last())
            } else {
                None
            },
        }
    }
}

/// The chosen simulator as it is shown: its name, and the start of its UDID.
pub open spec fn simulator_text(v: ProjectsState) -> Seq<char> {
    match v.simulator {
        None => "no simulator"@,
        Some(udid) => match device_at(v.devices, udid) {
            None => "no simulator"@,
            Some(d) => d.name + " ("@ + output::fitting(udid, 8) + ")"@,
        },
    }
}

fn shown_simulator(view: &ProjectsView) -> (r: String)
    ensures
        r@ == simulator_text(view@),
{
    let udid = match &view.simulator {
        Some(udid) => udid,
        None => {
            return "no simulator".to_owned();
        },
    };
    let ghost all = order::views(view.devices@);
    let mut found: Option<usize> = None;
    let mut i: usize = 0;
    assert(all.take(0) =~= Seq::empty());
    while i < view.devices.len()
        invariant
            i <= view.devices@.len(),
            all == order::views(view.devices@),
            match found {
                Some(k) => k < i && device_at(all.take(i as int), udid@) == Some(all[k as int]),
                None => device_at(all.take(i as int), udid@) is None,
            },
        decreases view.devices@.len() - i,
    {
        assert(all.take(i + 1).drop_last() =~= all.take(i as int));
        assert(all.take(i + 1).last() == view.devices@[i as int]@);
        if found.is_none() && same_text(view.devices[i].udid.as_str(), udid.as_str()) {
            found = Some(i);
        }
        i = i + 1;
    }
    assert(all.take(i as int) =~= all);
    match found {
        Some(k) => {
            assert(all[k as int] == view.devices@[k as int]@);
            let short = beginning(udid.as_str(), 8);
            cat4(view.devices[k].name.as_str(), " (", short.as_str(), ")")
        },
        None => "no simulator".to_owned(),
    }
}

/// A choice: what it is, and what is chosen.
pub open spec fn field_drawn(
    area: Rect,
    label: Seq<char>,
    value: Seq<char>,
    focused: bool,
) -> DrawingView {
    screen::open_paragraph(
        area,
        seq![
            seq![
                screen::piece(
                    label + ": "@,
                    if focused {
                        Tone::Accent
                    } else {
                        Tone::Muted
                    },
                ),
                screen::piece(
                    value,
                    if focused {
                        Tone::Selected
                    } else {
                        Tone::Plain
                    },
                ),
            ],
        ],
        Wrapping::WrapTrimmed,
    )
}

fn field(out: &mut Vec<Drawing>, area: Rect, label: &str, value: &str, focused: bool)
    ensures
        order::views(final(out)@) == order::views(old(out)@).push(
            field_drawn(area, label@, value@, focused),
        ),
{
    let shown = cat2(label, ": ");
    let (label_tone, value_tone) = if focused {
        (Tone::Accent, Tone::Selected)
    } else {
        (Tone::Muted, Tone::Plain)
    };
    let line = TextLine::one(shown.as_str(), label_tone).and(value, value_tone);
    assert(line@ =~= seq![
        screen::piece(label@ + ": "@, label_tone),
        screen::piece(value@, value_tone),
    ]);
    let mut lines: Vec<TextLine> = Vec::new();
    lines.push(line);
    assert(order::views(lines@) =~= seq![line@]);
    add_paragraph(out, area, lines, Wrapping::WrapTrimmed);
}

/// A chosen text, or what stands in its place.
pub open spec fn chosen_or(o: Option<Seq<char>>, instead: Seq<char>) -> Seq<char> {
    match o {
        Some(s) => s,
        None => instead,
    }
}

fn chosen(o: &Option<String>, instead: &str) -> (r: String)
    ensures
        r@ == chosen_or(text::opt_text(*o), instead@),
{
    match o {
        Some(s) => s.clone(),
        None => instead.to_owned(),
    }
}

/// The hint below the choices.
pub open spec fn hint_text() -> Seq<char> {
    "1/2 switch views · ←/→ select · Tab focus · Enter load metadata · b build · R run · c cancel · a add root · / filter · r rescan"@
}

/// With the choices.
pub open spec fn with_setup(
    out: Seq<DrawingView>,
    v: ProjectsState,
    panes: ProjectPanes,
) -> Seq<DrawingView> {
    out.push(
        DrawingView::Frame {
            area: panes.setup,
            chrome: screen::framed(Tone::Plain, screen::piece(" Setup "@, Tone::Plain)),
        },
    ).push(
        field_drawn(
            panes.container,
            "Container"@,
            match v.container {
                Some(c) => c.path,
                None => "—"@,
            },
            v.focus == Focus::Container,
        ),
    ).push(
        field_drawn(
            panes.scheme,
            "Scheme"@,
            chosen_or(v.scheme, "no scheme"@),
            v.focus == Focus::Scheme,
        ),
    ).push(
        field_drawn(
            panes.configuration,
            "Configuration"@,
            chosen_or(v.configuration, "no configuration"@),
            v.focus == Focus::Configuration,
        ),
    ).push(
        field_drawn(
            panes.simulator,
            "Simulator"@,
            simulator_text(v),
            v.focus == Focus::Simulator,
        ),
    ).push(
        screen::open_paragraph(
            panes.hint,
            seq![seq![screen::piece(hint_text(), Tone::Muted)]],
            Wrapping::WrapTrimmed,
        ),
    )
}

fn setup(out: &mut Vec<Drawing>, view: &ProjectsView, panes: &ProjectPanes)
    ensures
        order::views(final(out)@) == with_setup(order::views(old(out)@), view@, *panes),
{
    let chrome = Chrome::titled(Tone::Plain, Span::toned(" Setup ", Tone::Plain));
    add_drawing(out, Drawing::Frame { area: panes.setup, chrome });
    let container = match &view.container {
        Some(c) => c.path().to_owned(),
        None => "—".to_owned(),
    };
    let scheme = chosen(&view.scheme, "no scheme");
    let configuration = chosen(&view.configuration, "no configuration");
    let simulator = shown_simulator(view);
    let focus = view.focus;
    field(
        out,
        panes.container,
        "Container",
        container.as_str(),
        focus == Focus::Container,
    );
    field(out, panes.scheme, "Scheme", scheme.as_str(), focus == Focus::Scheme);
    field(
        out,
        panes.configuration,
        "Configuration",
        configuration.as_str(),
        focus == Focus::Configuration,
    );
    field(
        out,
        panes.simulator,
        "Simulator",
        simulator.as_str(),
        focus == Focus::Simulator,
    );
    let mut lines: Vec<TextLine> = Vec::new();
    lines.push(
        TextLine::one(
            "1/2 switch views · ←/→ select · Tab focus · Enter load metadata · b build · R run · c cancel · a add root · / filter · r rescan",
            Tone::Muted,
        ),
    );
    assert(order::views(lines@) =~= seq![seq![screen::piece(hint_text(), Tone::Muted)]]);
    add_paragraph(out, panes.hint, lines, Wrapping::WrapTrimmed);
}

// ---------------------------------------------------------------------------
// Output and status
// ---------------------------------------------------------------------------

/// The newest lines of the output, as many as there are rows inside the border.
pub open spec fn output_in_sight(v: ProjectsState, height: nat) -> Seq<Seq<char>> {
    let rows = if height > 2 {
        height - 2
    } else {
        0
    };
    if rows < v.output.len() {
        v.output.skip(v.output.len() - rows)
    } else {
        v.output
    }
}

/// The output of what is going on.
pub open spec fn output_drawn(v: ProjectsState, area: Rect) -> DrawingView {
    DrawingView::Paragraph {
        area,
        chrome: screen::framed(
            Tone::Plain,
            screen::piece(chosen_or(v.operation, "Output"@), Tone::Plain),
        ),
        lines: output_in_sight(v, area.height as nat).map_values(
            |line: Seq<char>| seq![screen::piece(line, Tone::Plain)],
        ),
        wrapping: Wrapping::Wrap,
    }
}

fn render_output(view: &ProjectsView, area: Rect) -> (r: Drawing)
    ensures
        r@ == output_drawn(view@, area),
{
    let rows: usize = if area.height > 2 {
        (area.height - 2) as usize
    } else {
        0
    };
    let total: usize = view.output.len();
    let from: usize = if rows < total {
        total - rows
    } else {
        0
    };
    let ghost sight = output_in_sight(view@, area.height as nat);
    assert(sight =~= view@.output.skip(from as int));
    let ghost wanted = output_drawn(view@, area)->lines;
    let mut lines: Vec<TextLine> = Vec::new();
    let mut i: usize = from;
    assert(order::views(lines@) =~= wanted.take(0));
    while i < total
        invariant
            from <= i <= total,
            total == view.output@.len(),
            sight == view@.output.skip(from as int),
            wanted == sight.map_values(
                |line: Seq<char>| seq![screen::piece(line, Tone::Plain)],
            ),
            order::views(lines@) == wanted.take(i - from),
        decreases total - i,
    {
        let line = TextLine::one(view.output[i].as_str(), Tone::Plain);
        assert(view@.output[i as int] == view.output@[i as int]@);
        assert(sight[i - from] == view@.output[i as int]);
        assert(wanted[i - from] == line@);
        add_line(&mut lines, line);
        assert(wanted.take(i + 1 - from) =~= wanted.take(i - from).push(line@));
        i = i + 1;
    }
    assert(wanted.take(i - from) =~= wanted);
    let title = chosen(&view.operation, "Output");
    let chrome = Chrome::titled(Tone::Plain, Span::toned(title.as_str(), Tone::Plain));
    Drawing::Paragraph { area, chrome, lines, wrapping: Wrapping::Wrap }
}

/// The status: how things are, and what became of the configuration.
pub open spec fn status_line(v: ProjectsState) -> Seq<SpanView> {
    let line = seq![
        if v.status_error {
            screen::piece("! "@, Tone::Bad)
        } else {
            screen::piece("· "@, Tone::Good)
        },
        screen::piece(v.status, Tone::Plain),
    ];
    match v.config_status {
        Some(s) => line.push(screen::piece(" ["@ + s + "]"@, Tone::Muted)),
        None => line,
    }
}

/// The status below the panes.
pub open spec fn status_drawn(v: ProjectsState, area: Rect) -> DrawingView {
    DrawingView::Paragraph {
        area,
        chrome: screen::border(Edges::Above, Tone::Plain),
        lines: seq![status_line(v)],
        wrapping: Wrapping::Cut,
    }
}

fn render_status(view: &ProjectsView, area: Rect) -> (r: Drawing)
    ensures
        r@ == status_drawn(view@, area),
{
    let (marker, tone) = if view.status_error {
        ("! ", Tone::Bad)
    } else {
        ("· ", Tone::Good)
    };
    let mut line = TextLine::one(marker, tone).and(view.status.as_str(), Tone::Plain);
    assert(line@ =~= seq![
        screen::piece(marker@, tone),
        screen::piece(view@.status, Tone::Plain),
    ]);
    if let Some(s) = &view.config_status {
        let shown = cat3(" [", s.as_str(), "]");
        line = line.and(shown.as_str(), Tone::Muted);
    }
    assert(line@ == status_line(view@));
    let mut lines: Vec<TextLine> = Vec::new();
    lines.push(line);
    assert(order::views(lines@) =~= seq![status_line(view@)]);
    let chrome = Chrome::bare(Edges::Above, Tone::Plain);
    Drawing::Paragraph { area, chrome, lines, wrapping: Wrapping::Cut }
}

// ---------------------------------------------------------------------------
// The screen
// ---------------------------------------------------------------------------

/// Whether a screen is too small for the projects view.
pub open spec fn too_small(area: Rect) -> bool {
    area.width < 40 || area.height < 5
}

/// What is drawn on a screen that is too small.
pub open spec fn too_small_drawn(area: Rect) -> Seq<DrawingView> {
    seq![
        screen::open_paragraph(
            area,
            seq![seq![screen::piece("terminal too small for Projects"@, Tone::Plain)]],
            Wrapping::Cut,
        ),
    ]
}

impl ProjectsState {
    /// The view in its areas.
    pub open spec fn painted(self, panes: ProjectPanes) -> Seq<DrawingView> {
        with_setup(seq![list_drawn(self, panes.list)], self, panes).push(
            output_drawn(self, panes.output),
        ).push(status_drawn(self, panes.status))
    }
}

impl ProjectsView {
    /// Draws the view in its areas.
    pub fn paint(&self, panes: &ProjectPanes) -> (r: Vec<Drawing>)
        ensures
            order::views(r@) == self@.painted(*panes),
    {
        let mut out: Vec<Drawing> = Vec::new();
        out.push(project_list(self, panes.list));
        assert(order::views(out@) =~= seq![list_drawn(self@, panes.list)]);
        setup(&mut out, self, panes);
        add_drawing(&mut out, render_output(self, panes.output));
        add_drawing(&mut out, render_status(self, panes.status));
        out
    }

    /// Draws the view on a screen, after which there is nothing to draw. A screen
    /// that is too small shows a notice.
    pub fn render(&mut self, area: Rect) -> (r: Vec<Drawing>)
        requires
            area.fits(),
        ensures
            final(self)@ == (ProjectsState { dirty: false, ..old(self)@ }),
            if too_small(area) {
                order::views(r@) == too_small_drawn(area)
            } else {
                exists|panes: ProjectPanes| #[trigger] may_lie(area, panes) && panes.within(area)
                    && order::views(r@) == old(self)@.painted(panes)
            },
    {
        let r = if area.width < 40 || area.height < 5 {
            let mut lines: Vec<TextLine> = Vec::new();
            lines.push(TextLine::one("terminal too small for Projects", Tone::Plain));
            assert(order::views(lines@) =~= seq![
                seq![screen::piece("terminal too small for Projects"@, Tone::Plain)],
            ]);
            let mut out: Vec<Drawing> = Vec::new();
            add_paragraph(&mut out, area, lines, Wrapping::Cut);
            assert(order::views(out@) =~= too_small_drawn(area));
            out
        } else {
            let panes = ProjectPanes::of_screen(area);
            self.paint(&panes)
        };
        self.dirty = false;
        assert(self@ =~= ProjectsState { dirty: false, ..old(self)@ });
        r
    }
}

/// The newest line of the output is in sight, as soon as there is a row for it.
pub proof fn newest_output_is_in_sight(v: ProjectsState, height: nat)
    requires
        v.output.len() > 0,
        height > 2,
    ensures
        output_in_sight(v, height).len() > 0,
        output_in_sight(v, height).last() == v.output.last(),
        output_in_sight(v, height).len() <= height - 2,
{
}

/// The setup shows what is chosen under the names of its four parts, and marks the one that
/// has the focus.
#[verifier::spinoff_prover]
#[verifier::rlimit(60)]
pub proof fn setups_show_what_is_chosen(
    out: Seq<DrawingView>,
    v: ProjectsState,
    panes: ProjectPanes,
    container: crate::project::ContainerView,
    scheme: Seq<char>,
    configuration: Seq<char>,
)
    requires
        v.container == Some(container),
        v.scheme == Some(scheme),
        v.configuration == Some(configuration),
    ensures
        ({
            let all = with_setup(out, v, panes);
            let n = out.len() as int;
            &&& all[n + 1] == field_drawn(
                panes.container,
                "Container"@,
                container.path,
                v.focus == Focus::Container,
            )
            &&& all[n + 2] == field_drawn(
                panes.scheme,
                "Scheme"@,
                scheme,
                v.focus == Focus::Scheme,
            )
            &&& all[n + 3] == field_drawn(
                panes.configuration,
                "Configuration"@,
                configuration,
                v.focus == Focus::Configuration,
            )
            &&& all[n + 4] == field_drawn(
                panes.simulator,
                "Simulator"@,
                simulator_text(v),
                v.focus == Focus::Simulator,
            )
        }),
{
}

/// The status is marked as a failure exactly when it is one, and it is shown in full.
pub proof fn failures_are_marked(v: ProjectsState)
    ensures
        status_line(v)[0].text == "! "@ <==> v.status_error,
        status_line(v)[0].style == Tone::Bad.styled() <==> v.status_error,
        status_line(v)[1].text == v.status,
{
    reveal_strlit("! ");
    reveal_strlit("· ");
    assert("! "@[0] != "· "@[0]);
}

/// Each project that is shown is shown by its name, and the selected one is marked; a
/// project whose lists could not be read says why.
pub proof fn projects_are_shown_by_name(row: RowView, selected: bool)
    ensures
        text::has_part(project_lines(row, selected)[0][0].text, row.project.name),
        project_lines(row, selected)[0][0].text[0] == '›' <==> selected,
        !row.loading && row.error is Some ==> text::has_part(
            project_lines(row, selected)[1][0].text,
            row.error->0,
        ),
        !row.loading && row.error is None ==> text::has_part(
            project_lines(row, selected)[1][0].text,
            row.project.directory,
        ),
{
    reveal_strlit("›");
    reveal_strlit(" ");
    let mark = if selected {
        "›"@
    } else {
        " "@
    };
    ends_are_shown(mark + " "@, row.project.name);
    ends_are_shown("  "@, row.project.directory);
    if let Some(error) = row.error {
        ends_are_shown("  metadata: "@, error);
    }
}

proof fn ends_are_shown(a: Seq<char>, b: Seq<char>)
    ensures
        text::has_part(a + b, b),
{
    assert((a + b).subrange(a.len() as int, (a.len() + b.len()) as int) =~= b);
    assert(text::occurs_at(a + b, b, a.len() as int));
}

/// Each project that passes the filter has an item, in the order of the list, and the title
/// counts them or shows what is typed.
pub proof fn items_are_the_visible_projects(v: ProjectsState, i: int)
    requires
        0 <= i < v.visible().len(),
    ensures
        project_items(v).len() == v.visible().len(),
        project_items(v)[i] == project_lines(v.rows[v.visible()[i]], v.visible()[i] == v.selected),
        v.input matches InputView::Filter(typed) ==> text::has_part(projects_title(v), typed),
        v.input matches InputView::Root(typed) ==> text::has_part(projects_title(v), typed),
        v.input is Normal ==> text::has_part(
            projects_title(v),
            text::decimal(v.visible().len()) + "/"@ + text::decimal(v.rows.len()),
        ),
{
    match v.input {
        InputView::Filter(typed) => {
            middles_are_shown(" Filter: "@, typed, "_ "@);
        },
        InputView::Root(typed) => {
            middles_are_shown(" Add root: "@, typed, "_ "@);
        },
        InputView::Normal => {
            let counts = text::decimal(v.visible().len()) + "/"@ + text::decimal(v.rows.len());
            middles_are_shown(" Projects ("@, counts, ") "@);
            assert(projects_title(v) =~= " Projects ("@ + counts + ") "@);
        },
    }
}

proof fn middles_are_shown(before: Seq<char>, part: Seq<char>, after: Seq<char>)
    ensures
        text::has_part(before + part + after, part),
{
    let all = before + part + after;
    let at = before.len() as int;
    assert(all.subrange(at, at + part.len()) =~= part);
    assert(text::occurs_at(all, part, at));
}

/// The simulator is shown by its name, and as missing when it is not among the devices.
pub proof fn simulators_are_shown_by_name(v: ProjectsState, udid: Seq<char>, d: DeviceView)
    ensures
        v.simulator is None ==> simulator_text(v) == "no simulator"@,
        v.simulator == Some(udid) && device_at(v.devices, udid) == Some(d) ==> text::has_prefix(
            simulator_text(v),
            d.name + " ("@,
        ),
        v.simulator == Some(udid) && (forall|i: int|
            0 <= i < v.devices.len() ==> (#[trigger] v.devices[i]).udid != udid) ==> simulator_text(v)
            == "no simulator"@,
{
    if v.simulator == Some(udid) {
        if device_at(v.devices, udid) == Some(d) {
            let all = simulator_text(v);
            let head = d.name + " ("@;
            assert(all.subrange(0, head.len() as int) =~= head);
        }
        if forall|i: int| 0 <= i < v.devices.len() ==> (#[trigger] v.devices[i]).udid != udid {
            missing_devices_are_not_found(v.devices, udid);
        }
    }
}

proof fn missing_devices_are_not_found(devices: Seq<DeviceView>, udid: Seq<char>)
    requires
        forall|i: int| 0 <= i < devices.len() ==> (#[trigger] devices[i]).udid != udid,
    ensures
        device_at(devices, udid) is None,
    decreases devices.len(),
{
    if devices.len() > 0 {
        let before = devices.drop_last();
        assert forall|i: int| 0 <= i < before.len() implies (#[trigger] before[i]).udid != udid by {
            assert(before[i] == devices[i]);
        }
        missing_devices_are_not_found(before, udid);
        assert(devices[devices.len() - 1].udid != udid);
    }
}

} // verus!
