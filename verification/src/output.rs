//! What a command prints.
//!
//! Every command result goes through [`Output`]. Standard output carries exactly
//! the result: readable text, or one JSON envelope per line. Standard error
//! carries diagnostics only; in JSON mode an error is itself the result.
//!
//! Success: `{"schema":1,"command":"<name>","ok":true,"data":{...}}`
//!
//! Error: `{"schema":1,"command":"<name>","ok":false,"error":{...}}`
use vstd::prelude::*;

use crate::error;
use crate::error::SimtopError;
use crate::json;
use crate::json::{Json, JsonTree};
use crate::model::{
    DeviceLog, DeviceSnapshot, DeviceView, EntryView, LaunchInfo, LaunchView, LogEntry, SimDevice,
    SnapshotView, StateView, SCHEMA_VERSION,
};
use crate::order;
use crate::text;
use crate::text::{
    cat2, cat3, cat4, cat5, cat6, cat7, chars_of, decimal_text, pad_right, rsplit_last, take_chars,
};
use crate::wire;

verus! {

/// The two streams that a command prints to.
#[derive(Debug, Clone, Copy, PartialEq, Eq, Structural)]
pub enum Stream {
    /// Results.
    Stdout,
    /// Diagnostics.
    Stderr,
}

/// Lines to print, each flushed on its own.
#[derive(Debug, PartialEq, Eq)]
pub struct Printed {
    pub stream: Stream,
    pub lines: Vec<String>,
}

/// The content of a [`Printed`].
#[verifier::ext_equal]
pub struct PrintedView {
    pub stream: Stream,
    pub lines: Seq<Seq<char>>,
}

impl View for Printed {
    type V = PrintedView;

    open spec fn view(&self) -> PrintedView {
        PrintedView { stream: self.stream, lines: text::texts(self.lines@) }
    }
}

/// Lines on standard output.
pub open spec fn on_stdout(lines: Seq<Seq<char>>) -> PrintedView {
    PrintedView { stream: Stream::Stdout, lines }
}

fn stdout_line(line: String) -> (r: Printed)
    ensures
        r@ == on_stdout(seq![line@]),
{
    let mut lines: Vec<String> = Vec::new();
    lines.push(line);
    assert(text::texts(lines@) =~= seq![line@]);
    Printed { stream: Stream::Stdout, lines }
}

// ---------------------------------------------------------------------------
// Envelopes
// ---------------------------------------------------------------------------

/// The envelope of a result.
pub open spec fn success_envelope(command: Seq<char>, data: JsonTree) -> JsonTree {
    JsonTree::Object(
        seq![
            ("schema"@, wire::number_tree(SCHEMA_VERSION as u64)),
            ("command"@, JsonTree::Text(command)),
            ("ok"@, JsonTree::Bool(true)),
            ("data"@, data),
        ],
    )
}

/// The envelope of an error.
pub open spec fn error_envelope(command: Seq<char>, e: error::Failure) -> JsonTree {
    JsonTree::Object(
        seq![
            ("schema"@, wire::number_tree(SCHEMA_VERSION as u64)),
            ("command"@, JsonTree::Text(command)),
            ("ok"@, JsonTree::Bool(false)),
            ("error"@, wire::report_tree(e)),
        ],
    )
}

fn envelope(command: &str, ok: bool, key: &str, payload: Json) -> (r: Json)
    ensures
        r@ == JsonTree::Object(
            seq![
                ("schema"@, wire::number_tree(SCHEMA_VERSION as u64)),
                ("command"@, JsonTree::Text(command@)),
                ("ok"@, JsonTree::Bool(ok)),
                (key@, payload@),
            ],
        ),
{
    broadcast use json::tree_parts;

    let mut v: Vec<(String, Json)> = Vec::new();
    v.push(("schema".to_owned(), Json::Number(Some(SCHEMA_VERSION as u64))));
    v.push(("command".to_owned(), Json::Text(command.to_owned())));
    v.push(("ok".to_owned(), Json::Bool(ok)));
    v.push((key.to_owned(), payload));
    let r = Json::Object(v);
    assert(r@->Object_0 =~= seq![
        ("schema"@, wire::number_tree(SCHEMA_VERSION as u64)),
        ("command"@, JsonTree::Text(command@)),
        ("ok"@, JsonTree::Bool(ok)),
        (key@, payload@),
    ]);
    r
}

/// The envelope of a result, as a document.
pub fn success_json(command: &str, data: Json) -> (r: Json)
    ensures
        r@ == success_envelope(command@, data@),
{
    envelope(command, true, "data", data)
}

/// The envelope of an error, as a document.
pub fn error_json(command: &str, err: &SimtopError) -> (r: Json)
    ensures
        r@ == error_envelope(command@, err@),
{
    let report = err.report();
    assert(report.reports(err@));
    envelope(command, false, "error", report.to_json())
}

/// A result on standard output, as one envelope.
pub open spec fn emitted(command: Seq<char>, data: JsonTree) -> PrintedView {
    on_stdout(seq![json::compact(success_envelope(command, data))])
}

/// One text under its name.
pub open spec fn one_text(name: Seq<char>, value: Seq<char>) -> JsonTree {
    JsonTree::Object(seq![(name, JsonTree::Text(value))])
}

/// Two texts under their names.
pub open spec fn two_texts(
    first: Seq<char>,
    value: Seq<char>,
    second: Seq<char>,
    other: Seq<char>,
) -> JsonTree {
    JsonTree::Object(seq![(first, JsonTree::Text(value)), (second, JsonTree::Text(other))])
}

fn one_text_json(name: &str, value: &str) -> (r: Json)
    ensures
        r@ == one_text(name@, value@),
{
    broadcast use json::tree_parts;

    let mut v: Vec<(String, Json)> = Vec::new();
    v.push((name.to_owned(), Json::Text(value.to_owned())));
    let r = Json::Object(v);
    assert(r@->Object_0 =~= one_text(name@, value@)->Object_0);
    r
}

fn two_texts_json(first: &str, value: &str, second: &str, other: &str) -> (r: Json)
    ensures
        r@ == two_texts(first@, value@, second@, other@),
{
    broadcast use json::tree_parts;

    let mut v: Vec<(String, Json)> = Vec::new();
    v.push((first.to_owned(), Json::Text(value.to_owned())));
    v.push((second.to_owned(), Json::Text(other.to_owned())));
    let r = Json::Object(v);
    assert(r@->Object_0 =~= two_texts(first@, value@, second@, other@)->Object_0);
    r
}

// ---------------------------------------------------------------------------
// The device table
// ---------------------------------------------------------------------------

/// A text cut to `max` characters, with dots in place of what is missing.
pub open spec fn truncated(s: Seq<char>, max: nat) -> Seq<char> {
    if s.len() <= max {
        s
    } else if max >= 3 {
        s.take(max - 3) + "..."@
    } else {
        "..."@
    }
}

/// A text cut to `max` characters, with dots in place of what is missing.
pub fn truncate(s: &str, max: usize) -> (r: String)
    ensures
        r@ == truncated(s@, max as nat),
{
    let total = chars_of(s).len();
    if total <= max {
        s.to_owned()
    } else {
        let keep: usize = if max >= 3 {
            max - 3
        } else {
            0
        };
        let cut = take_chars(s, keep);
        let r = cat2(cut.as_str(), "...");
        assert(r@ =~= truncated(s@, max as nat));
        r
    }
}

/// The cells of a row: state, name, UDID, OS version and device type.
#[verifier::ext_equal]
pub struct RowView {
    pub state: Seq<char>,
    pub name: Seq<char>,
    pub udid: Seq<char>,
    pub os: Seq<char>,
    pub kind: Seq<char>,
}

#[derive(Debug)]
struct Row {
    state: String,
    name: String,
    udid: String,
    os: String,
    kind: String,
}

impl View for Row {
    type V = RowView;

    closed spec fn view(&self) -> RowView {
        RowView {
            state: self.state@,
            name: self.name@,
            udid: self.udid@,
            os: self.os@,
            kind: self.kind@,
        }
    }
}

/// The row of a device. The name of one that cannot be used says so, and of the
/// device type only what follows the last dot is shown.
pub open spec fn row_of(d: DeviceView) -> RowView {
    RowView {
        state: d.state.shown(),
        name: if d.is_available {
            d.name
        } else {
            d.name + " (unavailable)"@
        },
        udid: d.udid,
        os: d.os_version,
        kind: text::after_last(d.device_type, '.'),
    }
}

fn device_row(d: &SimDevice) -> (r: Row)
    ensures
        r@ == row_of(d@),
{
    let name = if d.is_available {
        d.name.clone()
    } else {
        cat2(d.name.as_str(), " (unavailable)")
    };
    Row {
        state: d.state.to_string(),
        name,
        udid: d.udid.clone(),
        os: d.os_version.clone(),
        kind: rsplit_last(d.device_type.as_str(), '.'),
    }
}

/// A row with its long cells cut.
pub open spec fn bounded_row(row: RowView) -> RowView {
    RowView {
        state: truncated(row.state, 16),
        name: truncated(row.name, 48),
        udid: row.udid,
        os: truncated(row.os, 16),
        kind: truncated(row.kind, 40),
    }
}

fn bound_row(row: Row) -> (r: Row)
    ensures
        r@ == bounded_row(row@),
{
    Row {
        state: truncate(row.state.as_str(), 16),
        name: truncate(row.name.as_str(), 48),
        udid: row.udid,
        os: truncate(row.os.as_str(), 16),
        kind: truncate(row.kind.as_str(), 40),
    }
}

/// The rows of devices, with their long cells cut.
pub open spec fn rows_of(devices: Seq<DeviceView>) -> Seq<RowView> {
    devices.map_values(|d: DeviceView| bounded_row(row_of(d)))
}

/// The widths of the columns that follow their content.
#[verifier::ext_equal]
pub struct Widths {
    pub state: nat,
    pub name: nat,
    pub os: nat,
    pub kind: nat,
}

/// The larger of two numbers.
pub open spec fn larger(a: nat, b: nat) -> nat {
    if a >= b {
        a
    } else {
        b
    }
}

/// The widths of the columns: of each column its longest cell, or its least
/// width.
pub open spec fn widths_of(rows: Seq<RowView>) -> Widths
    decreases rows.len(),
{
    if rows.len() == 0 {
        Widths { state: 5, name: 4, os: 2, kind: 4 }
    } else {
        let rest = widths_of(rows.drop_last());
        let row = rows.last();
        Widths {
            state: larger(rest.state, row.state.len()),
            name: larger(rest.name, row.name.len()),
            os: larger(rest.os, row.os.len()),
            kind: larger(rest.kind, row.kind.len()),
        }
    }
}

/// How many characters a line of the table has at most: those of its columns and
/// of the gaps between them.
pub const MAX_TABLE_COLUMNS: usize = 164;

/// A line of the table.
pub open spec fn table_line(row: RowView, w: Widths) -> Seq<char> {
    text::padded(row.state, w.state) + "  "@ + text::padded(row.name, w.name) + "  "@
        + text::padded(row.udid, 36) + "  "@ + text::padded(row.os, w.os) + "  "@ + text::padded(
        row.kind,
        w.kind,
    ) + "\n"@
}

/// The headings of the columns.
pub open spec fn headings() -> RowView {
    RowView { state: "STATE"@, name: "NAME"@, udid: "UDID"@, os: "OS"@, kind: "TYPE"@ }
}

/// The lines of the table below its headings.
pub open spec fn table_body(rows: Seq<RowView>, w: Widths) -> Seq<char>
    decreases rows.len(),
{
    if rows.len() == 0 {
        Seq::empty()
    } else {
        table_body(rows.drop_last(), w) + table_line(rows.last(), w)
    }
}

/// The table of devices.
pub open spec fn table(devices: Seq<DeviceView>) -> Seq<char> {
    if devices.len() == 0 {
        "(no simulators)"@
    } else {
        let rows = rows_of(devices);
        table_line(headings(), widths_of(rows)) + table_body(rows, widths_of(rows))
    }
}

struct ColumnWidths {
    state: usize,
    name: usize,
    os: usize,
    kind: usize,
}

impl View for ColumnWidths {
    type V = Widths;

    closed spec fn view(&self) -> Widths {
        Widths {
            state: self.state as nat,
            name: self.name as nat,
            os: self.os as nat,
            kind: self.kind as nat,
        }
    }
}

fn larger_of(a: usize, b: usize) -> (r: usize)
    ensures
        r == larger(a as nat, b as nat),
{
    if a >= b {
        a
    } else {
        b
    }
}

fn column_widths(rows: &Vec<Row>) -> (r: ColumnWidths)
    ensures
        r@ == widths_of(order::views(rows@)),
{
    let ghost all = order::views(rows@);
    let mut w = ColumnWidths { state: 5, name: 4, os: 2, kind: 4 };
    let mut i: usize = 0;
    assert(all.take(0) =~= Seq::empty());
    while i < rows.len()
        invariant
            i <= rows@.len(),
            all == order::views(rows@),
            w@ == widths_of(all.take(i as int)),
        decreases rows@.len() - i,
    {
        assert(all.take(i + 1).drop_last() =~= all.take(i as int));
        assert(all.take(i + 1).last() == rows@[i as int]@);
        let row = &rows[i];
        w = ColumnWidths {
            state: larger_of(w.state, chars_of(row.state.as_str()).len()),
            name: larger_of(w.name, chars_of(row.name.as_str()).len()),
            os: larger_of(w.os, chars_of(row.os.as_str()).len()),
            kind: larger_of(w.kind, chars_of(row.kind.as_str()).len()),
        };
        i = i + 1;
    }
    assert(all.take(i as int) =~= all);
    w
}

fn write_line(
    state: &str,
    name: &str,
    udid: &str,
    os: &str,
    kind: &str,
    w: &ColumnWidths,
) -> (r: String)
    ensures
        r@ == table_line(
            (RowView { state: state@, name: name@, udid: udid@, os: os@, kind: kind@ }),
            w@,
        ),
{
    let a = pad_right(state, w.state);
    let b = pad_right(name, w.name);
    let c = pad_right(udid, 36);
    let d = pad_right(os, w.os);
    let e = pad_right(kind, w.kind);
    let front = cat5(a.as_str(), "  ", b.as_str(), "  ", c.as_str());
    let r = cat6(front.as_str(), "  ", d.as_str(), "  ", e.as_str(), "\n");
    assert(r@ =~= table_line(
        RowView { state: state@, name: name@, udid: udid@, os: os@, kind: kind@ },
        w@,
    ));
    r
}

/// The table of devices. Long cells are cut and columns follow what is left of
/// them, so that lines stay bounded.
pub fn render_table(devices: &Vec<SimDevice>) -> (r: String)
    ensures
        r@ == table(order::views(devices@)),
{
    if devices.len() == 0 {
        return "(no simulators)".to_owned();
    }
    let ghost all = rows_of(order::views(devices@));
    let mut rows: Vec<Row> = Vec::new();
    let mut i: usize = 0;
    assert(order::views(rows@) =~= all.take(0));
    while i < devices.len()
        invariant
            i <= devices@.len(),
            all == rows_of(order::views(devices@)),
            order::views(rows@) == all.take(i as int),
        decreases devices@.len() - i,
    {
        let ghost before = rows@;
        let row = bound_row(device_row(&devices[i]));
        assert(row@ == all[i as int]);
        rows.push(row);
        assert(order::views(rows@) =~= order::views(before).push(row@));
        assert(all.take(i + 1) =~= all.take(i as int).push(all[i as int]));
        i = i + 1;
    }
    assert(all.take(i as int) =~= all);
    let w = column_widths(&rows);
    let mut out = write_line("STATE", "NAME", "UDID", "OS", "TYPE", &w);
    let ghost head = out@;
    let mut k: usize = 0;
    assert(all.take(0) =~= Seq::empty());
    assert(head + table_body(all.take(0), w@) =~= head);
    while k < rows.len()
        invariant
            k <= rows@.len(),
            all == order::views(rows@),
            out@ == head + table_body(all.take(k as int), w@),
        decreases rows@.len() - k,
    {
        assert(all.take(k + 1).drop_last() =~= all.take(k as int));
        assert(all.take(k + 1).last() == rows@[k as int]@);
        let row = &rows[k];
        let line = write_line(
            row.state.as_str(),
            row.name.as_str(),
            row.udid.as_str(),
            row.os.as_str(),
            row.kind.as_str(),
            &w,
        );
        out = cat2(out.as_str(), line.as_str());
        assert(out@ =~= head + table_body(all.take(k + 1), w@));
        k = k + 1;
    }
    assert(all.take(k as int) =~= all);
    out
}

proof fn widths_are_bounded(rows: Seq<RowView>)
    requires
        forall|i: int|
            0 <= i < rows.len() ==> (#[trigger] rows[i]).state.len() <= 16 && rows[i].name.len()
                <= 48 && rows[i].os.len() <= 16 && rows[i].kind.len() <= 40,
    ensures
        5 <= widths_of(rows).state <= 16,
        4 <= widths_of(rows).name <= 48,
        2 <= widths_of(rows).os <= 16,
        4 <= widths_of(rows).kind <= 40,
    decreases rows.len(),
{
    if rows.len() > 0 {
        assert forall|i: int| 0 <= i < rows.drop_last().len() implies (
        #[trigger] rows.drop_last()[i]).state.len() <= 16 && rows.drop_last()[i].name.len() <= 48
            && rows.drop_last()[i].os.len() <= 16 && rows.drop_last()[i].kind.len() <= 40 by {
            assert(rows.drop_last()[i] == rows[i]);
        }
        widths_are_bounded(rows.drop_last());
        assert(rows.last() == rows[rows.len() - 1]);
    }
}

proof fn line_is_bounded(row: RowView, w: Widths)
    requires
        row.state.len() <= 16,
        row.name.len() <= 48,
        row.udid.len() <= 36,
        row.os.len() <= 16,
        row.kind.len() <= 40,
        w.state <= 16,
        w.name <= 48,
        w.os <= 16,
        w.kind <= 40,
    ensures
        table_line(row, w).len() <= MAX_TABLE_COLUMNS + 1,
        table_line(row, w).last() == '\n',
{
    reveal_strlit("  ");
    reveal_strlit("\n");
}

proof fn body_is_bounded(rows: Seq<RowView>, w: Widths, head: Seq<char>)
    requires
        head.len() > 0,
        head.last() == '\n',
        text::unbroken_within(head, MAX_TABLE_COLUMNS as nat),
        w.state <= 16,
        w.name <= 48,
        w.os <= 16,
        w.kind <= 40,
        forall|i: int|
            0 <= i < rows.len() ==> (#[trigger] rows[i]).state.len() <= 16 && rows[i].name.len()
                <= 48 && rows[i].udid.len() <= 36 && rows[i].os.len() <= 16 && rows[i].kind.len()
                <= 40,
    ensures
        (head + table_body(rows, w)).last() == '\n',
        text::unbroken_within(head + table_body(rows, w), MAX_TABLE_COLUMNS as nat),
    decreases rows.len(),
{
    if rows.len() > 0 {
        let before = rows.drop_last();
        assert forall|i: int| 0 <= i < before.len() implies (#[trigger] before[i]).state.len() <= 16
            && before[i].name.len() <= 48 && before[i].udid.len() <= 36 && before[i].os.len() <= 16
            && before[i].kind.len() <= 40 by {
            assert(before[i] == rows[i]);
        }
        body_is_bounded(before, w, head);
        assert(rows.last() == rows[rows.len() - 1]);
        let line = table_line(rows.last(), w);
        line_is_bounded(rows.last(), w);
        text::unbroken_after_a_line(
            head + table_body(before, w),
            line,
            MAX_TABLE_COLUMNS as nat,
        );
        assert(head + table_body(rows, w) =~= head + table_body(before, w) + line);
    } else {
        assert(head + table_body(rows, w) =~= head);
    }
}

/// The lines of the table are bounded, whatever the devices are called, as long as
/// their UDIDs have the length of a UUID at most.
pub proof fn table_lines_are_bounded(devices: Seq<DeviceView>)
    requires
        forall|i: int| 0 <= i < devices.len() ==> (#[trigger] devices[i]).udid.len() <= 36,
    ensures
        forall|i: int|
            0 <= i < text::lines_of(table(devices)).len() ==> (#[trigger] text::lines_of(
                table(devices),
            )[i]).len() <= MAX_TABLE_COLUMNS,
{
    reveal_strlit("(no simulators)");
    reveal_strlit("...");
    if devices.len() > 0 {
        let rows = rows_of(devices);
        let w = widths_of(rows);
        assert forall|i: int| 0 <= i < rows.len() implies (#[trigger] rows[i]).state.len() <= 16
            && rows[i].name.len() <= 48 && rows[i].udid.len() <= 36 && rows[i].os.len() <= 16
            && rows[i].kind.len() <= 40 by {
            assert(rows[i] == bounded_row(row_of(devices[i])));
        }
        widths_are_bounded(rows);
        reveal_strlit("STATE");
        reveal_strlit("NAME");
        reveal_strlit("UDID");
        reveal_strlit("OS");
        reveal_strlit("TYPE");
        let head = table_line(headings(), w);
        line_is_bounded(headings(), w);
        text::unbroken_after_a_line(Seq::empty(), head, MAX_TABLE_COLUMNS as nat);
        assert(Seq::empty() + head =~= head);
        body_is_bounded(rows, w, head);
    }
    text::lines_are_unbroken(table(devices), MAX_TABLE_COLUMNS as nat);
}

proof fn body_holds_each_line(rows: Seq<RowView>, w: Widths, i: int)
    requires
        0 <= i < rows.len(),
    ensures
        text::has_part(table_body(rows, w), table_line(rows[i], w)),
    decreases rows.len(),
{
    let before = table_body(rows.drop_last(), w);
    let line = table_line(rows[i], w);
    let all = table_body(rows, w);
    if i == rows.len() - 1 {
        assert(all.subrange(before.len() as int, (before.len() + line.len()) as int) =~= line);
        assert(text::occurs_at(all, line, before.len() as int));
    } else {
        body_holds_each_line(rows.drop_last(), w, i);
        let at = choose|at: int| text::occurs_at(before, line, at);
        assert(all.subrange(at, at + line.len()) =~= before.subrange(at, at + line.len()));
        assert(text::occurs_at(all, line, at));
    }
}

proof fn cells_fit_their_columns(rows: Seq<RowView>, i: int)
    requires
        0 <= i < rows.len(),
    ensures
        rows[i].state.len() <= widths_of(rows).state,
        rows[i].name.len() <= widths_of(rows).name,
        rows[i].os.len() <= widths_of(rows).os,
        rows[i].kind.len() <= widths_of(rows).kind,
        widths_of(rows).state >= 5,
        widths_of(rows).name >= 4,
        widths_of(rows).os >= 2,
        widths_of(rows).kind >= 4,
    decreases rows.len(),
{
    if i < rows.len() - 1 {
        cells_fit_their_columns(rows.drop_last(), i);
    } else if rows.len() > 1 {
        cells_fit_their_columns(rows.drop_last(), 0);
    } else {
        assert(widths_of(rows.drop_last()).state == 5);
    }
}

/// The line of a device in the table of `devices`.
pub open spec fn device_line(devices: Seq<DeviceView>, i: int) -> Seq<char> {
    table_line(rows_of(devices)[i], widths_of(rows_of(devices)))
}

/// The column in which names start in the table of `devices`.
pub open spec fn name_column(devices: Seq<DeviceView>) -> int {
    2int + widths_of(rows_of(devices)).state
}

/// The column in which UDIDs start in the table of `devices`.
pub open spec fn udid_column(devices: Seq<DeviceView>) -> int {
    name_column(devices) + widths_of(rows_of(devices)).name + 2
}

/// The table has a line for each device. In it the device's name stands in the column
/// of the names, and it is followed by the mark of an unavailable device exactly when
/// the device is not available, as long as name and mark fit the column.
pub proof fn unavailable_devices_are_marked(devices: Seq<DeviceView>, i: int)
    requires
        0 <= i < devices.len(),
        devices[i].name.len() + " (unavailable)"@.len() <= 48,
    ensures
        text::has_part(table(devices), device_line(devices, i)),
        text::occurs_at(device_line(devices, i), devices[i].name, name_column(devices)),
        text::occurs_at(
            device_line(devices, i),
            devices[i].name + " (unavailable)"@,
            name_column(devices),
        ) <==> !devices[i].is_available,
{
    reveal_strlit(" (unavailable)");
    let rows = rows_of(devices);
    let d = devices[i];
    let line = device_line(devices, i);
    let at = name_column(devices);
    let row = bounded_row(row_of(d));
    let marked = d.name + " (unavailable)"@;
    let n = d.name.len() as int;
    table_has_each_line(devices, i);
    assert(rows[i] == row);
    cells_fit_their_columns(rows, i);
    cells_stand_in_their_columns(row, widths_of(rows));
    gaps_follow_names(row, widths_of(rows));
    if d.is_available {
        assert(row.name == d.name);
        if text::occurs_at(line, marked, at) {
            assert(line.subrange(at, at + marked.len())[n + 1] == marked[n + 1]);
        }
    } else {
        assert(row.name == marked);
        assert(line.subrange(at, at + n) =~= line.subrange(at, at + marked.len()).take(n));
        assert(marked.take(n) =~= d.name);
    }
}

proof fn gaps_follow_names(row: RowView, w: Widths)
    requires
        row.state.len() <= w.state,
        row.name.len() <= w.name,
    ensures
        table_line(row, w)[2int + w.state + row.name.len() + 1] == ' ',
{
    reveal_strlit("  ");
    let front = text::padded(row.state, w.state) + "  "@;
    let name = text::padded(row.name, w.name) + "  "@;
    assert(name[1int + row.name.len()] == ' ');
    assert((front + name)[1int + front.len() + row.name.len()] == ' ');
    assert(text::padded(row.state, w.state) + "  "@ + text::padded(row.name, w.name) + "  "@
        =~= front + name);
}

proof fn table_has_each_line(devices: Seq<DeviceView>, i: int)
    requires
        0 <= i < devices.len(),
    ensures
        text::has_part(table(devices), device_line(devices, i)),
{
    let rows = rows_of(devices);
    let w = widths_of(rows);
    let head = table_line(headings(), w);
    let body = table_body(rows, w);
    let line = device_line(devices, i);
    body_holds_each_line(rows, w, i);
    let at = choose|at: int| text::occurs_at(body, line, at);
    assert(table(devices).subrange(head.len() + at, head.len() + at + line.len())
        =~= body.subrange(at, at + line.len()));
    assert(text::occurs_at(table(devices), line, head.len() + at));
}

/// The columns of the table line up: under the headings STATE, NAME and UDID stand the
/// state, the name and the UDID of each device. Devices whose UDIDs have the length of
/// a UUID at most have their OS version and the last part of their device type under
/// OS and TYPE too. What is too long for its column is cut.
pub proof fn columns_stand_under_their_headings(devices: Seq<DeviceView>, i: int)
    requires
        0 <= i < devices.len(),
    ensures
        text::has_prefix(table(devices), "STATE"@),
        text::occurs_at(table(devices), "NAME"@, name_column(devices)),
        text::occurs_at(table(devices), "UDID"@, udid_column(devices)),
        text::occurs_at(table(devices), "OS"@, udid_column(devices) + 38),
        text::has_prefix(
            device_line(devices, i),
            truncated(
                match devices[i].state {
                    StateView::Booted => "Booted"@,
                    StateView::Booting => "Booting"@,
                    StateView::ShuttingDown => "Shutting Down"@,
                    StateView::Shutdown => "Shutdown"@,
                    StateView::Creating => "Creating"@,
                    StateView::Unknown(raw) => raw,
                },
                16,
            ),
        ),
        text::occurs_at(device_line(devices, i), devices[i].udid, udid_column(devices)),
        devices[i].udid.len() <= 36 ==> text::occurs_at(
            device_line(devices, i),
            truncated(devices[i].os_version, 16),
            udid_column(devices) + 38,
        ),
        devices[i].udid.len() <= 36 ==> text::occurs_at(
            device_line(devices, i),
            truncated(text::after_last(devices[i].device_type, '.'), 40),
            udid_column(devices) + 38 + widths_of(rows_of(devices)).os + 2,
        ),
{
    reveal_strlit("  ");
    reveal_strlit("STATE");
    reveal_strlit("NAME");
    reveal_strlit("UDID");
    reveal_strlit("OS");
    reveal_strlit("TYPE");
    let rows = rows_of(devices);
    let w = widths_of(rows);
    let line = device_line(devices, i);
    cells_fit_their_columns(rows, i);
    let row = bounded_row(row_of(devices[i]));
    assert(rows[i] == row);
    cells_stand_in_their_columns(row, w);
    cells_stand_in_their_columns(headings(), w);
    let head = table_line(headings(), w);
    let all = table(devices);
    assert forall|part: Seq<char>, at: int| #[trigger] text::occurs_at(head, part, at) implies text::occurs_at(
        all,
        part,
        at,
    ) by {
        assert(all.subrange(at, at + part.len()) =~= head.subrange(at, at + part.len()));
    }
}

proof fn cells_stand_in_their_columns(row: RowView, w: Widths)
    requires
        row.state.len() <= w.state,
        row.name.len() <= w.name,
        row.os.len() <= w.os,
        row.kind.len() <= w.kind,
    ensures
        text::has_prefix(table_line(row, w), row.state),
        text::occurs_at(table_line(row, w), row.name, 2int + w.state),
        text::occurs_at(table_line(row, w), row.udid, 2int + w.state + w.name + 2),
        row.udid.len() <= 36 ==> text::occurs_at(
            table_line(row, w),
            row.os,
            2int + w.state + w.name + 2 + 38,
        ),
        row.udid.len() <= 36 ==> text::occurs_at(
            table_line(row, w),
            row.kind,
            2int + w.state + w.name + 2 + 38 + w.os + 2,
        ),
{
    reveal_strlit("  ");
    let line = table_line(row, w);
    assert(line.subrange(0, row.state.len() as int) =~= row.state);
    let names = 2int + w.state;
    assert(line.subrange(names, names + row.name.len()) =~= row.name);
    let udids = names + w.name + 2;
    assert(line.subrange(udids, udids + row.udid.len()) =~= row.udid);
    if row.udid.len() <= 36 {
        let versions = udids + 38;
        assert(line.subrange(versions, versions + row.os.len()) =~= row.os);
        let kinds = versions + w.os + 2;
        assert(line.subrange(kinds, kinds + row.kind.len()) =~= row.kind);
    }
}

/// A cut text has the length it was cut to, begins as the text does and ends in three
/// dots; a text that is short enough stays as it is.
pub proof fn cut_texts_show_that_they_are_cut(s: Seq<char>, max: nat)
    requires
        max >= 3,
    ensures
        s.len() <= max ==> truncated(s, max) == s,
        s.len() > max ==> {
            &&& truncated(s, max).len() == max
            &&& truncated(s, max).take(max - 3) == s.take(max - 3)
            &&& truncated(s, max).skip(max - 3) == seq!['.', '.', '.']
        },
{
    reveal_strlit("...");
    if s.len() > max {
        assert(truncated(s, max).take(max - 3) =~= s.take(max - 3));
        assert(truncated(s, max).skip(max - 3) =~= seq!['.', '.', '.']);
    }
}

// ---------------------------------------------------------------------------
// Log entries
// ---------------------------------------------------------------------------

/// A log entry as a line: process and process id are left out when unknown.
pub open spec fn entry_line(e: EntryView) -> Seq<char> {
    match (e.process.len() == 0, e.pid) {
        (true, None) => e.timestamp + " "@ + e.message,
        (true, Some(pid)) => e.timestamp + " ["@ + text::decimal(pid as nat) + "] "@ + e.message,
        (false, None) => e.timestamp + " "@ + e.process + " "@ + e.message,
        (false, Some(pid)) => e.timestamp + " "@ + e.process + "["@ + text::decimal(pid as nat)
            + "] "@ + e.message,
    }
}

/// A log entry as a line.
pub fn render_log_entry(entry: &LogEntry) -> (r: String)
    ensures
        r@ == entry_line(entry@),
{
    let timestamp = entry.timestamp.as_str();
    let process = entry.process.as_str();
    let message = entry.message.as_str();
    match entry.pid {
        None => if process.is_empty() {
            cat3(timestamp, " ", message)
        } else {
            cat5(timestamp, " ", process, " ", message)
        },
        Some(pid) => {
            let number = decimal_text(pid as u64);
            if process.is_empty() {
                cat5(timestamp, " [", number.as_str(), "] ", message)
            } else {
                cat7(timestamp, " ", process, "[", number.as_str(), "] ", message)
            }
        },
    }
}

/// Log entries on standard output, one a line.
pub open spec fn entry_lines(entries: Seq<EntryView>) -> PrintedView {
    on_stdout(entries.map_values(|e: EntryView| entry_line(e)))
}

fn print_entries(entries: &Vec<LogEntry>) -> (r: Printed)
    ensures
        r@ == entry_lines(order::views(entries@)),
{
    let ghost all = order::views(entries@).map_values(|e: EntryView| entry_line(e));
    let mut lines: Vec<String> = Vec::new();
    let mut i: usize = 0;
    assert(text::texts(lines@) =~= all.take(0));
    while i < entries.len()
        invariant
            i <= entries@.len(),
            all == order::views(entries@).map_values(|e: EntryView| entry_line(e)),
            text::texts(lines@) == all.take(i as int),
        decreases entries@.len() - i,
    {
        let ghost before = lines@;
        let line = render_log_entry(&entries[i]);
        assert(line@ == all[i as int]);
        lines.push(line);
        assert(text::texts(lines@) =~= text::texts(before).push(line@));
        assert(all.take(i + 1) =~= all.take(i as int).push(all[i as int]));
        i = i + 1;
    }
    assert(all.take(i as int) =~= all);
    Printed { stream: Stream::Stdout, lines }
}

// ---------------------------------------------------------------------------
// Results
// ---------------------------------------------------------------------------

/// The banner above a refreshed table.
pub open spec fn banner(snap: SnapshotView) -> Seq<char> {
    "== generation "@ + text::decimal(snap.generation as nat) + " @ "@ + snap.timestamp + " =="@
}

/// How a launch is reported.
pub open spec fn launch_line(info: LaunchView) -> Seq<char> {
    match info.pid {
        Some(pid) => "Launched "@ + info.bundle_id + " on "@ + info.udid + " (pid "@
            + text::decimal(pid as nat) + ")"@,
        None => "Launched "@ + info.bundle_id + " on "@ + info.udid,
    }
}

/// Formatter for command results.
#[derive(Debug)]
pub struct Output {
    json: bool,
}

impl Output {
    /// Whether results are JSON.
    pub closed spec fn in_json(&self) -> bool {
        self.json
    }

    /// A formatter for readable text, or for JSON.
    pub fn new(json: bool) -> (r: Self)
        ensures
            r.in_json() == json,
    {
        Output { json }
    }

    /// Whether results are JSON.
    pub fn is_json(&self) -> (r: bool)
        ensures
            r == self.in_json(),
    {
        self.json
    }

    fn emit(&self, command: &str, data: Json) -> (r: Printed)
        ensures
            r@ == emitted(command@, data@),
    {
        stdout_line(success_json(command, data).to_text())
    }

    /// A snapshot of the devices. JSON: one envelope with the whole snapshot.
    /// Text: a table, with a banner above it when `header` is set.
    pub fn snapshot(&self, command: &str, snap: &DeviceSnapshot, header: bool) -> (r: Printed)
        ensures
            r@ == if self.in_json() {
                emitted(command@, snap@.tree())
            } else if header {
                on_stdout(seq![banner(snap@), table(snap@.devices)])
            } else {
                on_stdout(seq![table(snap@.devices)])
            },
    {
        if self.json {
            return self.emit(command, snap.to_json());
        }
        let mut lines: Vec<String> = Vec::new();
        if header {
            let generation = decimal_text(snap.generation);
            lines.push(
                cat5(
                    "== generation ",
                    generation.as_str(),
                    " @ ",
                    snap.timestamp.as_str(),
                    " ==",
                ),
            );
        }
        lines.push(render_table(&snap.devices));
        assert(text::texts(lines@) =~= if header {
            seq![banner(snap@), table(snap@.devices)]
        } else {
            seq![table(snap@.devices)]
        });
        Printed { stream: Stream::Stdout, lines }
    }

    /// A result about a device.
    pub fn udid_result(&self, command: &str, udid: &str, human: String) -> (r: Printed)
        ensures
            r@ == if self.in_json() {
                emitted(command@, one_text("udid"@, udid@))
            } else {
                on_stdout(seq![human@])
            },
    {
        if self.json {
            self.emit(command, one_text_json("udid", udid))
        } else {
            stdout_line(human)
        }
    }

    /// A result about an app on a device.
    pub fn bundle_result(&self, command: &str, udid: &str, bundle_id: &str, human: String) -> (r:
        Printed)
        ensures
            r@ == if self.in_json() {
                emitted(command@, two_texts("udid"@, udid@, "bundle_id"@, bundle_id@))
            } else {
                on_stdout(seq![human@])
            },
    {
        if self.json {
            self.emit(command, two_texts_json("udid", udid, "bundle_id", bundle_id))
        } else {
            stdout_line(human)
        }
    }

    /// The result of an installation.
    pub fn install_result(&self, command: &str, udid: &str, app_path: &str, human: String) -> (r:
        Printed)
        ensures
            r@ == if self.in_json() {
                emitted(command@, two_texts("udid"@, udid@, "app_path"@, app_path@))
            } else {
                on_stdout(seq![human@])
            },
    {
        if self.json {
            self.emit(command, two_texts_json("udid", udid, "app_path", app_path))
        } else {
            stdout_line(human)
        }
    }

    /// The result of opening a URL.
    pub fn url_result(&self, command: &str, udid: &str, url: &str, human: String) -> (r: Printed)
        ensures
            r@ == if self.in_json() {
                emitted(command@, two_texts("udid"@, udid@, "url"@, url@))
            } else {
                on_stdout(seq![human@])
            },
    {
        if self.json {
            self.emit(command, two_texts_json("udid", udid, "url", url))
        } else {
            stdout_line(human)
        }
    }

    /// The result of a screenshot.
    pub fn screenshot_result(&self, command: &str, udid: &str, path: &str, human: String) -> (r:
        Printed)
        ensures
            r@ == if self.in_json() {
                emitted(command@, two_texts("udid"@, udid@, "path"@, path@))
            } else {
                on_stdout(seq![human@])
            },
    {
        if self.json {
            self.emit(command, two_texts_json("udid", udid, "path", path))
        } else {
            stdout_line(human)
        }
    }

    /// A device that was created.
    pub fn created(&self, device: &SimDevice) -> (r: Printed)
        ensures
            r@ == if self.in_json() {
                emitted("create"@, device@.tree())
            } else {
                on_stdout(seq!["Created "@ + device@.name + " ("@ + device@.udid + ")"@])
            },
    {
        if self.json {
            self.emit("create", device.to_json())
        } else {
            stdout_line(
                cat5("Created ", device.name.as_str(), " (", device.udid.as_str(), ")"),
            )
        }
    }

    /// An app that was launched.
    pub fn launched(&self, info: &LaunchInfo) -> (r: Printed)
        ensures
            r@ == if self.in_json() {
                emitted("app launch"@, info@.tree())
            } else {
                on_stdout(seq![launch_line(info@)])
            },
    {
        if self.json {
            return self.emit("app launch", info.to_json());
        }
        let head = cat4("Launched ", info.bundle_id.as_str(), " on ", info.udid.as_str());
        match info.pid {
            Some(pid) => {
                let number = decimal_text(pid as u64);
                let line = cat4(head.as_str(), " (pid ", number.as_str(), ")");
                assert(line@ =~= launch_line(info@));
                stdout_line(line)
            },
            None => {
                assert(head@ =~= launch_line(info@));
                stdout_line(head)
            },
        }
    }

    /// The log of a device.
    pub fn log(&self, command: &str, log: &DeviceLog) -> (r: Printed)
        ensures
            r@ == if self.in_json() {
                emitted(command@, log@.tree())
            } else {
                entry_lines(log@.entries)
            },
    {
        if self.json {
            self.emit(command, log.to_json())
        } else {
            print_entries(&log.entries)
        }
    }

    /// How new log entries are printed. JSON: one envelope with a log of just these
    /// entries.
    pub open spec fn entries_printed(
        &self,
        command: Seq<char>,
        udid: Seq<char>,
        entries: Seq<EntryView>,
    ) -> PrintedView {
        if self.in_json() {
            emitted(command, (crate::model::LogView { udid, entries }).tree())
        } else {
            entry_lines(entries)
        }
    }

    /// New log entries. JSON: one envelope with a log of just these entries.
    pub fn log_entries(&self, command: &str, udid: &str, entries: &Vec<LogEntry>) -> (r: Printed)
        ensures
            r@ == self.entries_printed(command@, udid@, order::views(entries@)),
    {
        if self.json {
            let log = DeviceLog { udid: udid.to_owned(), entries: entries.clone() };
            self.emit(command, log.to_json())
        } else {
            print_entries(entries)
        }
    }

    /// A command that failed. JSON: the error envelope is the result. Text: the
    /// message is a diagnostic, and standard output stays free for results.
    pub fn error(&self, command: &str, err: &SimtopError) -> (r: Printed)
        ensures
            r@ == if self.in_json() {
                on_stdout(seq![json::compact(error_envelope(command@, err@))])
            } else {
                (PrintedView { stream: Stream::Stderr, lines: seq!["simtop: "@ + err@.shown()] })
            },
    {
        if self.json {
            return stdout_line(error_json(command, err).to_text());
        }
        let shown = err.to_string();
        let mut lines: Vec<String> = Vec::new();
        lines.push(cat2("simtop: ", shown.as_str()));
        assert(text::texts(lines@) =~= seq!["simtop: "@ + err@.shown()]);
        Printed { stream: Stream::Stderr, lines }
    }
}

/// An envelope holds data exactly when it reports success, and an error exactly
/// when it does not.
pub proof fn envelopes_tell_results_from_errors(
    command: Seq<char>,
    data: JsonTree,
    e: error::Failure,
)
    ensures
        success_envelope(command, data).get("ok"@) == Some(JsonTree::Bool(true)),
        success_envelope(command, data).get("data"@) == Some(data),
        success_envelope(command, data).get("error"@) is None,
        error_envelope(command, e).get("ok"@) == Some(JsonTree::Bool(false)),
        error_envelope(command, e).get("error"@) == Some(wire::report_tree(e)),
        error_envelope(command, e).get("data"@) is None,
{
    reveal_strlit("schema");
    reveal_strlit("command");
    reveal_strlit("ok");
    reveal_strlit("data");
    reveal_strlit("error");
    assert("schema"@.len() == 6);
    assert("command"@.len() == 7);
    assert("ok"@.len() == 2);
    assert("data"@.len() == 4);
    assert("error"@.len() == 5);
    let success = success_envelope(command, data)->Object_0;
    json::member_stands_at(success, 2, "ok"@);
    json::member_stands_at(success, 3, "data"@);
    json::member_is_missing(success, "error"@);
    let failed = error_envelope(command, e)->Object_0;
    json::member_stands_at(failed, 2, "ok"@);
    json::member_stands_at(failed, 3, "error"@);
    json::member_is_missing(failed, "data"@);
}

/// In JSON mode every result and every error is exactly one line, whatever texts
/// it holds.
pub proof fn json_results_are_single_lines(
    command: Seq<char>,
    data: JsonTree,
    e: error::Failure,
)
    ensures
        emitted(command, data).lines.len() == 1,
        json::single_line(emitted(command, data).lines[0]),
        json::single_line(json::compact(error_envelope(command, e))),
{
    json::documents_are_written_on_one_line(success_envelope(command, data));
    json::documents_are_written_on_one_line(error_envelope(command, e));
}

/// The line of a log entry begins with its time and ends with its message; between them
/// stand the process and its number as far as they are known.
pub proof fn entry_lines_hold_their_parts(e: EntryView)
    ensures
        text::has_prefix(entry_line(e), e.timestamp + " "@),
        entry_line(e).len() >= e.message.len(),
        entry_line(e).skip(entry_line(e).len() - e.message.len()) == e.message,
        e.process.len() > 0 ==> text::occurs_at(
            entry_line(e),
            e.process,
            1int + e.timestamp.len(),
        ),
        e.pid matches Some(pid) ==> text::has_part(
            entry_line(e),
            "["@ + text::decimal(pid as nat) + "] "@,
        ),
{
    reveal_strlit(" ");
    reveal_strlit(" [");
    reveal_strlit("[");
    reveal_strlit("] ");
    let line = entry_line(e);
    let n = e.timestamp.len() as int;
    assert(line.subrange(0, n + 1) =~= e.timestamp + " "@);
    assert(line.skip(line.len() - e.message.len()) =~= e.message);
    if e.process.len() > 0 {
        assert(line.subrange(n + 1, n + 1 + e.process.len()) =~= e.process);
    }
    if let Some(pid) = e.pid {
        let part = "["@ + text::decimal(pid as nat) + "] "@;
        let at = n + 1 + e.process.len();
        assert(line.subrange(at, at + part.len()) =~= part);
        assert(text::occurs_at(line, part, at));
    }
}

/// A launch is reported with the app and the device, and with the process where it is known.
pub proof fn launch_lines_hold_their_parts(info: LaunchView)
    ensures
        text::has_prefix(launch_line(info), "Launched "@ + info.bundle_id + " on "@ + info.udid),
        info.pid matches Some(pid) ==> text::has_part(launch_line(info), text::decimal(pid as nat)),
        info.pid is None ==> launch_line(info).len() == ("Launched "@ + info.bundle_id + " on "@
            + info.udid).len(),
{
    let head = "Launched "@ + info.bundle_id + " on "@ + info.udid;
    let line = launch_line(info);
    assert(line.subrange(0, head.len() as int) =~= head);
    if let Some(pid) = info.pid {
        let number = text::decimal(pid as nat);
        let at = (head + " (pid "@).len() as int;
        assert(line.subrange(at, at + number.len()) =~= number);
        assert(text::occurs_at(line, number, at));
    }
}

/// New entries are printed one a line, in their order, or as one envelope of the command in
/// JSON, and always on standard output.
pub proof fn entries_are_printed_in_order(
    out: &Output,
    command: Seq<char>,
    udid: Seq<char>,
    entries: Seq<EntryView>,
    i: int,
)
    requires
        0 <= i < entries.len(),
    ensures
        out.entries_printed(command, udid, entries).stream is Stdout,
        !out.in_json() ==> out.entries_printed(command, udid, entries).lines.len() == entries.len()
            && out.entries_printed(command, udid, entries).lines[i] == entry_line(entries[i]),
        out.in_json() ==> out.entries_printed(command, udid, entries).lines.len() == 1
            && exists|data: JsonTree|
            out.entries_printed(command, udid, entries) == #[trigger] emitted(command, data)
                && data.get_text("udid"@) == Some(udid),
{
    if out.in_json() {
        let log = crate::model::LogView { udid, entries };
        wire::logs_are_written_under_their_names(log);
        assert(out.entries_printed(command, udid, entries) == emitted(command, log.tree()));
    }
}

/// The banner above a refreshed table tells the generation and the time of the snapshot.
pub proof fn banners_tell_generation_and_time(snap: SnapshotView)
    ensures
        text::has_part(banner(snap), text::decimal(snap.generation as nat)),
        text::has_part(banner(snap), snap.timestamp),
{
    let line = banner(snap);
    let head = "== generation "@;
    let number = text::decimal(snap.generation as nat);
    assert(line.subrange(head.len() as int, (head.len() + number.len()) as int) =~= number);
    assert(text::occurs_at(line, number, head.len() as int));
    let before = head + number + " @ "@;
    assert(line.subrange(before.len() as int, (before.len() + snap.timestamp.len()) as int)
        =~= snap.timestamp);
    assert(text::occurs_at(line, snap.timestamp, before.len() as int));
}

/// Envelopes carry the name of their command and the schema, results and errors alike.
pub proof fn envelopes_carry_command_and_schema(
    command: Seq<char>,
    data: JsonTree,
    e: error::Failure,
)
    ensures
        success_envelope(command, data).get_text("command"@) == Some(command),
        success_envelope(command, data).get_number("schema"@) == Some(1u64),
        error_envelope(command, e).get_text("command"@) == Some(command),
        error_envelope(command, e).get_number("schema"@) == Some(1u64),
{
    reveal_strlit("schema");
    reveal_strlit("command");
    assert("schema"@.len() == 6);
    assert("command"@.len() == 7);
    let success = success_envelope(command, data)->Object_0;
    json::member_stands_at(success, 0, "schema"@);
    json::member_stands_at(success, 1, "command"@);
    let failed = error_envelope(command, e)->Object_0;
    json::member_stands_at(failed, 0, "schema"@);
    json::member_stands_at(failed, 1, "command"@);
}

} // verus!
