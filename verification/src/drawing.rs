//! What the terminal shows: which widgets stand where, and what they say.
//!
//! Measured numbers are handed on as they are; the terminal rounds and formats
//! them.

use ratatui::layout::{Constraint, Layout, Rect};
use vstd::prelude::*;

use crate::app_state::{AppState, Screen};
use crate::clock::{Duration, Instant};
use crate::model::{ArcSnapshot, EventRecord, PoolSnapshot, PoolView};
use crate::quantity::Quantity;
use crate::series::{since_first, MetricPoint, TimeSeries};
use crate::text::{decimal, decimal_string, joined, law_decimal_reads_back, number};

verus! {

/// A rectangle of terminal cells.
#[derive(Debug, Clone, Copy, PartialEq, Eq, Structural)]
pub struct Area {
    pub x: u16,
    pub y: u16,
    pub width: u16,
    pub height: u16,
}

impl Area {
    /// A band of full width somewhere in `outer`.
    pub open spec fn is_row_of(self, outer: Area) -> bool {
        &&& self.x == outer.x
        &&& self.width == outer.width
        &&& outer.y <= self.y
        &&& self.y + self.height <= outer.y + outer.height
    }
}

/// A part of a text.
#[derive(Debug, Clone, PartialEq)]
pub enum Piece {
    Text(String),
    /// A number of bytes, in gibibytes with one decimal place.
    Gibibytes(u64),
    /// A percentage, with one decimal place and a percent sign.
    Percent(Quantity),
    /// A share of one, as a percentage with one decimal place and a percent
    /// sign.
    ShareAsPercent(Quantity),
    /// A number without decimal places.
    Whole(Quantity),
}

pub enum PieceView {
    Text(Seq<char>),
    Gibibytes(u64),
    Percent(Quantity),
    ShareAsPercent(Quantity),
    Whole(Quantity),
}

impl View for Piece {
    type V = PieceView;

    open spec fn view(&self) -> PieceView {
        match *self {
            Piece::Text(text) => PieceView::Text(text@),
            Piece::Gibibytes(bytes) => PieceView::Gibibytes(bytes),
            Piece::Percent(number) => PieceView::Percent(number),
            Piece::ShareAsPercent(number) => PieceView::ShareAsPercent(number),
            Piece::Whole(number) => PieceView::Whole(number),
        }
    }
}

pub open spec fn pieces(parts: Seq<Piece>) -> Seq<PieceView> {
    parts.map_values(|piece: Piece| piece@)
}

pub open spec fn rows_of_pieces(rows: Seq<Vec<Piece>>) -> Seq<Seq<PieceView>> {
    rows.map_values(|row: Vec<Piece>| pieces(row@))
}

/// What stands around a widget.
#[derive(Debug, Clone, Copy, PartialEq, Eq)]
pub enum Border {
    Bare,
    Plain,
    Titled(&'static str),
}

pub enum BorderView {
    Bare,
    Plain,
    Titled(Seq<char>),
}

impl View for Border {
    type V = BorderView;

    open spec fn view(&self) -> BorderView {
        match *self {
            Border::Bare => BorderView::Bare,
            Border::Plain => BorderView::Plain,
            Border::Titled(title) => BorderView::Titled(title@),
        }
    }
}

/// How wide a column of a table is.
#[derive(Debug, Clone, Copy, PartialEq, Eq, Structural)]
pub enum ColumnWidth {
    Exactly(u16),
    AtLeast(u16),
}

/// A column of a table.
#[derive(Debug, Clone, Copy, PartialEq, Eq)]
pub struct Column {
    pub heading: &'static str,
    pub width: ColumnWidth,
}

pub struct ColumnView {
    pub heading: Seq<char>,
    pub width: ColumnWidth,
}

impl View for Column {
    type V = ColumnView;

    open spec fn view(&self) -> ColumnView {
        ColumnView { heading: self.heading@, width: self.width }
    }
}

pub open spec fn columns_of(columns: Seq<Column>) -> Seq<ColumnView> {
    columns.map_values(|column: Column| column@)
}

/// The colours of lines: reads are blue, writes yellow.
#[derive(Debug, Clone, Copy, PartialEq, Eq, Structural)]
pub enum LineColor {
    Blue,
    Yellow,
}

/// A line of points on a chart, by time since the first.
#[derive(Debug, Clone, PartialEq)]
pub struct Line {
    pub name: &'static str,
    pub color: LineColor,
    pub points: Vec<(Duration, Quantity)>,
}

pub struct LineView {
    pub name: Seq<char>,
    pub color: LineColor,
    pub points: Seq<(Duration, Quantity)>,
}

impl View for Line {
    type V = LineView;

    open spec fn view(&self) -> LineView {
        LineView { name: self.name@, color: self.color, points: self.points@ }
    }
}

pub open spec fn lines_of(lines: Seq<Line>) -> Seq<LineView> {
    lines.map_values(|line: Line| line@)
}

/// An axis of a chart, which starts at zero, with a label at either end.
#[derive(Debug, Clone, Copy, PartialEq, Eq)]
pub struct ChartAxis {
    pub extent: AxisExtent,
    pub first_label: &'static str,
    pub last_label: &'static str,
}

/// Where an axis ends.
#[derive(Debug, Clone, Copy, PartialEq, Eq, Structural)]
pub enum AxisExtent {
    Exactly(u64),
    /// At the largest value on the chart, or at a number that no value exceeds.
    LargestValueOr(u64),
}

pub struct ChartAxisView {
    pub extent: AxisExtent,
    pub first_label: Seq<char>,
    pub last_label: Seq<char>,
}

impl View for ChartAxis {
    type V = ChartAxisView;

    open spec fn view(&self) -> ChartAxisView {
        ChartAxisView {
            extent: self.extent,
            first_label: self.first_label@,
            last_label: self.last_label@,
        }
    }
}

/// Something that fills an area of the terminal.
#[derive(Debug, Clone, PartialEq)]
pub enum Widget {
    Paragraph { text: Vec<Piece>, border: Border },
    Chart { lines: Vec<Line>, across: ChartAxis, up: ChartAxis, border: Border },
    Table { columns: Vec<Column>, rows: Vec<Vec<Piece>>, border: Border },
}

pub enum WidgetView {
    Paragraph { text: Seq<PieceView>, border: BorderView },
    Chart {
        lines: Seq<LineView>,
        across: ChartAxisView,
        up: ChartAxisView,
        border: BorderView,
    },
    Table { columns: Seq<ColumnView>, rows: Seq<Seq<PieceView>>, border: BorderView },
}

impl View for Widget {
    type V = WidgetView;

    open spec fn view(&self) -> WidgetView {
        match *self {
            Widget::Paragraph { text, border } => WidgetView::Paragraph {
                text: pieces(text@),
                border: border@,
            },
            Widget::Chart { lines, across, up, border } => WidgetView::Chart {
                lines: lines_of(lines@),
                across: across@,
                up: up@,
                border: border@,
            },
            Widget::Table { columns, rows, border } => WidgetView::Table {
                columns: columns_of(columns@),
                rows: rows_of_pieces(rows@),
                border: border@,
            },
        }
    }
}

/// A widget in its place.
#[derive(Debug, Clone, PartialEq)]
pub struct Drawing {
    pub area: Area,
    pub widget: Widget,
}

pub struct DrawingView {
    pub area: Area,
    pub widget: WidgetView,
}

impl View for Drawing {
    type V = DrawingView;

    open spec fn view(&self) -> DrawingView {
        DrawingView { area: self.area, widget: self.widget@ }
    }
}

pub open spec fn drawings(list: Seq<Drawing>) -> Seq<DrawingView> {
    list.map_values(|drawing: Drawing| drawing@)
}

/// A paragraph of one text.
pub open spec fn plain_text(area: Area, text: Seq<char>, border: BorderView) -> DrawingView {
    DrawingView {
        area,
        widget: WidgetView::Paragraph { text: seq![PieceView::Text(text)], border },
    }
}

fn paragraph(area: Area, text: String, border: Border) -> (result: Drawing)
    ensures
        result@ == plain_text(area, text@, border@),
        result.area == area,
        result.widget is Paragraph,
        result.widget->text@.len() == 1,
        result.widget->text@[0] == Piece::Text(text),
        result.widget->Paragraph_border == border,
{
    let mut parts: Vec<Piece> = Vec::new();
    parts.push(Piece::Text(text));
    assert(pieces(parts@) =~= seq![PieceView::Text(text@)]);
    Drawing { area, widget: Widget::Paragraph { text: parts, border } }
}

/// The word for how current the shown telemetry is.
pub open spec fn status_word(state: AppState, now: Instant) -> Seq<char> {
    if state.paused {
        "paused"@
    } else {
        match state.last_snapshot {
            Some(snapshot) => if snapshot.spec_is_stale(now) {
                "stale"@
            } else {
                "live"@
            },
            None => "waiting for samples"@,
        }
    }
}

pub fn status(state: &AppState, now: Instant) -> (result: &'static str)
    ensures
        result@ == status_word(*state, now),
        state.paused ==> result@ == "paused"@,
        !state.paused && state.last_snapshot is None ==> result@ == "waiting for samples"@,
        !state.paused && state.last_snapshot is Some ==> {
            let snapshot = state.last_snapshot->0;
            result@ == if snapshot.generated_at.nanos + snapshot.stale_after.nanos < now.nanos {
                "stale"@
            } else {
                "live"@
            }
        },
{
    if state.paused {
        "paused"
    } else {
        match &state.last_snapshot {
            Some(snapshot) => if snapshot.is_stale(now) {
                "stale"
            } else {
                "live"
            },
            None => "waiting for samples",
        }
    }
}

pub open spec fn header_view(
    area: Area,
    state: AppState,
    now: Instant,
    title: Seq<char>,
) -> DrawingView {
    plain_text(
        area,
        "zfs-io | "@ + title + " | "@ + status_word(state, now)
            + " | 1 dashboard 2 pools 3 arc 4 events ? help q quit"@,
        BorderView::Plain,
    )
}

/// The line at the top of the dashboard.
pub fn draw_header(area: Area, state: &AppState, now: Instant, title: &str) -> (result: Drawing)
    ensures
        result@ == header_view(area, *state, now, title@),
        result.area == area,
        result.widget is Paragraph,
        result.widget->text@.len() == 1,
        result.widget->text@[0] is Text,
{
    let mut text: String = "zfs-io | ".to_string();
    text.append(title);
    text.append(" | ");
    text.append(status(state, now));
    text.append(" | 1 dashboard 2 pools 3 arc 4 events ? help q quit");
    paragraph(area, text, Border::Plain)
}

/// The points of a window, by time since the first.
pub open spec fn points_of(points: Seq<MetricPoint<Quantity>>) -> Seq<(Duration, Quantity)> {
    Seq::new(points.len(), |i: int| since_first(points, i))
}

/// Line number `line` has a point number `point`.
pub open spec fn is_point(lines: Seq<LineView>, line: int, point: int) -> bool {
    0 <= line < lines.len() && 0 <= point < lines[line].points.len()
}

/// The exact value of a point on a chart.
pub open spec fn point_value(lines: Seq<LineView>, line: int, point: int) -> real {
    lines[line].points[point].1.value()
}

/// An axis of this extent ends at `end` on a chart with these lines: at its
/// number, or at the largest value on the chart where that is larger still.
pub open spec fn axis_ends_at(extent: AxisExtent, lines: Seq<LineView>, end: real) -> bool {
    match extent {
        AxisExtent::Exactly(number) => end == number as real,
        AxisExtent::LargestValueOr(least) => {
            &&& end >= least as real
            &&& forall|line: int, point: int| #[trigger]
                is_point(lines, line, point) ==> point_value(lines, line, point) <= end
            &&& end == least as real || exists|line: int, point: int| #[trigger]
                is_point(lines, line, point) && point_value(lines, line, point) == end
        },
    }
}

/// An axis has one end: there is no other number at which it ends.
pub proof fn law_axis_end_is_unique(
    extent: AxisExtent,
    lines: Seq<LineView>,
    left: real,
    right: real,
)
    requires
        axis_ends_at(extent, lines, left),
        axis_ends_at(extent, lines, right),
    ensures
        left == right,
{
}

/// Every axis ends somewhere, whatever is on the chart.
pub proof fn law_axis_has_an_end(extent: AxisExtent, lines: Seq<LineView>) -> (end: real)
    ensures
        axis_ends_at(extent, lines, end),
    decreases lines.len(),
{
    match extent {
        AxisExtent::Exactly(number) => number as real,
        AxisExtent::LargestValueOr(least) => {
            if lines.len() == 0 {
                least as real
            } else {
                let rest = lines.drop_last();
                let before = law_axis_has_an_end(extent, rest);
                assert forall|line: int, point: int| #[trigger]
                    is_point(rest, line, point) implies is_point(lines, line, point) && point_value(
                    lines,
                    line,
                    point,
                ) == point_value(rest, line, point) by {}
                let last = lines.len() - 1;
                let end = lemma_line_end(lines, last, lines[last].points.len() as int, before);
                assert forall|line: int, point: int| #[trigger]
                    is_point(lines, line, point) implies point_value(lines, line, point) <= end by {
                    if line < last {
                        assert(is_point(rest, line, point));
                    }
                }
                end
            }
        },
    }
}

/// The largest of `before` and the first `count` values of a line.
proof fn lemma_line_end(lines: Seq<LineView>, line: int, count: int, before: real) -> (end: real)
    requires
        0 <= line < lines.len(),
        0 <= count <= lines[line].points.len(),
    ensures
        end >= before,
        forall|point: int|
            0 <= point < count ==> #[trigger] point_value(lines, line, point) <= end,
        end == before || exists|point: int| #[trigger]
            is_point(lines, line, point) && point_value(lines, line, point) == end,
    decreases count,
{
    if count == 0 {
        before
    } else {
        let end = lemma_line_end(lines, line, count - 1, before);
        assert(is_point(lines, line, count - 1));
        if point_value(lines, line, count - 1) > end {
            point_value(lines, line, count - 1)
        } else {
            end
        }
    }
}

/// The lines of the throughput chart.
pub open spec fn throughput_lines(read: TimeSeries<Quantity>, write: TimeSeries<Quantity>) -> Seq<
    LineView,
> {
    seq![
        LineView {
            name: "read"@,
            color: LineColor::Blue,
            points: points_of(read.last_minute@),
        },
        LineView {
            name: "write"@,
            color: LineColor::Yellow,
            points: points_of(write.last_minute@),
        },
    ]
}

pub open spec fn chart_view(area: Area, state: AppState, titled: bool) -> DrawingView {
    match state.last_snapshot {
        Some(snapshot) => DrawingView {
            area,
            widget: WidgetView::Chart {
                lines: throughput_lines(snapshot.read_history, snapshot.write_history),
                across: ChartAxisView {
                    extent: AxisExtent::Exactly(60),
                    first_label: "0s"@,
                    last_label: "60s"@,
                },
                up: ChartAxisView {
                    extent: AxisExtent::LargestValueOr(1),
                    first_label: "0"@,
                    last_label: "max"@,
                },
                border: if titled {
                    BorderView::Titled("Throughput"@)
                } else {
                    BorderView::Plain
                },
            },
        },
        None => plain_text(area, "waiting for telemetry"@, BorderView::Bare),
    }
}

/// The chart shows every point it has: its upward axis ends at one or above, and
/// below no point of either line.
pub proof fn law_chart_has_room_for_every_point(
    area: Area,
    state: AppState,
    titled: bool,
    end: real,
)
    requires
        chart_view(area, state, titled).widget matches WidgetView::Chart { lines, up, .. }
            && axis_ends_at(up.extent, lines, end),
    ensures
        state.last_snapshot is Some,
        end >= 1real,
        ({
            let read = state.last_snapshot->0.read_history.last_minute@;
            let write = state.last_snapshot->0.write_history.last_minute@;
            &&& forall|i: int| 0 <= i < read.len() ==> (#[trigger] read[i]).value.value() <= end
            &&& forall|i: int| 0 <= i < write.len() ==> (#[trigger] write[i]).value.value() <= end
            &&& end == 1real || (exists|i: int|
                0 <= i < read.len() && (#[trigger] read[i]).value.value() == end) || (exists|i: int|
                0 <= i < write.len() && (#[trigger] write[i]).value.value() == end)
        }),
{
    let snapshot = state.last_snapshot->0;
    let read = snapshot.read_history.last_minute@;
    let write = snapshot.write_history.last_minute@;
    let lines = throughput_lines(snapshot.read_history, snapshot.write_history);
    assert forall|i: int| 0 <= i < read.len() implies (#[trigger] read[i]).value.value() <= end by {
        assert(is_point(lines, 0, i));
    }
    assert forall|i: int| 0 <= i < write.len() implies (#[trigger] write[i]).value.value()
        <= end by {
        assert(is_point(lines, 1, i));
    }
    if end != 1real {
        let (line, point): (int, int) = choose|line: int, point: int| #[trigger]
            is_point(lines, line, point) && point_value(lines, line, point) == end;
        if line == 0 {
            assert(read[point].value.value() == end);
        } else {
            assert(write[point].value.value() == end);
        }
    }
}

/// The read and write throughput of the last minute.
pub fn draw_chart(area: Area, state: &AppState, with_header: bool) -> (result: Drawing)
    ensures
        result@ == chart_view(area, *state, with_header),
        result.area == area,
        state.last_snapshot is Some ==> {
            let read = state.last_snapshot->0.read_history.last_minute@;
            let write = state.last_snapshot->0.write_history.last_minute@;
            &&& result.widget is Chart
            &&& result.widget->lines@.len() == 2
            &&& result.widget->lines@[0].name@ == "read"@
            &&& result.widget->lines@[1].name@ == "write"@
            &&& result.widget->lines@[0].points@.len() == read.len()
            &&& result.widget->lines@[1].points@.len() == write.len()
            &&& forall|i: int|
                0 <= i < read.len() ==> (#[trigger] result.widget->lines@[0].points@[i]).1
                    == read[i].value
            &&& forall|i: int|
                0 <= i < write.len() ==> (#[trigger] result.widget->lines@[1].points@[i]).1
                    == write[i].value
        },
{
    match &state.last_snapshot {
        Some(snapshot) => {
            let mut lines: Vec<Line> = Vec::new();
            lines.push(
                Line {
                    name: "read",
                    color: LineColor::Blue,
                    points: snapshot.read_history.minute_values(),
                },
            );
            lines.push(
                Line {
                    name: "write",
                    color: LineColor::Yellow,
                    points: snapshot.write_history.minute_values(),
                },
            );
            assert(lines_of(lines@) =~= throughput_lines(
                snapshot.read_history,
                snapshot.write_history,
            ));
            Drawing {
                area,
                widget: Widget::Chart {
                    lines,
                    across: ChartAxis {
                        extent: AxisExtent::Exactly(60),
                        first_label: "0s",
                        last_label: "60s",
                    },
                    up: ChartAxis {
                        extent: AxisExtent::LargestValueOr(1),
                        first_label: "0",
                        last_label: "max",
                    },
                    border: if with_header {
                        Border::Titled("Throughput")
                    } else {
                        Border::Plain
                    },
                },
            }
        },
        None => paragraph(area, "waiting for telemetry".to_string(), Border::Bare),
    }
}

/// The row of a pool in the table of pools.
pub open spec fn pool_row(pool: PoolView) -> Seq<PieceView> {
    seq![
        PieceView::Text(pool.name),
        PieceView::Text(pool.state.name()),
        PieceView::Percent(pool.capacity_percent),
        PieceView::Whole(pool.read_iops),
        PieceView::Whole(pool.write_iops),
        PieceView::Text(decimal(pool.error_count as nat)),
        PieceView::Text(pool.status),
    ]
}

fn row_of_pool(pool: &PoolSnapshot) -> (result: Vec<Piece>)
    ensures
        pieces(result@) == pool_row(pool@),
        result@.len() == 7,
        result@[0] is Text && result@[0]->Text_0@ == pool.name@,
        result@[1] is Text && result@[1]->Text_0@ == pool.state.name(),
        result@[2] == Piece::Percent(pool.capacity_percent),
        result@[3] == Piece::Whole(pool.read_iops),
        result@[4] == Piece::Whole(pool.write_iops),
        result@[5] is Text && number(result@[5]->Text_0@) == Some(pool.error_count),
        result@[6] is Text && result@[6]->Text_0@ == pool.status@,
{
    proof {
        law_decimal_reads_back(pool.error_count);
    }
    let mut row: Vec<Piece> = Vec::new();
    row.push(Piece::Text(pool.name.clone()));
    row.push(Piece::Text(pool.state.as_str().to_string()));
    row.push(Piece::Percent(pool.capacity_percent));
    row.push(Piece::Whole(pool.read_iops));
    row.push(Piece::Whole(pool.write_iops));
    row.push(Piece::Text(decimal_string(pool.error_count as u128)));
    row.push(Piece::Text(pool.status.clone()));
    assert(pieces(row@) =~= pool_row(pool@));
    row
}

pub open spec fn column_view(heading: Seq<char>, width: ColumnWidth) -> ColumnView {
    ColumnView { heading, width }
}

pub open spec fn pool_columns() -> Seq<ColumnView> {
    seq![
        column_view("pool"@, ColumnWidth::Exactly(16)),
        column_view("state"@, ColumnWidth::Exactly(10)),
        column_view("cap"@, ColumnWidth::Exactly(8)),
        column_view("r iops"@, ColumnWidth::Exactly(8)),
        column_view("w iops"@, ColumnWidth::Exactly(8)),
        column_view("errors"@, ColumnWidth::Exactly(8)),
        column_view("status"@, ColumnWidth::AtLeast(12)),
    ]
}

fn columns_for_pools() -> (result: Vec<Column>)
    ensures
        columns_of(result@) == pool_columns(),
{
    let mut columns: Vec<Column> = Vec::new();
    columns.push(Column { heading: "pool", width: ColumnWidth::Exactly(16) });
    columns.push(Column { heading: "state", width: ColumnWidth::Exactly(10) });
    columns.push(Column { heading: "cap", width: ColumnWidth::Exactly(8) });
    columns.push(Column { heading: "r iops", width: ColumnWidth::Exactly(8) });
    columns.push(Column { heading: "w iops", width: ColumnWidth::Exactly(8) });
    columns.push(Column { heading: "errors", width: ColumnWidth::Exactly(8) });
    columns.push(Column { heading: "status", width: ColumnWidth::AtLeast(12) });
    assert(columns_of(columns@) =~= pool_columns());
    columns
}

pub open spec fn pools_view(area: Area, state: AppState) -> DrawingView {
    match state.last_snapshot {
        Some(snapshot) => DrawingView {
            area,
            widget: WidgetView::Table {
                columns: pool_columns(),
                rows: Seq::new(snapshot.pools@.len(), |i: int| pool_row(snapshot.pools@[i]@)),
                border: BorderView::Titled("Pools"@),
            },
        },
        None => plain_text(area, "waiting for pool telemetry"@, BorderView::Bare),
    }
}

/// The table of pools.
pub fn draw_pools(area: Area, state: &AppState) -> (result: Drawing)
    ensures
        result@ == pools_view(area, *state),
        result.area == area,
        state.last_snapshot is Some ==> {
            let pools = state.last_snapshot->0.pools@;
            &&& result.widget is Table
            &&& result.widget->rows@.len() == pools.len()
            &&& forall|i: int|
                0 <= i < pools.len() ==> {
                    let row = (#[trigger] result.widget->rows@[i])@;
                    &&& row.len() == 7
                    &&& row[0] is Text && row[0]->Text_0@ == pools[i].name@
                    &&& row[1] is Text && row[1]->Text_0@ == pools[i].state.name()
                    &&& row[2] == Piece::Percent(pools[i].capacity_percent)
                    &&& row[3] == Piece::Whole(pools[i].read_iops)
                    &&& row[4] == Piece::Whole(pools[i].write_iops)
                    &&& row[5] is Text && number(row[5]->Text_0@) == Some(pools[i].error_count)
                    &&& row[6] is Text && row[6]->Text_0@ == pools[i].status@
                }
        },
{
    match &state.last_snapshot {
        Some(snapshot) => {
            let mut rows: Vec<Vec<Piece>> = Vec::new();
            let mut i: usize = 0;
            let ghost shown = Seq::new(
                snapshot.pools@.len(),
                |j: int| pool_row(snapshot.pools@[j]@),
            );
            while i < snapshot.pools.len()
                invariant
                    i <= snapshot.pools@.len(),
                    shown == Seq::new(
                        snapshot.pools@.len(),
                        |j: int| pool_row(snapshot.pools@[j]@),
                    ),
                    rows_of_pieces(rows@) == shown.take(i as int),
                    rows@.len() == i,
                    forall|j: int|
                        0 <= j < i ==> {
                            let row = (#[trigger] rows@[j])@;
                            let pool = snapshot.pools@[j];
                            &&& row.len() == 7
                            &&& row[0] is Text && row[0]->Text_0@ == pool.name@
                            &&& row[1] is Text && row[1]->Text_0@ == pool.state.name()
                            &&& row[2] == Piece::Percent(pool.capacity_percent)
                            &&& row[3] == Piece::Whole(pool.read_iops)
                            &&& row[4] == Piece::Whole(pool.write_iops)
                            &&& row[5] is Text && number(row[5]->Text_0@) == Some(pool.error_count)
                            &&& row[6] is Text && row[6]->Text_0@ == pool.status@
                        },
                decreases snapshot.pools@.len() - i,
            {
                let ghost before = rows@;
                let row: Vec<Piece> = row_of_pool(&snapshot.pools[i]);
                rows.push(row);
                assert(rows_of_pieces(rows@) =~= rows_of_pieces(before).push(pieces(row@)));
                i += 1;
                assert(rows_of_pieces(rows@) =~= shown.take(i as int));
            }
            assert(rows_of_pieces(rows@) =~= shown);
            Drawing {
                area,
                widget: Widget::Table {
                    columns: columns_for_pools(),
                    rows,
                    border: Border::Titled("Pools"),
                },
            }
        },
        None => paragraph(area, "waiting for pool telemetry".to_string(), Border::Bare),
    }
}

pub open spec fn arc_text(arc: ArcSnapshot) -> Seq<PieceView> {
    seq![
        PieceView::Text("ARC size: "@),
        PieceView::Gibibytes(arc.size_bytes),
        PieceView::Text(" GiB\nARC target: "@),
        PieceView::Gibibytes(arc.target_bytes),
        PieceView::Text(" GiB\nHit ratio: "@),
        PieceView::ShareAsPercent(arc.hit_ratio),
        PieceView::Text("\nMiss ratio: "@),
        PieceView::ShareAsPercent(arc.miss_ratio),
    ]
}

pub open spec fn arc_view(area: Area, state: AppState) -> DrawingView {
    match state.last_snapshot {
        Some(snapshot) => DrawingView {
            area,
            widget: WidgetView::Paragraph {
                text: arc_text(snapshot.arc),
                border: BorderView::Titled("ARC/L2ARC"@),
            },
        },
        None => plain_text(area, "waiting for ARC telemetry"@, BorderView::Bare),
    }
}

/// The size of the cache and how well it does.
pub fn draw_arc(area: Area, state: &AppState) -> (result: Drawing)
    ensures
        result@ == arc_view(area, *state),
        result.area == area,
        state.last_snapshot is Some ==> {
            let arc = state.last_snapshot->0.arc;
            &&& result.widget is Paragraph
            &&& result.widget->text@.len() == 8
            &&& result.widget->text@[1] == Piece::Gibibytes(arc.size_bytes)
            &&& result.widget->text@[3] == Piece::Gibibytes(arc.target_bytes)
            &&& result.widget->text@[5] == Piece::ShareAsPercent(arc.hit_ratio)
            &&& result.widget->text@[7] == Piece::ShareAsPercent(arc.miss_ratio)
        },
{
    match &state.last_snapshot {
        Some(snapshot) => {
            let mut text: Vec<Piece> = Vec::new();
            text.push(Piece::Text("ARC size: ".to_string()));
            text.push(Piece::Gibibytes(snapshot.arc.size_bytes));
            text.push(Piece::Text(" GiB\nARC target: ".to_string()));
            text.push(Piece::Gibibytes(snapshot.arc.target_bytes));
            text.push(Piece::Text(" GiB\nHit ratio: ".to_string()));
            text.push(Piece::ShareAsPercent(snapshot.arc.hit_ratio));
            text.push(Piece::Text("\nMiss ratio: ".to_string()));
            text.push(Piece::ShareAsPercent(snapshot.arc.miss_ratio));
            assert(pieces(text@) =~= arc_text(snapshot.arc));
            Drawing {
                area,
                widget: Widget::Paragraph { text, border: Border::Titled("ARC/L2ARC") },
            }
        },
        None => paragraph(area, "waiting for ARC telemetry".to_string(), Border::Bare),
    }
}

/// How many events are shown.
pub const MAX_EVENTS_SHOWN: usize = 6;

pub open spec fn event_line(event: EventRecord) -> Seq<char> {
    event.severity.name() + ": "@ + event.message@
}

/// The lines of the newest events, newest first.
pub open spec fn event_lines(events: Seq<EventRecord>) -> Seq<Seq<char>> {
    Seq::new(
        if events.len() < MAX_EVENTS_SHOWN {
            events.len()
        } else {
            MAX_EVENTS_SHOWN as nat
        },
        |i: int| event_line(events[events.len() - 1 - i]),
    )
}

/// Writes the newest events, one to a line, newest first.
pub fn events_text(events: &Vec<EventRecord>) -> (result: String)
    ensures
        result@ == joined(event_lines(events@), "\n"@),
{
    let ghost shown = event_lines(events@);
    let count: usize = if events.len() < MAX_EVENTS_SHOWN {
        events.len()
    } else {
        MAX_EVENTS_SHOWN
    };
    let mut text: String = String::new();
    let mut i: usize = 0;
    assert(shown.take(0) == Seq::<Seq<char>>::empty());
    while i < count
        invariant
            i <= count,
            shown == event_lines(events@),
            count == shown.len(),
            count <= events@.len(),
            text@ == joined(shown.take(i as int), "\n"@),
        decreases count - i,
    {
        let ghost before = text@;
        let event: &EventRecord = &events[events.len() - 1 - i];
        if i > 0 {
            text.append("\n");
        }
        text.append(event.severity.as_str());
        text.append(": ");
        text.append(event.message.as_str());
        let ghost grown = shown.take(i + 1);
        assert(grown.drop_last() == shown.take(i as int));
        assert(grown.last() == event_line(*event));
        if i == 0 {
            assert(text@ =~= event_line(*event));
        } else {
            assert(text@ =~= before + "\n"@ + event_line(*event));
        }
        i += 1;
    }
    assert(shown.take(shown.len() as int) == shown);
    text
}

pub open spec fn events_view(area: Area, state: AppState) -> DrawingView {
    match state.last_snapshot {
        Some(snapshot) => plain_text(
            area,
            joined(event_lines(snapshot.events@), "\n"@),
            BorderView::Titled("Events"@),
        ),
        None => plain_text(area, "waiting for events"@, BorderView::Bare),
    }
}

/// The newest events.
pub fn draw_events(area: Area, state: &AppState) -> (result: Drawing)
    ensures
        result@ == events_view(area, *state),
        result.area == area,
        result.widget is Paragraph,
        result.widget->text@.len() == 1,
        result.widget->text@[0] is Text,
{
    match &state.last_snapshot {
        Some(snapshot) => paragraph(area, events_text(&snapshot.events), Border::Titled("Events")),
        None => paragraph(area, "waiting for events".to_string(), Border::Bare),
    }
}

pub open spec fn help_view(area: Area) -> DrawingView {
    plain_text(
        area,
        "q/Esc quit\nSpace pause/resume\nTab next screen\n1 dashboard\n2 pools\n3 arc\n4 events\n? help\n\nzfs-io is read-only: collectors must prefer kstats, use bounded work, and skip late results."@,
        BorderView::Titled("Help"@),
    )
}

/// The key bindings.
pub fn draw_help(area: Area) -> (result: Drawing)
    ensures
        result@ == help_view(area),
        result.area == area,
        result.widget is Paragraph,
        result.widget->text@.len() == 1,
        result.widget->text@[0]@ == PieceView::Text(
            "q/Esc quit\nSpace pause/resume\nTab next screen\n1 dashboard\n2 pools\n3 arc\n4 events\n? help\n\nzfs-io is read-only: collectors must prefer kstats, use bounded work, and skip late results."@,
        ),
        result.widget->Paragraph_border@ == BorderView::Titled("Help"@),
{
    paragraph(
        area,
        "q/Esc quit\nSpace pause/resume\nTab next screen\n1 dashboard\n2 pools\n3 arc\n4 events\n? help\n\nzfs-io is read-only: collectors must prefer kstats, use bounded work, and skip late results.".to_string(),
        Border::Titled("Help"),
    )
}

/// The rows of the dashboard, from top to bottom.
#[derive(Debug, Clone, Copy, PartialEq, Eq, Structural)]
pub struct DashboardRows {
    pub header: Area,
    pub chart: Area,
    pub pools: Area,
    pub events: Area,
}

impl DashboardRows {
    pub open spec fn are_rows_of(self, area: Area) -> bool {
        &&& self.header.is_row_of(area)
        &&& self.chart.is_row_of(area)
        &&& self.pools.is_row_of(area)
        &&& self.events.is_row_of(area)
    }

    /// The rows are a division of `area` into three lines, 45 percent, 35
    /// percent and at least three lines.
    pub open spec fn divide(self, area: Area) -> bool {
        &&& is_division(
            area,
            3,
            45,
            35,
            3,
            seq![self.header, self.chart, self.pools, self.events],
        )
        &&& self.are_rows_of(area)
    }
}

/// `rows` is one of the outcomes of dividing `area` with
/// `ratatui::layout::Layout::split` into a row of `header` lines, two rows of a
/// percentage of the height and a row of at least `events` lines.
pub uninterp spec fn is_division(
    area: Area,
    header: u16,
    chart: u16,
    pools: u16,
    events: u16,
    rows: Seq<Area>,
) -> bool;

/// `ratatui::layout::Layout::split` of a vertical layout with a row of
/// `header` lines, two rows of a percentage of the height and a row of at least
/// `events` lines, in this order.
///
/// The rows have the position and width of `area` across, and stay inside it
/// from top to bottom: the solver behind the call requires this of every
/// outcome, and can always meet it. Where exactly the rows begin and end follows
/// from weaker wishes that it weighs while it walks hash maps with random seeds,
/// so nothing more is claimed than that they are one of its outcomes.
#[verifier::external_body]
fn split_rows(area: Area, header: u16, chart: u16, pools: u16, events: u16) -> (result: Vec<Area>)
    ensures
        is_division(area, header, chart, pools, events, result@),
        result@.len() == 4,
        forall|i: int| 0 <= i < 4 ==> (#[trigger] result@[i]).is_row_of(area),
{
    Layout::vertical([
        Constraint::Length(header),
        Constraint::Percentage(chart),
        Constraint::Percentage(pools),
        Constraint::Min(events),
    ])
    .split(Rect { x: area.x, y: area.y, width: area.width, height: area.height })
    .iter()
    .map(|row| Area { x: row.x, y: row.y, width: row.width, height: row.height })
    .collect()
}

/// Divides an area into the rows of the dashboard: three lines for the header,
/// 45 percent for the chart, 35 percent for the pools and at least three lines
/// for the events.
pub fn dashboard_rows(area: Area) -> (result: DashboardRows)
    ensures
        result.divide(area),
{
    let rows: Vec<Area> = split_rows(area, 3, 45, 35, 3);
    assert(rows@ =~= seq![rows@[0], rows@[1], rows@[2], rows@[3]]);
    DashboardRows { header: rows[0], chart: rows[1], pools: rows[2], events: rows[3] }
}

pub open spec fn dashboard_view(rows: DashboardRows, state: AppState, now: Instant) -> Seq<
    DrawingView,
> {
    seq![
        header_view(rows.header, state, now, "Dashboard"@),
        chart_view(rows.chart, state, true),
        pools_view(rows.pools, state),
        events_view(rows.events, state),
    ]
}

/// The dashboard, in given rows.
pub fn fill_dashboard(rows: DashboardRows, state: &AppState, now: Instant) -> (result: Vec<Drawing>)
    ensures
        drawings(result@) == dashboard_view(rows, *state, now),
        result@.len() == 4,
        result@[0]@ == header_view(rows.header, *state, now, "Dashboard"@),
        result@[1]@ == chart_view(rows.chart, *state, true),
        result@[2]@ == pools_view(rows.pools, *state),
        result@[3]@ == events_view(rows.events, *state),
        result@[0].area == rows.header,
        result@[1].area == rows.chart,
        result@[2].area == rows.pools,
        result@[3].area == rows.events,
{
    let mut result: Vec<Drawing> = Vec::new();
    result.push(draw_header(rows.header, state, now, "Dashboard"));
    result.push(draw_chart(rows.chart, state, true));
    result.push(draw_pools(rows.pools, state));
    result.push(draw_events(rows.events, state));
    assert(drawings(result@) =~= dashboard_view(rows, *state, now));
    result
}

/// The dashboard.
pub fn draw_dashboard(area: Area, state: &AppState, now: Instant) -> (result: Vec<Drawing>)
    ensures
        exists|rows: DashboardRows| #[trigger]
            rows.divide(area) && drawings(result@) == dashboard_view(rows, *state, now),
        result@.len() == 4,
{
    fill_dashboard(dashboard_rows(area), state, now)
}

/// What a screen other than the dashboard shows.
pub open spec fn screen_view(area: Area, state: AppState) -> DrawingView {
    match state.screen {
        Screen::Arc => arc_view(area, state),
        Screen::Events => events_view(area, state),
        Screen::Help => help_view(area),
        _ => pools_view(area, state),
    }
}

/// What the terminal shows.
pub fn draw_once(area: Area, state: &AppState, now: Instant) -> (result: Vec<Drawing>)
    ensures
        state.screen == Screen::Dashboard ==> exists|rows: DashboardRows| #[trigger]
            rows.divide(area) && drawings(result@) == dashboard_view(rows, *state, now),
        state.screen != Screen::Dashboard ==> drawings(result@) == seq![screen_view(area, *state)],
        state.screen != Screen::Dashboard ==> result@.len() == 1 && result@[0].area == area,
        state.screen == Screen::Dashboard ==> result@.len() == 4,
        state.screen == Screen::Pools ==> result@[0]@ == pools_view(area, *state),
        state.screen == Screen::Arc ==> result@[0]@ == arc_view(area, *state),
        state.screen == Screen::Events ==> result@[0]@ == events_view(area, *state),
        state.screen == Screen::Help ==> result@[0]@ == help_view(area),
{
    let mut result: Vec<Drawing> = Vec::new();
    match state.screen {
        Screen::Dashboard => {
            return draw_dashboard(area, state, now);
        },
        Screen::Pools => result.push(draw_pools(area, state)),
        Screen::Arc => result.push(draw_arc(area, state)),
        Screen::Events => result.push(draw_events(area, state)),
        Screen::Help => result.push(draw_help(area)),
    }
    assert(drawings(result@) =~= seq![screen_view(area, *state)]);
    result
}

/// Nothing is drawn outside the area: on every screen each drawing is a row of
/// it.
pub proof fn law_drawings_stay_inside(
    area: Area,
    rows: DashboardRows,
    state: AppState,
    now: Instant,
)
    requires
        rows.are_rows_of(area),
    ensures
        forall|i: int|
            0 <= i < dashboard_view(rows, state, now).len() ==> (#[trigger] dashboard_view(
                rows,
                state,
                now,
            )[i]).area.is_row_of(area),
        screen_view(area, state).area.is_row_of(area),
{
}

/// At most six events are shown, and the newest comes first.
pub proof fn law_newest_events_first(events: Seq<EventRecord>)
    ensures
        event_lines(events).len() <= 6,
        events.len() <= 6 ==> event_lines(events).len() == events.len(),
        events.len() > 0 ==> event_lines(events)[0] == event_line(events.last()),
        forall|i: int|
            0 <= i < event_lines(events).len() ==> #[trigger] event_lines(events)[i] == event_line(
                events[events.len() - 1 - i],
            ),
{
}

/// Parts of a text, borders, columns, lines and axes are seen as they are.
pub proof fn law_parts_are_seen_as_they_are(
    text: String,
    bytes: u64,
    number: Quantity,
    title: &'static str,
    column: Column,
    line: Line,
    axis: ChartAxis,
)
    ensures
        Piece::Text(text)@ == PieceView::Text(text@),
        Piece::Gibibytes(bytes)@ == PieceView::Gibibytes(bytes),
        Piece::Percent(number)@ == PieceView::Percent(number),
        Piece::ShareAsPercent(number)@ == PieceView::ShareAsPercent(number),
        Piece::Whole(number)@ == PieceView::Whole(number),
        Border::Bare@ == BorderView::Bare,
        Border::Plain@ == BorderView::Plain,
        Border::Titled(title)@ == BorderView::Titled(title@),
        column@.heading == column.heading@,
        column@.width == column.width,
        line@.name == line.name@,
        line@.color == line.color,
        line@.points == line.points@,
        axis@.extent == axis.extent,
        axis@.first_label == axis.first_label@,
        axis@.last_label == axis.last_label@,
{
}

/// A list of drawings is seen drawing by drawing, a table cell by cell, a text
/// part by part and a chart line by line.
pub proof fn law_drawings_are_seen_member_by_member(list: Seq<Drawing>, i: int, j: int, k: int)
    requires
        0 <= i < list.len(),
    ensures
        drawings(list).len() == list.len(),
        drawings(list)[i].area == list[i].area,
        match list[i].widget {
            Widget::Paragraph { text, border } => {
                let seen = drawings(list)[i].widget;
                &&& seen is Paragraph
                &&& seen->text.len() == text@.len()
                &&& 0 <= j < text@.len() ==> seen->text[j] == text@[j]@
                &&& seen->Paragraph_border == border@
            },
            Widget::Chart { lines, across, up, border } => {
                let seen = drawings(list)[i].widget;
                &&& seen is Chart
                &&& seen->lines.len() == lines@.len()
                &&& 0 <= j < lines@.len() ==> seen->lines[j] == lines@[j]@
                &&& seen->across == across@
                &&& seen->up == up@
                &&& seen->Chart_border == border@
            },
            Widget::Table { columns, rows, border } => {
                let seen = drawings(list)[i].widget;
                &&& seen is Table
                &&& seen->columns.len() == columns@.len()
                &&& 0 <= j < columns@.len() ==> seen->columns[j] == columns@[j]@
                &&& seen->rows.len() == rows@.len()
                &&& 0 <= j < rows@.len() ==> seen->rows[j].len() == rows@[j]@.len()
                &&& 0 <= j < rows@.len() && 0 <= k < rows@[j]@.len() ==> seen->rows[j][k]
                    == rows@[j]@[k]@
                &&& seen->Table_border == border@
            },
        },
{
}

/// The table of pools has a row for every pool, in their order, and each cell of
/// a row says what is known of that pool: its name, state, capacity, reads,
/// writes, errors and status.
pub proof fn law_pools_table_shows_every_pool(area: Area, state: AppState, i: int)
    requires
        state.last_snapshot is Some,
    ensures
        pools_view(area, state).area == area,
        pools_view(area, state).widget is Table,
        ({
            let pools = state.last_snapshot->0.pools@;
            let rows = pools_view(area, state).widget->rows;
            &&& rows.len() == pools.len()
            &&& 0 <= i < pools.len() ==> {
                &&& rows[i].len() == 7
                &&& rows[i][0] == PieceView::Text(pools[i].name@)
                &&& rows[i][1] == PieceView::Text(pools[i].state.name())
                &&& rows[i][2] == PieceView::Percent(pools[i].capacity_percent)
                &&& rows[i][3] == PieceView::Whole(pools[i].read_iops)
                &&& rows[i][4] == PieceView::Whole(pools[i].write_iops)
                &&& rows[i][5] is Text && number(rows[i][5]->Text_0) == Some(pools[i].error_count)
                &&& rows[i][6] == PieceView::Text(pools[i].status@)
            }
        }),
{
    let pools = state.last_snapshot->0.pools@;
    if 0 <= i < pools.len() {
        law_decimal_reads_back(pools[i].error_count);
    }
}

/// The columns of the table of pools: what stands above them and how wide they
/// are.
pub proof fn law_pools_table_has_its_columns(area: Area, state: AppState)
    ensures
        state.last_snapshot is Some ==> {
            let columns = pools_view(area, state).widget->columns;
            &&& columns.len() == 7
            &&& columns[0].heading == "pool"@ && columns[0].width == ColumnWidth::Exactly(16)
            &&& columns[1].heading == "state"@ && columns[1].width == ColumnWidth::Exactly(10)
            &&& columns[2].heading == "cap"@ && columns[2].width == ColumnWidth::Exactly(8)
            &&& columns[3].heading == "r iops"@ && columns[3].width == ColumnWidth::Exactly(8)
            &&& columns[4].heading == "w iops"@ && columns[4].width == ColumnWidth::Exactly(8)
            &&& columns[5].heading == "errors"@ && columns[5].width == ColumnWidth::Exactly(8)
            &&& columns[6].heading == "status"@ && columns[6].width == ColumnWidth::AtLeast(12)
            &&& pools_view(area, state).widget->Table_border == BorderView::Titled("Pools"@)
        },
{
}

/// The word in the header follows from the state alone: paused beats stale, and a
/// snapshot is stale once the time it may last has passed.
pub proof fn law_status_words(state: AppState, now: Instant)
    ensures
        state.paused ==> status_word(state, now) == "paused"@,
        !state.paused && state.last_snapshot is None ==> status_word(state, now)
            == "waiting for samples"@,
        !state.paused && state.last_snapshot is Some ==> {
            let snapshot = state.last_snapshot->0;
            let end = snapshot.generated_at.nanos + snapshot.stale_after.nanos;
            &&& end < now.nanos ==> status_word(state, now) == "stale"@
            &&& now.nanos <= end ==> status_word(state, now) == "live"@
        },
{
}

/// The header says the program, the screen, the status and the keys.
pub proof fn law_header_says_its_parts(
    area: Area,
    state: AppState,
    now: Instant,
    title: Seq<char>,
)
    ensures
        ({
            let header = header_view(area, state, now, title);
            &&& header.area == area
            &&& header.widget is Paragraph
            &&& header.widget->Paragraph_border == BorderView::Plain
            &&& header.widget->text.len() == 1
            &&& header.widget->text[0] == PieceView::Text(
                "zfs-io | "@ + title + " | "@ + status_word(state, now)
                    + " | 1 dashboard 2 pools 3 arc 4 events ? help q quit"@,
            )
        }),
{
}

/// The chart has a line of reads and a line of writes, with a point for every
/// point of the last minute: at the time since the first one, with its value.
pub proof fn law_chart_shows_the_last_minute(area: Area, state: AppState, titled: bool, i: int)
    requires
        state.last_snapshot is Some,
    ensures
        chart_view(area, state, titled).area == area,
        chart_view(area, state, titled).widget is Chart,
        ({
            let chart = chart_view(area, state, titled).widget;
            let read = state.last_snapshot->0.read_history.last_minute@;
            let write = state.last_snapshot->0.write_history.last_minute@;
            &&& chart->lines.len() == 2
            &&& chart->lines[0].name == "read"@ && chart->lines[0].color == LineColor::Blue
            &&& chart->lines[1].name == "write"@ && chart->lines[1].color == LineColor::Yellow
            &&& chart->lines[0].points.len() == read.len()
            &&& chart->lines[1].points.len() == write.len()
            &&& 0 <= i < read.len() ==> chart->lines[0].points[i].1 == read[i].value
            &&& 0 <= i < write.len() ==> chart->lines[1].points[i].1 == write[i].value
            &&& 0 <= i < read.len() && read[0].timestamp.nanos <= read[i].timestamp.nanos
                ==> read[0].timestamp.nanos + chart->lines[0].points[i].0.nanos
                == read[i].timestamp.nanos
            &&& 0 <= i < write.len() && write[0].timestamp.nanos <= write[i].timestamp.nanos
                ==> write[0].timestamp.nanos + chart->lines[1].points[i].0.nanos
                == write[i].timestamp.nanos
        }),
{
}

/// The axes of the chart: a minute across, and the largest value upwards.
pub proof fn law_chart_has_its_axes(area: Area, state: AppState, titled: bool)
    requires
        state.last_snapshot is Some,
    ensures
        ({
            let chart = chart_view(area, state, titled).widget;
            &&& chart->across.extent == AxisExtent::Exactly(60)
            &&& chart->across.first_label == "0s"@
            &&& chart->across.last_label == "60s"@
            &&& chart->up.extent == AxisExtent::LargestValueOr(1)
            &&& chart->up.first_label == "0"@
            &&& chart->up.last_label == "max"@
            &&& titled ==> chart->Chart_border == BorderView::Titled("Throughput"@)
            &&& !titled ==> chart->Chart_border == BorderView::Plain
        }),
{
}

/// The cache panel shows the size as the size, the target as the target, and the
/// two ratios each under its own name.
pub proof fn law_cache_panel_shows_each_number_under_its_name(area: Area, state: AppState)
    requires
        state.last_snapshot is Some,
    ensures
        arc_view(area, state).area == area,
        arc_view(area, state).widget is Paragraph,
        ({
            let arc = state.last_snapshot->0.arc;
            let panel = arc_view(area, state).widget;
            &&& panel->Paragraph_border == BorderView::Titled("ARC/L2ARC"@)
            &&& panel->text.len() == 8
            &&& panel->text[0] == PieceView::Text("ARC size: "@)
            &&& panel->text[1] == PieceView::Gibibytes(arc.size_bytes)
            &&& panel->text[2] == PieceView::Text(" GiB\nARC target: "@)
            &&& panel->text[3] == PieceView::Gibibytes(arc.target_bytes)
            &&& panel->text[4] == PieceView::Text(" GiB\nHit ratio: "@)
            &&& panel->text[5] == PieceView::ShareAsPercent(arc.hit_ratio)
            &&& panel->text[6] == PieceView::Text("\nMiss ratio: "@)
            &&& panel->text[7] == PieceView::ShareAsPercent(arc.miss_ratio)
        }),
{
}

/// Each event is a line of its severity and its message, and the newest six of
/// them stand in the panel, newest first, with line feeds between them.
pub proof fn law_event_panel_shows_the_newest(area: Area, state: AppState, i: int)
    requires
        state.last_snapshot is Some,
    ensures
        events_view(area, state).area == area,
        events_view(area, state).widget is Paragraph,
        ({
            let events = state.last_snapshot->0.events@;
            let panel = events_view(area, state).widget;
            let shown = event_lines(events);
            &&& panel->Paragraph_border == BorderView::Titled("Events"@)
            &&& panel->text.len() == 1
            &&& panel->text[0] == PieceView::Text(joined(shown, "\n"@))
            &&& events.len() < 6 ==> shown.len() == events.len()
            &&& events.len() >= 6 ==> shown.len() == 6
            &&& 0 <= i < shown.len() ==> {
                let event = events[events.len() - 1 - i];
                shown[i] == event.severity.name() + ": "@ + event.message@
            }
        }),
{
}

/// Before the first sample every panel says what it waits for.
pub proof fn law_panels_wait_for_samples(area: Area, state: AppState, titled: bool)
    requires
        state.last_snapshot is None,
    ensures
        chart_view(area, state, titled) == plain_text(
            area,
            "waiting for telemetry"@,
            BorderView::Bare,
        ),
        pools_view(area, state) == plain_text(
            area,
            "waiting for pool telemetry"@,
            BorderView::Bare,
        ),
        arc_view(area, state) == plain_text(
            area,
            "waiting for ARC telemetry"@,
            BorderView::Bare,
        ),
        events_view(area, state) == plain_text(area, "waiting for events"@, BorderView::Bare),
{
}

/// A plain text is a paragraph of that text alone.
pub proof fn law_plain_text_is_one_piece(area: Area, text: Seq<char>, border: BorderView)
    ensures
        plain_text(area, text, border).area == area,
        plain_text(area, text, border).widget is Paragraph,
        plain_text(area, text, border).widget->text.len() == 1,
        plain_text(area, text, border).widget->text[0] == PieceView::Text(text),
        plain_text(area, text, border).widget->Paragraph_border == border,
{
}

/// The dashboard has the header, the chart, the pools and the events, each in its
/// own row.
pub proof fn law_dashboard_has_its_panels(rows: DashboardRows, state: AppState, now: Instant)
    ensures
        dashboard_view(rows, state, now).len() == 4,
        dashboard_view(rows, state, now)[0] == header_view(
            rows.header,
            state,
            now,
            "Dashboard"@,
        ),
        dashboard_view(rows, state, now)[1] == chart_view(rows.chart, state, true),
        dashboard_view(rows, state, now)[2] == pools_view(rows.pools, state),
        dashboard_view(rows, state, now)[3] == events_view(rows.events, state),
        dashboard_view(rows, state, now)[0].area == rows.header,
        dashboard_view(rows, state, now)[1].area == rows.chart,
        dashboard_view(rows, state, now)[2].area == rows.pools,
        dashboard_view(rows, state, now)[3].area == rows.events,
{
}

/// Each screen shows its own panel.
pub proof fn law_screens_show_their_panels(area: Area, state: AppState)
    ensures
        state.screen == Screen::Pools ==> screen_view(area, state) == pools_view(area, state),
        state.screen == Screen::Arc ==> screen_view(area, state) == arc_view(area, state),
        state.screen == Screen::Events ==> screen_view(area, state) == events_view(area, state),
        state.screen == Screen::Help ==> screen_view(area, state) == help_view(area),
{
}

/// The rows of the dashboard have the full width of the area, lie inside it and
/// are an outcome of dividing it into three lines, 45 and 35 percent, and at
/// least three lines.
pub proof fn law_rows_lie_inside_the_area(area: Area, rows: DashboardRows)
    requires
        rows.divide(area),
    ensures
        is_division(
            area,
            3,
            45,
            35,
            3,
            seq![rows.header, rows.chart, rows.pools, rows.events],
        ),
        rows.header.x == area.x && rows.header.width == area.width,
        rows.chart.x == area.x && rows.chart.width == area.width,
        rows.pools.x == area.x && rows.pools.width == area.width,
        rows.events.x == area.x && rows.events.width == area.width,
        area.y <= rows.header.y && rows.header.y + rows.header.height <= area.y + area.height,
        area.y <= rows.chart.y && rows.chart.y + rows.chart.height <= area.y + area.height,
        area.y <= rows.pools.y && rows.pools.y + rows.pools.height <= area.y + area.height,
        area.y <= rows.events.y && rows.events.y + rows.events.height <= area.y + area.height,
{
}

} // verus!
