use super::Formatter;
use crate::clock::{utc_time, utc_time_text};
use crate::model::{views_of, Event, EventView, Todo, TodoView};
use crate::style::{StyleDisplay, Styler};
use crate::text::{blanks, id_text, join, joined, spaces};
use vstd::prelude::*;
use vstd::string::*;

pub mod col;

pub use col::{Col, ColView};

verus! {

pub const ID_COL_WIDTH: usize = 3;

pub const PRIO_COL_WIDTH: usize = 10;

pub const STATUS_COL_WIDTH: usize = 8;

pub const CTX_COL_WIDTH: usize = 12;

pub const SUBJECT_COL_WIDTH: usize = 50;

pub const ACTION_COL_WIDTH: usize = 8;

pub const TIMESTAMP_COL_WIDTH: usize = 20;

pub const DETAILS_COL_WIDTH: usize = 50;

/// Specifies how to align the content.
#[derive(Clone, Copy, Debug, PartialEq, Eq, Structural)]
pub enum Align {
    Left,
    Center,
}

/// The blanks that go before a text of `len` characters that is to fill
/// `size`.
pub open spec fn pad_before(len: int, size: int, align: Align) -> int {
    let d = size - len;
    match align {
        Align::Left => 0,
        Align::Center => if d / 2 == 0 {
            d
        } else {
            d / 2
        },
    }
}

/// The text `s` filled up with blanks to `size` characters: behind it, or
/// on both sides, the odd blank behind; a single blank goes before.
pub open spec fn padded(s: Seq<char>, size: int, align: Align) -> Seq<char> {
    let before = pad_before(s.len() as int, size, align);
    blanks(before as nat) + s + blanks((size - s.len() - before) as nat)
}

/// Pads `s` to fill out the given `size`.
pub fn pad(s: &str, size: usize, align: &Align) -> (r: String)
    requires
        s@.len() <= size,
    ensures
        r@ == padded(s@, size as int, *align),
        r@.len() == size,
{
    let d = size - s.unicode_len();
    if d == 0 {
        let r = s.to_owned();
        assert(r@ =~= padded(s@, size as int, *align));
        return r;
    }
    let (left, right) = match align {
        Align::Left => (0, d),
        Align::Center => {
            let n = d / 2;
            if n == 0 {
                (d, 0)
            } else {
                (n, d - n)
            }
        },
    };
    let mut out = spaces(left);
    out.append(s);
    let tail = spaces(right);
    out.append(tail.as_str());
    out
}

/// The text `s` cut to less than `size` characters, the cut shown by three
/// dots.
pub open spec fn truncated(s: Seq<char>, size: int) -> Seq<char> {
    if s.len() < size {
        s
    } else {
        s.take(size - 4) + " ..."@
    }
}

/// Truncates `s` to less than `size` characters.
pub fn truncate(s: &str, size: usize) -> (r: String)
    requires
        size >= 4,
    ensures
        r@ == truncated(s@, size as int),
{
    if s.unicode_len() < size {
        s.to_owned()
    } else {
        let head = s.substring_char(0, size - 4).to_owned();
        assert(head@ =~= s@.take(size - 4));
        head.concat(" ...")
    }
}

/// The head of a column.
#[derive(Debug)]
pub struct Header(pub String);

impl Header {
    pub fn from(s: &str) -> (r: Self)
        ensures
            r.0@ == s@,
    {
        Self(s.to_owned())
    }
}

impl StyleDisplay for Header {
    open spec fn styled_as(&self) -> Styler {
        Styler { fg: None, bold: true, underline: false }
    }

    open spec fn shown_as(&self) -> Seq<char> {
        self.0@
    }

    fn text(&self) -> (r: String) {
        self.0.clone()
    }

    fn styler(&self) -> (r: Styler) {
        Styler::default().bold(true)
    }

    fn style(&self) -> (r: String) {
        self.styler().style(self.0.as_str())
    }
}

/// The number of lines of the column that has the most.
pub open spec fn max_height(cols: Seq<Col>) -> nat
    decreases cols.len(),
{
    if cols.len() == 0 {
        0
    } else {
        let rest = max_height(cols.drop_last());
        if cols.last().lines@.len() > rest {
            cols.last().lines@.len()
        } else {
            rest
        }
    }
}

/// True when no column has a style.
pub open spec fn all_plain(cols: Seq<Col>) -> bool {
    forall|i: int| 0 <= i < cols.len() ==> (#[trigger] cols[i]).styler.is_plain()
}

/// The `n`th line of a row, before any style: what the columns show on
/// that line, with a blank between them.
pub open spec fn row_line(cols: Seq<Col>, n: int) -> Seq<char> {
    joined(Seq::new(cols.len(), |c: int| cols[c].cell(n)), " "@)
}

/// A row, before any style: its lines, as many as its highest column has,
/// with a line end between them.
pub open spec fn row_text(cols: Seq<Col>) -> Seq<char> {
    joined(Seq::new(max_height(cols), |n: int| row_line(cols, n)), "\n"@)
}

/// The number of lines of the column that has the most.
pub open spec fn highest(cols: Seq<ColView>) -> nat
    decreases cols.len(),
{
    if cols.len() == 0 {
        0
    } else {
        let rest = highest(cols.drop_last());
        if cols.last().lines.len() > rest {
            cols.last().lines.len()
        } else {
            rest
        }
    }
}

/// The columns count the same lines whether taken as they are or by what
/// they hold.
pub proof fn lemma_highest(cols: Seq<Col>)
    ensures
        highest(views_of(cols)) == max_height(cols),
    decreases cols.len(),
{
    if cols.len() > 0 {
        lemma_highest(cols.drop_last());
        assert(views_of(cols).drop_last() =~= views_of(cols.drop_last()));
    }
}

/// True when `cells` can be what the columns hand out for a row: one line
/// of cells for each line of the highest column, and in each line one cell
/// from each column.
pub open spec fn row_of(cols: Seq<ColView>, cells: Seq<Seq<Seq<char>>>) -> bool {
    &&& cells.len() == highest(cols)
    &&& forall|n: int| 0 <= n < cells.len() ==> (#[trigger] cells[n]).len() == cols.len()
    &&& forall|n: int, c: int|
        0 <= n < cells.len() && 0 <= c < cols.len() ==> cols[c].shows(n, #[trigger] cells[n][c])
}

/// The text of the cells of a row: in each line the cells with a blank
/// between them, and a line end between the lines.
pub open spec fn cells_text(cells: Seq<Seq<Seq<char>>>) -> Seq<char> {
    joined(Seq::new(cells.len(), |n: int| joined(cells[n], " "@)), "\n"@)
}

/// True when `out` can be the text of the row of the columns `cols`: the
/// cells that the columns hand out, side by side and line by line. A
/// column without a style hands out its lines as they are; what a column
/// with a style hands out is left to the terminal.
pub open spec fn is_row(cols: Seq<ColView>, out: Seq<char>) -> bool {
    exists|cells: Seq<Seq<Seq<char>>>| #[trigger] row_of(cols, cells) && out == cells_text(cells)
}

/// The cells that columns without a style hand out for a row: their
/// lines, and blanks where a column has fewer lines than the highest.
pub open spec fn plain_cells(cols: Seq<ColView>) -> Seq<Seq<Seq<char>>> {
    Seq::new(highest(cols), |n: int| Seq::new(cols.len(), |c: int| cols[c].cell(n)))
}

/// The text of a row of columns without a style is the text of their
/// lines, side by side, and no other.
pub proof fn plain_row_is_exact(cols: Seq<ColView>, out: Seq<char>)
    requires
        forall|c: int| 0 <= c < cols.len() ==> (#[trigger] cols[c]).styler.is_plain(),
    ensures
        is_row(cols, out) <==> out == cells_text(plain_cells(cols)),
{
    if is_row(cols, out) {
        let cells = choose|cells: Seq<Seq<Seq<char>>>| #[trigger]
            row_of(cols, cells) && out == cells_text(cells);
        assert forall|n: int| 0 <= n < cells.len() implies #[trigger] cells[n] == plain_cells(
            cols,
        )[n] by {
            assert forall|c: int| 0 <= c < cols.len() implies cells[n][c] == plain_cells(
                cols,
            )[n][c] by {
                assert(cols[c].shows(n, cells[n][c]));
            }
            assert(cells[n] =~= plain_cells(cols)[n]);
        }
        assert(cells =~= plain_cells(cols));
    }
    if out == cells_text(plain_cells(cols)) {
        assert(row_of(cols, plain_cells(cols)));
    }
}

/// True when `head` can be the text of the row `header` and `texts` the
/// texts of the rows `rows`, one for each.
pub open spec fn table_of(
    header: Seq<ColView>,
    rows: Seq<Seq<ColView>>,
    head: Seq<char>,
    texts: Seq<Seq<char>>,
) -> bool {
    &&& is_row(header, head)
    &&& texts.len() == rows.len()
    &&& forall|i: int| 0 <= i < rows.len() ==> is_row(rows[i], #[trigger] texts[i])
}

/// True when `out` can be the text of the table with the head `header` and
/// the rows `rows`: the row of the head, a line end, and the rows with a
/// line end between them.
pub open spec fn is_table(header: Seq<ColView>, rows: Seq<Seq<ColView>>, out: Seq<char>) -> bool {
    exists|head: Seq<char>, texts: Seq<Seq<char>>| #[trigger]
        table_of(header, rows, head, texts) && out == head + "\n"@ + joined(texts, "\n"@)
}

/// The style of the head of a table: bold.
pub open spec fn head_style() -> Styler {
    Styler { fg: None, bold: true, underline: false }
}

/// The style of a column that shows its text as it is.
pub open spec fn plain_style() -> Styler {
    Styler { fg: None, bold: false, underline: false }
}

/// The columns of the head of the table of todos.
pub open spec fn todo_header_columns() -> Seq<ColView> {
    seq![
        col::column(" ID"@, ID_COL_WIDTH as nat, Align::Left, head_style()),
        col::column("Priority"@, PRIO_COL_WIDTH as nat, Align::Left, head_style()),
        col::column("Status"@, STATUS_COL_WIDTH as nat, Align::Left, head_style()),
        col::column("Context"@, CTX_COL_WIDTH as nat, Align::Left, head_style()),
        col::column("Subject"@, SUBJECT_COL_WIDTH as nat, Align::Left, head_style()),
    ]
}

/// The columns of the head of the table of events.
pub open spec fn event_header_columns() -> Seq<ColView> {
    seq![
        col::column(" ID"@, ID_COL_WIDTH as nat, Align::Left, head_style()),
        col::column("Action"@, ACTION_COL_WIDTH as nat, Align::Center, head_style()),
        col::column("Timestamp"@, TIMESTAMP_COL_WIDTH as nat, Align::Left, head_style()),
        col::column("Details"@, DETAILS_COL_WIDTH as nat, Align::Left, head_style()),
    ]
}

/// The columns of the row of a todo: its identifier behind a blank, its
/// priority and its status in their styles, its context cut to the width
/// of the column, and its subject.
pub open spec fn todo_columns(todo: TodoView) -> Seq<ColView> {
    seq![
        col::column(
            " "@ + crate::text::decimal(todo.id.0 as nat),
            ID_COL_WIDTH as nat,
            Align::Left,
            plain_style(),
        ),
        col::column(todo.prio.name(), PRIO_COL_WIDTH as nat, Align::Left, todo.prio.styled_as()),
        col::column(
            todo.status.name(),
            STATUS_COL_WIDTH as nat,
            Align::Left,
            todo.status.styled_as(),
        ),
        col::column(context_cell(todo.context), CTX_COL_WIDTH as nat, Align::Left, plain_style()),
        col::column(todo.subject, SUBJECT_COL_WIDTH as nat, Align::Left, plain_style()),
    ]
}

/// The columns of the row of an event: its number behind a blank, its
/// action in its style and in the middle of the column, the second of its
/// time, and what the event says.
pub open spec fn event_columns(event: EventView) -> Seq<ColView> {
    seq![
        col::column(
            " "@ + crate::text::decimal(event.id.0 as nat),
            ID_COL_WIDTH as nat,
            Align::Left,
            plain_style(),
        ),
        col::column(
            event.action.name(),
            ACTION_COL_WIDTH as nat,
            Align::Center,
            event.action.styled_as(),
        ),
        col::column(
            shown_time(event.timestamp),
            TIMESTAMP_COL_WIDTH as nat,
            Align::Left,
            plain_style(),
        ),
        col::column(event.kind.described(), DETAILS_COL_WIDTH as nat, Align::Left, plain_style()),
    ]
}

/// The rows of the todos `todos`, one for each.
pub open spec fn todo_rows(todos: Seq<Todo>) -> Seq<Seq<ColView>> {
    Seq::new(todos.len(), |i: int| todo_columns(todos[i]@))
}

/// The rows of the events `events`, one for each.
pub open spec fn event_rows(events: Seq<Event>) -> Seq<Seq<ColView>> {
    Seq::new(events.len(), |i: int| event_columns(events[i]@))
}

/// The text of a table: the head, a line end, and the rows with a line end
/// between them.
pub fn table_text(head: String, rows: &Vec<String>) -> (r: String)
    ensures
        r@ == head@ + "\n"@ + joined(views_of(rows@), "\n"@),
{
    let table = join(rows, "\n");
    head.concat("\n").concat(table.as_str())
}

/// The number of lines of the column that has the most.
pub fn height_of(cols: &[Col]) -> (r: usize)
    ensures
        r == max_height(cols@),
{
    let mut height: usize = 0;
    let mut i: usize = 0;
    assert(cols@.take(0) =~= Seq::<Col>::empty());
    while i < cols.len()
        invariant
            i <= cols@.len(),
            height == max_height(cols@.take(i as int)),
        decreases cols@.len() - i,
    {
        proof {
            assert(cols@.take(i as int + 1).drop_last() =~= cols@.take(i as int));
            assert(cols@.take(i as int + 1).last() == cols@[i as int]);
        }
        if cols[i].height() > height {
            height = cols[i].height();
        }
        i += 1;
    }
    assert(cols@.take(i as int) =~= cols@);
    height
}

/// The columns side by side, as one row of as many lines as the highest
/// column has. Where no column has a style, the text is `row_text`; with a
/// style it holds the codes of the terminal as well.
pub fn format_row(cols: &[Col]) -> (r: String)
    ensures
        is_row(views_of(cols@), r@),
        all_plain(cols@) ==> r@ == row_text(cols@),
{
    let height = height_of(cols);
    let ghost views = views_of(cols@);
    let ghost mut cells: Seq<Seq<Seq<char>>> = Seq::empty();
    let mut rows: Vec<String> = Vec::new();
    let mut row: usize = 0;
    proof {
        lemma_highest(cols@);
    }
    while row < height
        invariant
            row <= height,
            height == max_height(cols@),
            views == views_of(cols@),
            rows@.len() == row,
            cells.len() == row,
            forall|n: int| 0 <= n < row ==> (#[trigger] cells[n]).len() == cols@.len(),
            forall|n: int, c: int|
                0 <= n < row && 0 <= c < cols@.len() ==> views[c].shows(n, #[trigger] cells[n][c]),
            forall|n: int| 0 <= n < row ==> (#[trigger] rows@[n])@ == joined(cells[n], " "@),
            all_plain(cols@) ==> forall|n: int|
                0 <= n < row ==> (#[trigger] rows@[n])@ == row_line(cols@, n),
        decreases height - row,
    {
        let mut curr: Vec<String> = Vec::new();
        let mut c: usize = 0;
        while c < cols.len()
            invariant
                c <= cols@.len(),
                curr@.len() == c,
                views == views_of(cols@),
                forall|k: int| 0 <= k < c ==> views[k].shows(row as int, (#[trigger] curr@[k])@),
                all_plain(cols@) ==> forall|k: int|
                    0 <= k < c ==> (#[trigger] curr@[k])@ == cols@[k].cell(row as int),
            decreases cols@.len() - c,
        {
            let s = cols[c].nth(row);
            curr.push(s);
            c += 1;
        }
        proof {
            if all_plain(cols@) {
                assert(views_of(curr@) =~= Seq::new(
                    cols@.len(),
                    |c: int| cols@[c].cell(row as int),
                ));
            }
            let line = views_of(curr@);
            assert forall|k: int| 0 <= k < cols@.len() implies views[k].shows(
                row as int,
                #[trigger] line[k],
            ) by {
                assert(line[k] == curr@[k]@);
            }
            cells = cells.push(line);
        }
        rows.push(join(&curr, " "));
        row += 1;
    }
    proof {
        if all_plain(cols@) {
            assert(views_of(rows@) =~= Seq::new(max_height(cols@), |n: int| row_line(cols@, n)));
        }
        assert(views_of(rows@) =~= Seq::new(cells.len(), |n: int| joined(cells[n], " "@)));
        assert(row_of(views, cells));
    }
    join(&rows, "\n")
}

/// Formats a list of todos into a table.
#[derive(Debug)]
pub struct TableFormatter {}

/// What the column of the time shows for a time in milliseconds: the
/// second in which it falls, in the time zone UTC, and nothing for a time
/// that cannot be written.
pub open spec fn shown_time(millis: i64) -> Seq<char> {
    match utc_time(second_of(millis)) {
        Some(t) => t,
        None => Seq::<char>::empty(),
    }
}

/// The second in which a time in milliseconds falls: the seconds since the
/// epoch, rounded down.
pub open spec fn second_of(millis: i64) -> i64 {
    if millis >= 0 {
        (millis / 1000) as i64
    } else {
        (-((-(millis + 1)) / 1000) - 1) as i64
    }
}

/// The text of a time in milliseconds for the table.
pub fn timestamp_text(millis: i64) -> (r: String)
    ensures
        r@ == shown_time(millis),
{
    let secs = if millis >= 0 {
        millis / 1000
    } else {
        0 - ((0 - (millis + 1)) / 1000) - 1
    };
    match utc_time_text(secs) {
        Some(t) => t,
        None => String::new(),
    }
}

/// What the column of the context shows for a todo.
pub open spec fn context_cell(context: Option<Seq<char>>) -> Seq<char> {
    match context {
        Some(c) => truncated(c, CTX_COL_WIDTH as int),
        None => Seq::<char>::empty(),
    }
}

impl TableFormatter {
    pub fn new(_color: bool) -> (r: Self) {
        Self {  }
    }

    /// The head of the table: the names of the columns, in bold, as one
    /// row.
    pub fn todo_table_header(&self) -> (r: String)
        ensures
            is_row(todo_header_columns(), r@),
    {
        let id = Header::from(" ID");
        let prio = Header::from("Priority");
        let status = Header::from("Status");
        let ctx = Header::from("Context");
        let subject = Header::from("Subject");
        let mut header: Vec<Col> = Vec::new();
        header.push(Col::new(ID_COL_WIDTH, &id, Align::Left));
        header.push(Col::new(PRIO_COL_WIDTH, &prio, Align::Left));
        header.push(Col::new(STATUS_COL_WIDTH, &status, Align::Left));
        header.push(Col::new(CTX_COL_WIDTH, &ctx, Align::Left));
        header.push(Col::new(SUBJECT_COL_WIDTH, &subject, Align::Left));
        assert(views_of(header@) =~= todo_header_columns());
        format_row(header.as_slice())
    }

    /// The head of the table of events: the names of the columns, in
    /// bold, as one row.
    pub fn event_table_header(&self) -> (r: String)
        ensures
            is_row(event_header_columns(), r@),
    {
        let id = Header::from(" ID");
        let action = Header::from("Action");
        let timestamp = Header::from("Timestamp");
        let details = Header::from("Details");
        let mut header: Vec<Col> = Vec::new();
        header.push(Col::new(ID_COL_WIDTH, &id, Align::Left));
        header.push(Col::new(ACTION_COL_WIDTH, &action, Align::Center));
        header.push(Col::new(TIMESTAMP_COL_WIDTH, &timestamp, Align::Left));
        header.push(Col::new(DETAILS_COL_WIDTH, &details, Align::Left));
        assert(views_of(header@) =~= event_header_columns());
        format_row(header.as_slice())
    }

    /// The columns of one event: its number, its action in the middle of
    /// its column, the time in the time of this machine, and what the
    /// event says.
    pub fn map_event(event: &Event) -> (r: Vec<Col>)
        ensures
            views_of(r@) == event_columns(event@),
            r@.len() == 4,
            r@[0].width == ID_COL_WIDTH && r@[1].width == ACTION_COL_WIDTH && r@[2].width
                == TIMESTAMP_COL_WIDTH && r@[3].width == DETAILS_COL_WIDTH,
            r@[1].styler == event.action.styled_as(),
            r@[0].styler.is_plain() && r@[2].styler.is_plain() && r@[3].styler.is_plain(),
            forall|i: int| 0 <= i < 4 ==> (#[trigger] r@[i]).wf(),
            views_of(r@[0].lines@) == col::column_lines(
                " "@ + crate::text::decimal(event.id.0 as nat),
                ID_COL_WIDTH as int,
            ),
            views_of(r@[1].lines@) == col::padded_all(
                crate::util::all_chunked(
                    crate::text::lines_of(event.action.name()),
                    ACTION_COL_WIDTH as int,
                ),
                ACTION_COL_WIDTH as int,
                Align::Center,
            ),
            views_of(r@[2].lines@) == col::column_lines(
                shown_time(event.timestamp),
                TIMESTAMP_COL_WIDTH as int,
            ),
            views_of(r@[3].lines@) == col::column_lines(
                event.kind@.described(),
                DETAILS_COL_WIDTH as int,
            ),
    {
        let id_text = String::from_str(" ").concat(id_text(event.id).as_str());
        let id = Col::new(ID_COL_WIDTH, &id_text, Align::Left);
        let action = Col::new(ACTION_COL_WIDTH, &event.action, Align::Center);
        let time = timestamp_text(event.timestamp);
        let timestamp = Col::new(TIMESTAMP_COL_WIDTH, &time, Align::Left);
        let details = Col::new(DETAILS_COL_WIDTH, &event.kind.to_string(), Align::Left);
        let mut out: Vec<Col> = Vec::new();
        out.push(id);
        out.push(action);
        out.push(timestamp);
        out.push(details);
        assert(views_of(out@) =~= event_columns(event@));
        out
    }

    /// The columns of one todo: identifier, priority, status, context and
    /// subject, each in its width and style.
    pub fn map_todo(todo: &Todo) -> (r: Vec<Col>)
        ensures
            views_of(r@) == todo_columns(todo@),
            r@.len() == 5,
            r@[0].width == ID_COL_WIDTH && r@[1].width == PRIO_COL_WIDTH && r@[2].width
                == STATUS_COL_WIDTH && r@[3].width == CTX_COL_WIDTH && r@[4].width
                == SUBJECT_COL_WIDTH,
            r@[1].styler == todo.prio.styled_as(),
            r@[2].styler == todo.status.styled_as(),
            r@[0].styler.is_plain() && r@[3].styler.is_plain() && r@[4].styler.is_plain(),
            forall|i: int| 0 <= i < 5 ==> (#[trigger] r@[i]).wf(),
            views_of(r@[0].lines@) == col::column_lines(
                " "@ + crate::text::decimal(todo.id.0 as nat),
                ID_COL_WIDTH as int,
            ),
            views_of(r@[1].lines@) == col::column_lines(todo.prio.name(), PRIO_COL_WIDTH as int),
            views_of(r@[2].lines@) == col::column_lines(
                todo.status.name(),
                STATUS_COL_WIDTH as int,
            ),
            views_of(r@[3].lines@) == col::column_lines(
                context_cell(crate::model::todo::text_of(todo.context)),
                CTX_COL_WIDTH as int,
            ),
            views_of(r@[4].lines@) == col::column_lines(todo.subject@, SUBJECT_COL_WIDTH as int),
    {
        let id_text = String::from_str(" ").concat(id_text(todo.id).as_str());
        let id = Col::new(ID_COL_WIDTH, &id_text, Align::Left);
        let prio = Col::new(PRIO_COL_WIDTH, &todo.prio, Align::Left);
        let status = Col::new(STATUS_COL_WIDTH, &todo.status, Align::Left);
        let subject = Col::new(SUBJECT_COL_WIDTH, &todo.subject, Align::Left);
        let context = match &todo.context {
            Some(cx) => Col::new(CTX_COL_WIDTH, &truncate(cx.as_str(), CTX_COL_WIDTH), Align::Left),
            None => Col::new(CTX_COL_WIDTH, &String::new(), Align::Left),
        };
        let mut out: Vec<Col> = Vec::new();
        out.push(id);
        out.push(prio);
        out.push(status);
        out.push(context);
        out.push(subject);
        assert(views_of(out@) =~= todo_columns(todo@));
        out
    }
}

impl Formatter for TableFormatter {
    /// The table of the todos: the head, then one row for each todo, in
    /// their order.
    fn todos(&self, todos: &[Todo]) -> (r: String)
        ensures
            is_table(todo_header_columns(), todo_rows(todos@), r@),
    {
        let mut rows: Vec<String> = Vec::new();
        let mut i: usize = 0;
        while i < todos.len()
            invariant
                i <= todos@.len(),
                rows@.len() == i,
                forall|k: int|
                    0 <= k < i ==> is_row(todo_columns(todos@[k]@), (#[trigger] rows@[k])@),
            decreases todos@.len() - i,
        {
            let cols = TableFormatter::map_todo(&todos[i]);
            rows.push(format_row(cols.as_slice()));
            i += 1;
        }
        let head = self.todo_table_header();
        proof {
            let texts = views_of(rows@);
            assert forall|k: int| 0 <= k < todo_rows(todos@).len() implies is_row(
                todo_rows(todos@)[k],
                #[trigger] texts[k],
            ) by {
                assert(texts[k] == rows@[k]@);
            }
            assert(table_of(todo_header_columns(), todo_rows(todos@), head@, texts));
        }
        table_text(head, &rows)
    }

    /// The table of one todo: the head and the row of the todo.
    fn todo(&self, todo: &Todo) -> (r: String)
        ensures
            is_table(todo_header_columns(), seq![todo_columns(todo@)], r@),
    {
        let cols = TableFormatter::map_todo(todo);
        let mut rows: Vec<String> = Vec::new();
        rows.push(format_row(cols.as_slice()));
        let head = self.todo_table_header();
        proof {
            let texts = views_of(rows@);
            assert(texts[0] == rows@[0]@);
            assert(table_of(todo_header_columns(), seq![todo_columns(todo@)], head@, texts));
        }
        table_text(head, &rows)
    }

    /// The table of the events: the head, then one row for each event, in
    /// their order.
    fn events(&self, events: &[Event]) -> (r: String)
        ensures
            is_table(event_header_columns(), event_rows(events@), r@),
    {
        let mut rows: Vec<String> = Vec::new();
        let mut i: usize = 0;
        while i < events.len()
            invariant
                i <= events@.len(),
                rows@.len() == i,
                forall|k: int|
                    0 <= k < i ==> is_row(event_columns(events@[k]@), (#[trigger] rows@[k])@),
            decreases events@.len() - i,
        {
            let cols = TableFormatter::map_event(&events[i]);
            rows.push(format_row(cols.as_slice()));
            i += 1;
        }
        let head = self.event_table_header();
        proof {
            let texts = views_of(rows@);
            assert forall|k: int| 0 <= k < event_rows(events@).len() implies is_row(
                event_rows(events@)[k],
                #[trigger] texts[k],
            ) by {
                assert(texts[k] == rows@[k]@);
            }
            assert(table_of(event_header_columns(), event_rows(events@), head@, texts));
        }
        table_text(head, &rows)
    }
}

} // verus!
