//! The operator's commands, and the choice of what is shown.

use crate::app::{index_after, index_before, item_views, App, Row, SelectedItem};
use crate::clock::Elapsed;
use crate::monitor::{CheckResult, ServiceCheck};
use crate::store::views;
use crate::text::{decimal, decimal_string, opt_text};
use vstd::prelude::*;
use vstd::string::StringExecFns;

verus! {

/// A key that the operator pressed.
#[derive(Debug, Clone, Copy, PartialEq, Eq, Structural)]
pub enum Key {
    Char(char),
    Esc,
    Enter,
    Up,
    Down,
    Other,
}

/// What the operator can ask for.
#[derive(Debug, Clone, Copy, PartialEq, Eq, Structural)]
pub enum Command {
    Quit,
    ToggleHelp,
    MoveNext,
    MovePrevious,
    ManualRefresh,
    EnterDetail,
    ExitDetail,
}

/// What the loop that reads the keys does after a command.
#[derive(Debug, Clone, Copy, PartialEq, Eq, Structural)]
pub enum LoopAction {
    /// Leave the loop.
    Quit,
    /// Have a round of checks made now, and take the store's results anew.
    Refresh,
    /// Go on.
    Continue,
}

/// What fills the main area of the screen.
#[derive(Debug, Clone, Copy, PartialEq, Eq, Structural)]
pub enum RenderMode {
    Help,
    HostDetail,
    Overview,
}

/// The command that a key stands for, if it stands for one.
pub open spec fn command_of(key: Key) -> Option<Command> {
    match key {
        Key::Char(c) => if c == 'q' {
            Some(Command::Quit)
        } else if c == 'h' {
            Some(Command::ToggleHelp)
        } else if c == 'j' {
            Some(Command::MoveNext)
        } else if c == 'k' {
            Some(Command::MovePrevious)
        } else if c == 'r' {
            Some(Command::ManualRefresh)
        } else if c == 'b' || c == 'B' {
            Some(Command::ExitDetail)
        } else {
            None
        },
        Key::Esc => Some(Command::Quit),
        Key::Enter => Some(Command::EnterDetail),
        Key::Up => Some(Command::MovePrevious),
        Key::Down => Some(Command::MoveNext),
        Key::Other => None,
    }
}

/// The command that a key stands for, if it stands for one.
pub fn command_for_key(key: Key) -> (r: Option<Command>)
    ensures
        r == command_of(key),
{
    match key {
        Key::Char(c) => {
            if c == 'q' {
                Some(Command::Quit)
            } else if c == 'h' {
                Some(Command::ToggleHelp)
            } else if c == 'j' {
                Some(Command::MoveNext)
            } else if c == 'k' {
                Some(Command::MovePrevious)
            } else if c == 'r' {
                Some(Command::ManualRefresh)
            } else if c == 'b' || c == 'B' {
                Some(Command::ExitDetail)
            } else {
                None
            }
        },
        Key::Esc => Some(Command::Quit),
        Key::Enter => Some(Command::EnterDetail),
        Key::Up => Some(Command::MovePrevious),
        Key::Down => Some(Command::MoveNext),
        Key::Other => None,
    }
}

/// What the loop does after `command`.
pub open spec fn action_of(command: Command) -> LoopAction {
    match command {
        Command::Quit => LoopAction::Quit,
        Command::ManualRefresh => LoopAction::Refresh,
        _ => LoopAction::Continue,
    }
}

/// What is shown for the flags `show_help` and `show_host_detail`: the help
/// goes before the host detail, and the host detail before the overview.
pub open spec fn mode_of(show_help: bool, show_host_detail: bool) -> RenderMode {
    if show_help {
        RenderMode::Help
    } else if show_host_detail {
        RenderMode::HostDetail
    } else {
        RenderMode::Overview
    }
}

impl App {
    /// What fills the main area of the screen.
    pub fn render_mode(&self) -> (r: RenderMode)
        ensures
            r == mode_of(self.show_help, self.show_host_detail),
    {
        if self.show_help {
            RenderMode::Help
        } else if self.show_host_detail {
            RenderMode::HostDetail
        } else {
            RenderMode::Overview
        }
    }

    /// Carries out `command` on the session, and says what the loop does
    /// next. The host detail opens only while the help is hidden, and closes
    /// only while it is open.
    pub fn handle_command(&mut self, command: Command) -> (r: LoopAction)
        requires
            command is MoveNext || command is MovePrevious ==> old(self).total_items() <= usize::MAX,
        ensures
            r == action_of(command),
            final(self).config == old(self).config,
            final(self).statuses == old(self).statuses,
            final(self).last_update == old(self).last_update,
            final(self).show_help == if command is ToggleHelp {
                !old(self).show_help
            } else {
                old(self).show_help
            },
            final(self).selected_index == match command {
                Command::MoveNext => index_after(old(self).selected_index as int, old(self).total_items() as int),
                Command::MovePrevious => index_before(
                    old(self).selected_index as int,
                    old(self).total_items() as int,
                ),
                _ => old(self).selected_index as int,
            },
            match command {
                Command::EnterDetail if !old(self).show_help => match old(self).selected_item(
                    old(self).selected_index as int,
                ) {
                    Some(row) => final(self).show_host_detail && opt_text(final(self).selected_host_name)
                        == Some(Self::host_of(row)),
                    None => final(self).show_host_detail == old(self).show_host_detail
                        && final(self).selected_host_name == old(self).selected_host_name,
                },
                Command::ExitDetail if old(self).show_host_detail => !final(self).show_host_detail
                    && final(self).selected_host_name is None,
                _ => final(self).show_host_detail == old(self).show_host_detail
                    && final(self).selected_host_name == old(self).selected_host_name,
            },
    {
        match command {
            Command::Quit => LoopAction::Quit,
            Command::ToggleHelp => {
                self.toggle_help();
                LoopAction::Continue
            },
            Command::MoveNext => {
                self.next_item();
                LoopAction::Continue
            },
            Command::MovePrevious => {
                self.previous_item();
                LoopAction::Continue
            },
            Command::ManualRefresh => LoopAction::Refresh,
            Command::EnterDetail => {
                if !self.show_help {
                    self.enter_host_detail();
                }
                LoopAction::Continue
            },
            Command::ExitDetail => {
                if self.show_host_detail {
                    self.exit_host_detail();
                }
                LoopAction::Continue
            },
        }
    }
}

/// The time between two refreshes of what is shown: 250 milliseconds.
pub fn tick_rate() -> (r: Elapsed)
    ensures
        r.nanos == 250_000_000,
{
    Elapsed::from_millis(250)
}

/// How long the loop may wait for a key when `since_tick` has passed since
/// the last refresh: what is left of the tick, and no time where the tick is
/// over.
pub fn poll_timeout(since_tick: Elapsed) -> (r: Elapsed)
    ensures
        r.nanos == if since_tick.nanos <= 250_000_000 {
            250_000_000 - since_tick.nanos
        } else {
            0
        },
{
    tick_rate().saturating_sub(since_tick)
}

/// Whether a refresh is due when `since_tick` has passed since the last.
pub fn tick_due(since_tick: Elapsed) -> (r: bool)
    ensures
        r == (since_tick.nanos >= 250_000_000),
{
    since_tick.nanos >= tick_rate().nanos
}

/// How a response time is shown: in whole milliseconds, and as not available
/// where it is under one millisecond.
pub open spec fn response_time_label(response_time: Elapsed) -> Seq<char> {
    if response_time.nanos / 1_000_000 > 0 {
        decimal((response_time.nanos / 1_000_000) as nat) + "ms"@
    } else {
        "N/A"@
    }
}

/// How a response time is shown.
pub fn response_time_text(response_time: Elapsed) -> (r: String)
    ensures
        r@ == response_time_label(response_time),
{
    let millis = response_time.as_millis();
    if millis > 0 {
        let mut text = decimal_string(millis);
        text.append("ms");
        text
    } else {
        String::from_str("N/A")
    }
}

/// The keys that the status bar names for what is shown.
pub open spec fn hint_of(mode: RenderMode) -> Seq<char> {
    match mode {
        RenderMode::Help => "Press 'h' to hide help | Press 'q' to quit"@,
        RenderMode::HostDetail => "Press 'b' to go back | Press 'q' to quit"@,
        RenderMode::Overview => "Press 'h' for help | Press 'q' to quit | Press 'r' to refresh | Press 'Enter' for host details"@,
    }
}

/// The keys that the status bar names for what is shown.
pub fn status_hint(mode: RenderMode) -> (r: String)
    ensures
        r@ == hint_of(mode),
{
    match mode {
        RenderMode::Help => String::from_str("Press 'h' to hide help | Press 'q' to quit"),
        RenderMode::HostDetail => String::from_str("Press 'b' to go back | Press 'q' to quit"),
        RenderMode::Overview => String::from_str(
            "Press 'h' for help | Press 'q' to quit | Press 'r' to refresh | Press 'Enter' for host details",
        ),
    }
}

/// One line of a table of results: the text of its six columns, whether it
/// is the header of a host, and whether the selection is on it.
#[derive(Debug, Clone, PartialEq, Eq)]
pub struct TableRow {
    pub cells: Vec<String>,
    pub header: bool,
    pub selected: bool,
}

/// A table row as plain values.
pub struct LineText {
    pub cells: Seq<Seq<char>>,
    pub header: bool,
    pub selected: bool,
}

/// The plain values of a sequence of texts.
pub open spec fn texts(cells: Seq<String>) -> Seq<Seq<char>> {
    cells.map_values(|s: String| s@)
}

impl View for TableRow {
    type V = LineText;

    open spec fn view(&self) -> LineText {
        LineText { cells: texts(self.cells@), header: self.header, selected: self.selected }
    }
}

/// The plain values of a sequence of table rows.
pub open spec fn row_views(rows: Seq<TableRow>) -> Seq<LineText> {
    rows.map_values(|r: TableRow| r@)
}

/// The columns of a host's header: its name, and nothing else.
pub open spec fn header_cells(host_name: Seq<char>) -> Seq<Seq<char>> {
    seq![host_name, Seq::empty(), Seq::empty(), Seq::empty(), Seq::empty(), Seq::empty()]
}

/// The columns of a result, after the first: port, protocol, status,
/// response time, and the message, which is empty where there is none.
pub open spec fn service_cells(first: Seq<char>, check: CheckResult) -> Seq<Seq<char>> {
    seq![
        first,
        decimal(check.port as nat),
        check.protocol.name(),
        check.status.label(),
        response_time_label(check.response_time),
        match check.error_message {
            Some(message) => message,
            None => Seq::empty(),
        },
    ]
}

/// A line of the overview: a host's header, or a service under its host.
pub open spec fn overview_line(row: Row, selected: bool) -> LineText {
    match row {
        Row::HostHeader(host_name) => LineText { cells: header_cells(host_name), header: true, selected },
        Row::Service(check) => LineText {
            cells: service_cells("  └─ "@ + check.service_name, check),
            header: false,
            selected,
        },
    }
}

/// The overview: one row for each selectable line, with the selection on
/// the line at `selected_index`.
pub open spec fn overview(lines: Seq<Row>, selected_index: int) -> Seq<LineText> {
    Seq::new(lines.len(), |i: int| overview_line(lines[i], i == selected_index))
}

/// A line of a host's detail: one of its services. The selection is on none.
pub open spec fn detail_line(check: CheckResult) -> LineText {
    LineText { cells: service_cells(check.service_name, check), header: false, selected: false }
}

/// The rows of a host's detail: one for each of its services.
pub open spec fn detail(services: Seq<CheckResult>) -> Seq<LineText> {
    services.map_values(|c: CheckResult| detail_line(c))
}

fn header_row(host_name: &String, selected: bool) -> (r: TableRow)
    ensures
        r@ == (LineText { cells: header_cells(host_name@), header: true, selected }),
{
    let mut cells: Vec<String> = Vec::new();
    cells.push(host_name.clone());
    cells.push(String::new());
    cells.push(String::new());
    cells.push(String::new());
    cells.push(String::new());
    cells.push(String::new());
    assert(texts(cells@) =~= header_cells(host_name@));
    TableRow { cells, header: true, selected }
}

fn service_row(first: String, check: &ServiceCheck, selected: bool) -> (r: TableRow)
    ensures
        r@ == (LineText { cells: service_cells(first@, check@), header: false, selected }),
{
    let ghost first_text = first@;
    let mut cells: Vec<String> = Vec::new();
    cells.push(first);
    cells.push(decimal_string(check.port as u128));
    cells.push(check.protocol.to_string());
    cells.push(check.status.to_string());
    cells.push(response_time_text(check.response_time));
    cells.push(
        match &check.error_message {
            Some(message) => message.clone(),
            None => String::new(),
        },
    );
    assert(texts(cells@) =~= service_cells(first_text, check@));
    TableRow { cells, header: false, selected }
}

impl App {
    /// The rows of the overview: the selectable lines as text, with the
    /// selection on the line that it points at.
    pub fn overview_rows(&self) -> (r: Vec<TableRow>)
        ensures
            row_views(r@) == overview(self.lines(), self.selected_index as int),
    {
        let lines = self.get_lines();
        let mut rows: Vec<TableRow> = Vec::new();
        let n = lines.len();
        let mut i: usize = 0;
        while i < n
            invariant
                i <= n,
                n == lines@.len(),
                item_views(lines@) == self.lines(),
                rows@.len() == i,
                forall|j: int|
                    0 <= j < i ==> (#[trigger] rows@[j])@ == overview_line(
                        self.lines()[j],
                        j == self.selected_index,
                    ),
            decreases n - i,
        {
            let selected = i == self.selected_index;
            assert(lines@[i as int]@ == self.lines()[i as int]);
            let row = match &lines[i] {
                SelectedItem::HostHeader(host_name) => header_row(host_name, selected),
                SelectedItem::Service(check) => {
                    let mut first = String::from_str("  └─ ");
                    first.append(check.service_name.as_str());
                    service_row(first, check, selected)
                },
            };
            rows.push(row);
            i += 1;
        }
        assert(row_views(rows@) =~= overview(self.lines(), self.selected_index as int));
        rows
    }

    /// The rows of the detail of the host `host_name`: its services as text,
    /// in the order of their names.
    pub fn host_detail_rows(&self, host_name: &str) -> (r: Vec<TableRow>)
        ensures
            row_views(r@) == detail(self.host_services(host_name@)),
    {
        let services = self.get_host_services_status(host_name);
        let mut rows: Vec<TableRow> = Vec::new();
        let n = services.len();
        let mut i: usize = 0;
        while i < n
            invariant
                i <= n,
                n == services@.len(),
                rows@.len() == i,
                forall|j: int| 0 <= j < i ==> (#[trigger] rows@[j])@ == detail_line(services@[j]@),
            decreases n - i,
        {
            let check = &services[i];
            rows.push(service_row(check.service_name.clone(), check, false));
            i += 1;
        }
        assert(row_views(rows@) =~= detail(views(services@)));
        rows
    }
}

} // verus!
