//! What is sent to the terminal: cursor commands and fitted lines.
//!
//! Nothing here touches a terminal. A frame is a list of commands; whoever
//! owns the output stream carries them out in order.
//!
//! Every frame is drawn from the same anchor, the row of the topmost bar:
//! the bars are written downwards, one per row, and the cursor is moved
//! back up to the anchor, so that the next frame overwrites this one in
//! place.

use vstd::prelude::*;
use crate::record::{views_of, Record, RecordView};
use crate::text::{decimal, fit, fitted, push_decimal};

verus! {

/// The terminal width assumed where none can be determined.
pub const FALLBACK_COLUMNS: u16 = 80;

/// The terminal height assumed where none can be determined.
pub const FALLBACK_ROWS: u16 = 24;

/// One instruction to the terminal.
#[derive(Debug, PartialEq, Eq)]
pub enum Command {
    HideCursor,
    ShowCursor,
    /// Move to a column of the current row, counted from zero.
    MoveToColumn(u16),
    /// Move up by a number of rows.
    MoveUp(u16),
    /// Move down by a number of rows.
    MoveDown(u16),
    ClearFromCursorDown,
    ClearCurrentLine,
    /// Write text at the cursor.
    Print(String),
    /// Hand everything written so far to the device.
    Flush,
}

/// A command with its text as a sequence of characters.
pub enum CommandView {
    HideCursor,
    ShowCursor,
    MoveToColumn(u16),
    MoveUp(u16),
    MoveDown(u16),
    ClearFromCursorDown,
    ClearCurrentLine,
    Print(Seq<char>),
    Flush,
}

impl View for Command {
    type V = CommandView;

    open spec fn view(&self) -> CommandView {
        match self {
            Command::HideCursor => CommandView::HideCursor,
            Command::ShowCursor => CommandView::ShowCursor,
            Command::MoveToColumn(column) => CommandView::MoveToColumn(*column),
            Command::MoveUp(rows) => CommandView::MoveUp(*rows),
            Command::MoveDown(rows) => CommandView::MoveDown(*rows),
            Command::ClearFromCursorDown => CommandView::ClearFromCursorDown,
            Command::ClearCurrentLine => CommandView::ClearCurrentLine,
            Command::Print(text) => CommandView::Print(text@),
            Command::Flush => CommandView::Flush,
        }
    }
}

/// The views of a sequence of commands, one for one.
pub open spec fn shown(commands: Seq<Command>) -> Seq<CommandView> {
    Seq::new(commands.len(), |i: int| commands[i]@)
}

/// The terminal size to work with: the measured one, or 80 by 24.
pub open spec fn resolved_size(measured: Option<(u16, u16)>) -> (u16, u16) {
    match measured {
        Some(size) => size,
        None => (FALLBACK_COLUMNS, FALLBACK_ROWS),
    }
}

/// The width of a bar's line: its fixed width if it has one, else the
/// terminal's column count.
pub open spec fn resolved_width(fixed: Option<usize>, columns: nat) -> nat {
    match fixed {
        Some(width) => width as nat,
        None => columns,
    }
}

/// How many bars are drawn: all of them, but never more than fit while one
/// row stays free.
pub open spec fn visible_count(bars: nat, rows: nat) -> nat {
    if rows == 0 {
        0
    } else if bars <= rows - 1 {
        bars
    } else {
        (rows - 1) as nat
    }
}

/// The notice that stands for the bars that are not drawn.
pub open spec fn hidden_notice(hidden: nat) -> Seq<char> {
    seq![' ', '.', '.', '.', ' ', '('] + decimal(hidden) + seq![
        ' ',
        'm',
        'o',
        'r',
        'e',
        ' ',
        'h',
        'i',
        'd',
        'd',
        'e',
        'n',
        ')',
        ' ',
        '.',
        '.',
        '.',
    ]
}

/// The row of one bar on screen: its line, cut or padded to the terminal
/// width.
pub open spec fn screen_line(record: RecordView, now: u64, columns: nat) -> Seq<char> {
    fitted(record.line(now, resolved_width(record.config.fixed_width, columns)), columns)
}

/// The print commands of the first `count` bars.
pub open spec fn bar_rows(records: Seq<RecordView>, now: u64, columns: nat, count: nat) -> Seq<
    CommandView,
> {
    Seq::new(count, |i: int| CommandView::Print(screen_line(records[i], now, columns)))
}

/// How far the cursor has to go back up after a frame: one less than the
/// rows written, the notice counted as a row.
pub open spec fn rewind_rows(bars: nat, rows: nat) -> nat {
    let visible = visible_count(bars, rows);
    let written = if bars > visible {
        visible + 1
    } else {
        visible
    };
    if written > 0 {
        (written - 1) as nat
    } else {
        0
    }
}

/// One full frame for the given bars on a terminal of `columns` by `rows`.
///
/// Hide the cursor; go to column 0; print each visible bar on exactly
/// `columns` characters; if bars are left over, clear what is below and
/// print the notice; move back up to the first row; show the cursor; flush.
/// Without bars there is nothing to draw and the frame is empty.
pub open spec fn frame(records: Seq<RecordView>, now: u64, columns: nat, rows: nat) -> Seq<
    CommandView,
> {
    let visible = visible_count(records.len(), rows);
    let hidden = (records.len() - visible) as nat;
    let up = rewind_rows(records.len(), rows);
    if records.len() == 0 {
        Seq::empty()
    } else {
        seq![CommandView::HideCursor, CommandView::MoveToColumn(0)] + bar_rows(
            records,
            now,
            columns,
            visible,
        ) + (if hidden > 0 {
            seq![
                CommandView::ClearFromCursorDown,
                CommandView::Print(hidden_notice(hidden)),
                CommandView::MoveToColumn(0),
            ]
        } else {
            Seq::empty()
        }) + (if up > 0 {
            seq![CommandView::MoveUp(up as u16)]
        } else {
            Seq::empty()
        }) + seq![CommandView::ShowCursor, CommandView::Flush]
    }
}

/// The number of rows to step over on the way to a closed bar's row: the
/// bars that remain, as far as a cursor movement can count.
pub open spec fn rows_below(remaining: nat) -> nat {
    if remaining <= u16::MAX {
        remaining
    } else {
        u16::MAX as nat
    }
}

/// What a closing bar sends before the remaining bars are drawn again.
///
/// A bar that is kept prints its final line and a line break, which moves
/// it into the scroll-back for good. A bar that is cleared has its row
/// wiped: down past the remaining bars, clear that line, back up.
pub open spec fn farewell(record: RecordView, remaining: nat, now: u64, columns: nat) -> Seq<
    CommandView,
> {
    let below = rows_below(remaining);
    if record.config.clear_on_close {
        if below > 0 {
            seq![
                CommandView::MoveToColumn(0),
                CommandView::MoveDown(below as u16),
                CommandView::ClearCurrentLine,
                CommandView::MoveUp(below as u16),
            ]
        } else {
            seq![CommandView::MoveToColumn(0), CommandView::ClearCurrentLine]
        }
    } else {
        seq![
            CommandView::MoveToColumn(0),
            CommandView::Print(
                record.line(now, resolved_width(record.config.fixed_width, columns)),
            ),
            CommandView::Print(seq!['\n']),
        ]
    }
}

/// Every bar of a frame takes exactly one terminal row: its line is exactly
/// `columns` characters long.
pub proof fn lemma_screen_line_len(record: RecordView, now: u64, columns: nat)
    ensures
        screen_line(record, now, columns).len() == columns,
{
}

/// A frame never draws on the last row, and goes back up by fewer rows than
/// the terminal has.
pub proof fn lemma_frame_fits(bars: nat, rows: nat)
    ensures
        visible_count(bars, rows) <= bars,
        rows > 0 ==> visible_count(bars, rows) < rows,
        rows > 0 ==> rewind_rows(bars, rows) < rows,
        rows == 0 ==> rewind_rows(bars, rows) == 0,
{
}

/// The terminal size to work with.
pub fn resolve_size(measured: Option<(u16, u16)>) -> (size: (u16, u16))
    ensures
        size == resolved_size(measured),
{
    match measured {
        Some(size) => size,
        None => (FALLBACK_COLUMNS, FALLBACK_ROWS),
    }
}

/// The width of a bar's line on a terminal of `columns` columns.
pub fn resolve_width(fixed: Option<usize>, columns: u16) -> (width: usize)
    ensures
        width == resolved_width(fixed, columns as nat),
{
    match fixed {
        Some(width) => width,
        None => columns as usize,
    }
}

fn notice_text(hidden: usize) -> (text: String)
    ensures
        text@ == hidden_notice(hidden as nat),
{
    let mut text = String::new();
    text.push(' ');
    text.push('.');
    text.push('.');
    text.push('.');
    text.push(' ');
    text.push('(');
    push_decimal(&mut text, hidden as u128);
    text.push(' ');
    text.push('m');
    text.push('o');
    text.push('r');
    text.push('e');
    text.push(' ');
    text.push('h');
    text.push('i');
    text.push('d');
    text.push('d');
    text.push('e');
    text.push('n');
    text.push(')');
    text.push(' ');
    text.push('.');
    text.push('.');
    text.push('.');
    assert(text@ =~= hidden_notice(hidden as nat));
    text
}

fn line_of(record: &Record, now: u64, columns: u16) -> (text: String)
    ensures
        text@ == record@.line(
            now,
            resolved_width(record@.config.fixed_width, columns as nat),
        ),
{
    let width: usize = resolve_width(record.fixed_width(), columns);
    record.format(now, width)
}

/// Draws one full frame for `records`, the live bars in display order.
pub fn render(records: &Vec<Record>, now: u64, columns: u16, rows: u16) -> (commands: Vec<Command>)
    ensures
        shown(commands@) == frame(
            views_of(records@),
            now,
            columns as nat,
            rows as nat,
        ),
{
    let mut commands: Vec<Command> = Vec::new();
    let count: usize = records.len();
    let ghost views = views_of(records@);
    let ghost goal = frame(views, now, columns as nat, rows as nat);
    if count == 0 {
        assert(shown(commands@) =~= goal);
        return commands;
    }
    let room: usize = if rows == 0 {
        0
    } else {
        (rows - 1) as usize
    };
    let visible: usize = if count <= room {
        count
    } else {
        room
    };
    assert(visible == visible_count(count as nat, rows as nat));
    commands.push(Command::HideCursor);
    commands.push(Command::MoveToColumn(0));
    let ghost opening = seq![CommandView::HideCursor, CommandView::MoveToColumn(0)];
    let mut i: usize = 0;
    while i < visible
        invariant
            i <= visible <= count,
            count == records@.len(),
            views == views_of(records@),
            opening == seq![CommandView::HideCursor, CommandView::MoveToColumn(0)],
            shown(commands@) =~= opening + bar_rows(views, now, columns as nat, i as nat),
        decreases visible - i,
    {
        let line = line_of(&records[i], now, columns);
        let fitted_line = fit(line.as_str(), columns as usize);
        let ghost before = shown(commands@);
        assert(views[i as int] == records@[i as int]@);
        assert(fitted_line@ == screen_line(views[i as int], now, columns as nat));
        commands.push(Command::Print(fitted_line));
        assert(shown(commands@) =~= before.push(
            CommandView::Print(screen_line(views[i as int], now, columns as nat)),
        ));
        i += 1;
        assert(shown(commands@) =~= opening + bar_rows(
            views,
            now,
            columns as nat,
            i as nat,
        ));
    }
    let ghost drawn = shown(commands@);
    let hidden: usize = count - visible;
    let written: usize = if hidden > 0 {
        commands.push(Command::ClearFromCursorDown);
        commands.push(Command::Print(notice_text(hidden)));
        commands.push(Command::MoveToColumn(0));
        visible + 1
    } else {
        visible
    };
    let ghost noticed = shown(commands@);
    assert(noticed =~= drawn + (if hidden > 0 {
        seq![
            CommandView::ClearFromCursorDown,
            CommandView::Print(hidden_notice(hidden as nat)),
            CommandView::MoveToColumn(0),
        ]
    } else {
        Seq::empty()
    }));
    let up: usize = if written > 0 {
        written - 1
    } else {
        0
    };
    assert(up == rewind_rows(count as nat, rows as nat));
    if up > 0 {
        commands.push(Command::MoveUp(up as u16));
    }
    let ghost rewound = shown(commands@);
    assert(rewound =~= noticed + (if up > 0 {
        seq![CommandView::MoveUp(up as u16)]
    } else {
        Seq::empty()
    }));
    commands.push(Command::ShowCursor);
    commands.push(Command::Flush);
    assert(shown(commands@) =~= rewound + seq![CommandView::ShowCursor, CommandView::Flush]);
    assert(shown(commands@) =~= goal);
    commands
}

/// Takes leave of a closed bar: `record` is its final state, `remaining`
/// the number of bars still alive.
pub fn finalize(record: &Record, remaining: usize, now: u64, columns: u16) -> (commands: Vec<
    Command,
>)
    ensures
        shown(commands@) == farewell(record@, remaining as nat, now, columns as nat),
{
    let mut commands: Vec<Command> = Vec::new();
    commands.push(Command::MoveToColumn(0));
    if record.clear_on_close() {
        let below: u16 = if remaining <= u16::MAX as usize {
            remaining as u16
        } else {
            u16::MAX
        };
        if below > 0 {
            commands.push(Command::MoveDown(below));
            commands.push(Command::ClearCurrentLine);
            commands.push(Command::MoveUp(below));
        } else {
            commands.push(Command::ClearCurrentLine);
        }
    } else {
        commands.push(Command::Print(line_of(record, now, columns)));
        let mut line_break = String::new();
        line_break.push('\n');
        assert(line_break@ =~= seq!['\n']);
        commands.push(Command::Print(line_break));
    }
    assert(shown(commands@) =~= farewell(
        record@,
        remaining as nat,
        now,
        columns as nat,
    ));
    commands
}

} // verus!
