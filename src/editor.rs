use vstd::prelude::*;

use crate::terminal::{text_cols, text_rows, Terminal};
use crate::text_buffer::{lines_view, text_of, TextBuffer};
use crate::text_view::TextView;

verus! {

/// The editor's state in buffer terms.
pub struct EditorView {
    pub lines: Seq<Seq<char>>,
    /// The line the cursor is on.
    pub active: int,
    /// The first buffer row shown.
    pub top: int,
    /// The first buffer column shown.
    pub left: int,
    /// The cursor's screen column.
    pub col: int,
    /// How many text rows the viewport shows.
    pub rows: int,
    /// How many text columns the viewport shows.
    pub cols: int,
    pub exit: bool,
    pub name: Seq<char>,
}

impl EditorView {
    pub open spec fn line_count(self) -> int {
        self.lines.len() as int
    }

    /// The length of line `r`; zero past the end of the buffer.
    pub open spec fn line_len(self, r: int) -> int {
        if 0 <= r < self.lines.len() {
            self.lines[r].len() as int
        } else {
            0
        }
    }

    /// The buffer column of the cursor.
    pub open spec fn abs_col(self) -> int {
        screen_to_buffer(self.left, self.col)
    }

    /// The viewport shows the cursor's line and column, within the buffer.
    pub open spec fn wf(self) -> bool {
        &&& self.rows >= 1
        &&& self.cols >= 1
        &&& 0 <= self.left
        &&& 0 <= self.col < self.cols
        &&& self.abs_col() <= self.line_len(self.active)
        &&& if self.lines.len() == 0 {
            self.active == 0 && self.top == 0
        } else {
            &&& 0 <= self.top <= self.active < self.top + self.rows
            &&& self.active < self.lines.len()
            &&& (self.top == 0 || self.top + self.rows <= self.lines.len())
        }
    }
}

/// A buffer column from a scroll offset and a screen column.
pub open spec fn screen_to_buffer(offset: int, screen: int) -> int {
    offset + screen
}

/// The first row to show so that `row` is visible, moving `top` as little as
/// possible.
pub open spec fn shown_top(top: int, row: int, rows: int) -> int {
    if row < top {
        row
    } else if row - top >= rows {
        row - rows + 1
    } else {
        top
    }
}

/// The first column to show so that `acol` is visible, moving `left` as
/// little as possible.
pub open spec fn shown_left(left: int, acol: int, cols: int) -> int {
    if acol < left {
        acol
    } else if acol - left >= cols {
        acol - cols + 1
    } else {
        left
    }
}

pub open spec fn min(a: int, b: int) -> int {
    if a < b {
        a
    } else {
        b
    }
}

pub open spec fn max(a: int, b: int) -> int {
    if a < b {
        b
    } else {
        a
    }
}

/// The last row that can be the first one shown: the window never passes the
/// end of the buffer.
pub open spec fn last_top(m: EditorView) -> int {
    max(m.line_count() - m.rows, 0)
}

/// The cursor put at buffer column `acol` of its line, scrolling sideways as
/// little as possible.
pub open spec fn at_column(m: EditorView, acol: int) -> EditorView {
    let left = shown_left(m.left, acol, m.cols);
    EditorView { left, col: acol - left, ..m }
}

/// The cursor put on line `target`, in the same buffer column or at the end of
/// a shorter line, scrolling as little as possible.
pub open spec fn go_to_line(m: EditorView, target: int) -> EditorView {
    let top = shown_top(m.top, target, m.rows);
    at_column(EditorView { active: target, top, ..m }, min(m.abs_col(), m.line_len(target)))
}

/// One line down, staying on the last line.
pub open spec fn moved_down(m: EditorView) -> EditorView {
    if m.line_count() == 0 {
        m
    } else {
        go_to_line(m, min(m.active + 1, m.line_count() - 1))
    }
}

/// One line up, staying on the first line.
pub open spec fn moved_up(m: EditorView) -> EditorView {
    if m.line_count() == 0 {
        m
    } else {
        go_to_line(m, max(m.active - 1, 0))
    }
}

/// The window moved by a page, the cursor keeping its row on screen.
pub open spec fn paged(m: EditorView, down: bool) -> EditorView {
    if m.line_count() == 0 {
        m
    } else {
        let top = if down {
            min(m.top + m.rows, last_top(m))
        } else {
            max(m.top - m.rows, 0)
        };
        let target = top + (m.active - m.top);
        at_column(
            EditorView { active: target, top, ..m },
            min(m.abs_col(), m.line_len(target)),
        )
    }
}

/// One column left; from the start of a line, to the end of the one above.
pub open spec fn moved_left(m: EditorView) -> EditorView {
    if m.line_count() == 0 {
        m
    } else if m.abs_col() > 0 {
        at_column(m, m.abs_col() - 1)
    } else if m.active > 0 {
        let up = go_to_line(m, m.active - 1);
        at_column(up, up.line_len(up.active))
    } else {
        m
    }
}

/// One column right; from the end of a line, to the start of the one below.
pub open spec fn moved_right(m: EditorView) -> EditorView {
    if m.line_count() == 0 {
        m
    } else if m.abs_col() < m.line_len(m.active) {
        at_column(m, m.abs_col() + 1)
    } else if m.active + 1 < m.line_count() {
        at_column(go_to_line(m, m.active + 1), 0)
    } else {
        m
    }
}

/// `ch` typed at the cursor, which moves past it.
pub open spec fn inserted(m: EditorView, ch: char) -> EditorView {
    if m.line_count() == 0 {
        m
    } else {
        let line = m.lines[m.active];
        let a = m.abs_col();
        let lines = m.lines.update(m.active, line.take(a).push(ch) + line.skip(a));
        at_column(EditorView { lines, ..m }, a + 1)
    }
}

/// The state brought back within the buffer after an edit: the cursor's line
/// exists, the window shows it without passing the end of the buffer, and the
/// cursor stands within its line.
pub open spec fn reconciled(m: EditorView) -> EditorView {
    if m.line_count() == 0 {
        EditorView { active: 0, top: 0, left: 0, col: 0, ..m }
    } else {
        let active = min(m.active, m.line_count() - 1);
        let top = shown_top(min(m.top, last_top(m)), active, m.rows);
        at_column(
            EditorView { active, top, ..m },
            min(m.abs_col(), m.line_len(active)),
        )
    }
}

/// Backspace: the character before the cursor removed, the cursor moving onto
/// its place; a line left empty is removed unless it is the only one.
pub open spec fn deleted_backward(m: EditorView) -> EditorView {
    if m.line_count() == 0 {
        m
    } else {
        let a = m.abs_col();
        let line = m.lines[m.active];
        let m1 = if a > 0 {
            at_column(
                EditorView { lines: m.lines.update(m.active, line.remove(a - 1)), ..m },
                a - 1,
            )
        } else {
            m
        };
        if m1.lines[m1.active].len() == 0 && m1.line_count() > 1 {
            reconciled(EditorView { lines: m1.lines.remove(m1.active), ..m1 })
        } else {
            m1
        }
    }
}

/// Enter: the line split at the cursor, which moves to the start of the new
/// second part.
pub open spec fn split(m: EditorView) -> EditorView {
    if m.line_count() == 0 {
        m
    } else {
        let a = m.abs_col();
        let line = m.lines[m.active];
        let lines = m.lines.update(m.active, line.take(a)).insert(m.active + 1, line.skip(a));
        let active = m.active + 1;
        EditorView {
            lines,
            active,
            top: shown_top(m.top, active, m.rows),
            left: 0,
            col: 0,
            ..m
        }
    }
}

/// Reconciling any state with at least one row and column shown, and no
/// negative position, gives a well-formed one.
pub proof fn lemma_reconciled_wf(m: EditorView)
    requires
        m.rows >= 1,
        m.cols >= 1,
        m.active >= 0,
        m.top >= 0,
        m.left >= 0,
        m.col >= 0,
    ensures
        reconciled(m).wf(),
{
}

/// Reconciling a well-formed state leaves it as it is.
pub proof fn lemma_wf_reconciled(m: EditorView)
    requires
        m.wf(),
    ensures
        reconciled(m) == m,
{
}

proof fn lemma_go_to_line_wf(m: EditorView, target: int)
    requires
        m.wf(),
        0 <= target < m.line_count(),
    ensures
        go_to_line(m, target).wf(),
{
}

proof fn lemma_moves_wf(m: EditorView)
    requires
        m.wf(),
    ensures
        moved_down(m).wf(),
        moved_up(m).wf(),
        paged(m, true).wf(),
        paged(m, false).wf(),
        moved_left(m).wf(),
        moved_right(m).wf(),
{
    if m.line_count() > 0 {
        lemma_go_to_line_wf(m, min(m.active + 1, m.line_count() - 1));
        lemma_go_to_line_wf(m, max(m.active - 1, 0));
        if m.active > 0 {
            lemma_go_to_line_wf(m, m.active - 1);
        }
        if m.active + 1 < m.line_count() {
            lemma_go_to_line_wf(m, m.active + 1);
        }
    }
}

proof fn lemma_edits_wf(m: EditorView, ch: char)
    requires
        m.wf(),
    ensures
        inserted(m, ch).wf(),
        deleted_backward(m).wf(),
        split(m).wf(),
{
    if m.line_count() > 0 {
        let a = m.abs_col();
        let line = m.lines[m.active];
        assert((line.take(a).push(ch) + line.skip(a)).len() == line.len() + 1);
        if a > 0 {
            let m1 = at_column(
                EditorView { lines: m.lines.update(m.active, line.remove(a - 1)), ..m },
                a - 1,
            );
            assert(m1.wf());
            if m1.lines[m1.active].len() == 0 && m1.line_count() > 1 {
                lemma_reconciled_wf(EditorView { lines: m1.lines.remove(m1.active), ..m1 });
            }
        } else if line.len() == 0 && m.line_count() > 1 {
            lemma_reconciled_wf(EditorView { lines: m.lines.remove(m.active), ..m });
        }
        assert(line.take(a).len() == a);
    }
}

/// A command, as decoded from a key.
#[derive(Clone, Copy, Debug, PartialEq, Eq, Structural)]
pub enum Command {
    MoveUp,
    MoveDown,
    MoveLeft,
    MoveRight,
    HalfPageUp,
    HalfPageDown,
    InsertChar(char),
    DeleteBackward,
    SplitLine,
    Save,
    Quit,
    Nothing,
}

/// The state after `cmd`.
pub open spec fn step(m: EditorView, cmd: Command) -> EditorView {
    match cmd {
        Command::MoveUp => moved_up(m),
        Command::MoveDown => moved_down(m),
        Command::MoveLeft => moved_left(m),
        Command::MoveRight => moved_right(m),
        Command::HalfPageUp => paged(m, false),
        Command::HalfPageDown => paged(m, true),
        Command::InsertChar(ch) => inserted(m, ch),
        Command::DeleteBackward => deleted_backward(m),
        Command::SplitLine => split(m),
        Command::Save => m,
        Command::Quit => EditorView { exit: true, ..m },
        Command::Nothing => m,
    }
}

/// The state after each of `cmds` in turn.
pub open spec fn run(m: EditorView, cmds: Seq<Command>) -> EditorView
    decreases cmds.len(),
{
    if cmds.len() == 0 {
        m
    } else {
        step(run(m, cmds.drop_last()), cmds.last())
    }
}

/// Every command keeps the state well formed.
pub proof fn lemma_step_wf(m: EditorView, cmd: Command)
    requires
        m.wf(),
    ensures
        step(m, cmd).wf(),
{
    lemma_moves_wf(m);
    match cmd {
        Command::InsertChar(ch) => lemma_edits_wf(m, ch),
        _ => lemma_edits_wf(m, ' '),
    }
}

/// After any sequence of commands the active line is in the window, the window
/// stays within the buffer, and the cursor within its line.
pub proof fn lemma_run_wf(m: EditorView, cmds: Seq<Command>)
    requires
        m.wf(),
    ensures
        run(m, cmds).wf(),
        run(m, cmds).line_count() > 0 ==> run(m, cmds).top <= run(m, cmds).active < run(m, cmds).top
            + run(m, cmds).rows,
        run(m, cmds).left >= 0,
        run(m, cmds).abs_col() <= run(m, cmds).line_len(run(m, cmds).active),
    decreases cmds.len(),
{
    if cmds.len() > 0 {
        lemma_run_wf(m, cmds.drop_last());
        lemma_step_wf(run(m, cmds.drop_last()), cmds.last());
    }
}

/// Bringing the state back within the buffer a second time changes nothing.
pub proof fn lemma_reconcile_idempotent(m: EditorView)
    requires
        m.rows >= 1,
        m.cols >= 1,
        m.active >= 0,
        m.top >= 0,
        m.left >= 0,
        m.col >= 0,
    ensures
        reconciled(reconciled(m)) == reconciled(m),
{
    lemma_reconciled_wf(m);
    lemma_wf_reconciled(reconciled(m));
}

fn shown_top_exec(top: usize, row: usize, rows: usize) -> (r: usize)
    requires
        rows >= 1,
    ensures
        r == shown_top(top as int, row as int, rows as int),
{
    if row < top {
        row
    } else if row - top >= rows {
        row - rows + 1
    } else {
        top
    }
}

fn shown_left_exec(left: usize, acol: usize, cols: usize) -> (r: usize)
    requires
        cols >= 1,
    ensures
        r == shown_left(left as int, acol as int, cols as int),
{
    if acol < left {
        acol
    } else if acol - left >= cols {
        acol - cols + 1
    } else {
        left
    }
}

/// The editing session: buffer, viewport and terminal geometry.
pub struct Editor {
    text_buffer: TextBuffer,
    text_view: TextView,
    terminal: Terminal,
    is_exit: bool,
    file_name: String,
}

impl View for Editor {
    type V = EditorView;

    closed spec fn view(&self) -> EditorView {
        EditorView {
            lines: lines_view(self.text_buffer.lines@),
            active: self.text_view.visible_lines as int,
            top: self.text_view.scroll_offset.1 as int,
            left: self.text_view.scroll_offset.0 as int,
            col: self.text_buffer.cursor_position.0 as int,
            rows: text_rows(self.terminal.size.height),
            cols: text_cols(self.terminal.size.width),
            exit: self.is_exit,
            name: self.file_name@,
        }
    }
}

impl Editor {
    /// The state is well formed, and the cursor's screen row is that of the
    /// active line.
    pub closed spec fn wf(&self) -> bool {
        &&& self@.wf()
        &&& self.text_buffer.cursor_position.1 as int == self.text_view.visible_lines
            - self.text_view.scroll_offset.1
    }

    /// A well-formed editor shows its active line and keeps the cursor within
    /// that line.
    pub proof fn lemma_wf_view(&self)
        requires
            self.wf(),
        ensures
            self@.wf(),
            self@.line_count() > 0 ==> self@.top <= self@.active < self@.top + self@.rows,
            self@.abs_col() <= self@.line_len(self@.active),
    {
    }

    /// A session on `text_buffer`, cursor and window at the origin.
    pub fn new(text_buffer: TextBuffer, terminal: Terminal, file_name: String) -> (r: Self)
        ensures
            r.wf(),
            r@.lines == lines_view(text_buffer.lines@),
            r@.active == 0,
            r@.top == 0,
            r@.left == 0,
            r@.col == 0,
            r@.rows == text_rows(terminal.size.height),
            r@.cols == text_cols(terminal.size.width),
            !r@.exit,
            r@.name == file_name@,
    {
        let mut text_buffer = text_buffer;
        text_buffer.cursor_position = (0, 0);
        Editor { text_buffer, text_view: TextView::new(), terminal, is_exit: false, file_name }
    }

    /// The buffer column of the cursor: its screen column plus the
    /// horizontal scroll offset.
    pub fn buffer_column(&self) -> (r: usize)
        requires
            self.wf(),
        ensures
            r == self@.abs_col(),
    {
        let len = self.line_length(self.text_view.visible_lines);
        assert(self@.abs_col() <= len);
        self.text_view.scroll_offset.0 + self.text_buffer.cursor_position.0 as usize
    }

    /// The length of line `row`; zero past the end of the buffer.
    pub fn line_length(&self, row: usize) -> (r: usize)
        ensures
            r == self@.line_len(row as int),
    {
        self.text_buffer.line_length(row)
    }

    /// Puts the cursor at buffer column `acol` of its line.
    fn place_column(&mut self, acol: usize)
        ensures
            final(self)@ == at_column(old(self)@, acol as int),
            final(self).text_buffer.cursor_position.1 == old(self).text_buffer.cursor_position.1,
            final(self).text_view.visible_lines == old(self).text_view.visible_lines,
            final(self).text_view.scroll_offset.1 == old(self).text_view.scroll_offset.1,
    {
        let cols = self.terminal.cols();
        let left = shown_left_exec(self.text_view.scroll_offset.0, acol, cols);
        self.text_view.scroll_offset.0 = left;
        self.text_buffer.cursor_position.0 = (acol - left) as u16;
    }

    /// Makes `active` the cursor's line and `top` the first row shown.
    fn set_window(&mut self, active: usize, top: usize)
        requires
            top <= active,
            active - top < old(self)@.rows,
        ensures
            final(self)@ == (EditorView { active: active as int, top: top as int, ..old(self)@ }),
            final(self).text_buffer.cursor_position.1 as int == active - top,
    {
        self.text_view.visible_lines = active;
        self.text_view.scroll_offset.1 = top;
        self.text_buffer.cursor_position.1 = (active - top) as u16;
    }

    fn go_to_line(&mut self, target: usize)
        requires
            old(self).wf(),
            target < old(self)@.line_count(),
        ensures
            final(self).wf(),
            final(self)@ == go_to_line(old(self)@, target as int),
    {
        proof {
            lemma_go_to_line_wf(self@, target as int);
        }
        let acol = self.buffer_column();
        let len = self.line_length(target);
        let rows = self.terminal.rows();
        let top = shown_top_exec(self.text_view.scroll_offset.1, target, rows);
        self.set_window(target, top);
        self.place_column(if acol < len { acol } else { len });
    }

    /// Moves the cursor one line down.
    pub fn scroll_down(&mut self)
        requires
            old(self).wf(),
        ensures
            final(self).wf(),
            final(self)@ == moved_down(old(self)@),
    {
        let n = self.text_buffer.lines.len();
        if n > 0 {
            let a = self.text_view.visible_lines;
            self.go_to_line(if a + 1 < n { a + 1 } else { n - 1 });
        }
    }

    /// Moves the cursor one line up.
    pub fn scroll_up(&mut self)
        requires
            old(self).wf(),
        ensures
            final(self).wf(),
            final(self)@ == moved_up(old(self)@),
    {
        if self.text_buffer.lines.len() > 0 {
            let a = self.text_view.visible_lines;
            self.go_to_line(if a > 0 { a - 1 } else { 0 });
        }
    }
    fn page(&mut self, down: bool)
        requires
            old(self).wf(),
        ensures
            final(self).wf(),
            final(self)@ == paged(old(self)@, down),
    {
        proof {
            lemma_moves_wf(self@);
        }
        let n = self.text_buffer.lines.len();
        if n > 0 {
            let rows = self.terminal.rows();
            let top = self.text_view.scroll_offset.1;
            let last = if n > rows { n - rows } else { 0 };
            let new_top = if down {
                if last - top > rows { top + rows } else { last }
            } else {
                if top > rows { top - rows } else { 0 }
            };
            let target = new_top + (self.text_view.visible_lines - top);
            let acol = self.buffer_column();
            let len = self.line_length(target);
            self.set_window(target, new_top);
            self.place_column(if acol < len { acol } else { len });
        }
    }

    /// Scrolls the window a page down, the cursor keeping its screen row.
    pub fn scroll_half_page_down(&mut self)
        requires
            old(self).wf(),
        ensures
            final(self).wf(),
            final(self)@ == paged(old(self)@, true),
    {
        self.page(true);
    }

    /// Scrolls the window a page up, the cursor keeping its screen row.
    pub fn scroll_half_page_up(&mut self)
        requires
            old(self).wf(),
        ensures
            final(self).wf(),
            final(self)@ == paged(old(self)@, false),
    {
        self.page(false);
    }

    /// Moves the cursor one column left, or to the end of the line above.
    pub fn scroll_left(&mut self)
        requires
            old(self).wf(),
        ensures
            final(self).wf(),
            final(self)@ == moved_left(old(self)@),
    {
        proof {
            lemma_moves_wf(self@);
        }
        if self.text_buffer.lines.len() > 0 {
            let a = self.buffer_column();
            if a > 0 {
                self.place_column(a - 1);
            } else if self.text_view.visible_lines > 0 {
                self.go_to_line(self.text_view.visible_lines - 1);
                let len = self.line_length(self.text_view.visible_lines);
                self.place_column(len);
            }
        }
    }

    /// Moves the cursor one column right, or to the start of the line below.
    pub fn scroll_right(&mut self)
        requires
            old(self).wf(),
        ensures
            final(self).wf(),
            final(self)@ == moved_right(old(self)@),
    {
        proof {
            lemma_moves_wf(self@);
        }
        let n = self.text_buffer.lines.len();
        if n > 0 {
            let a = self.buffer_column();
            let row = self.text_view.visible_lines;
            if a < self.line_length(row) {
                self.place_column(a + 1);
            } else if row + 1 < n {
                self.go_to_line(row + 1);
                self.place_column(0);
            }
        }
    }

    /// Brings the cursor and the window back within the buffer after an edit.
    pub fn reconcile_after_edit(&mut self)
        ensures
            final(self).wf(),
            final(self)@ == reconciled(old(self)@),
    {
        proof {
            lemma_reconciled_wf(self@);
        }
        let n = self.text_buffer.lines.len();
        if n == 0 {
            self.text_view = TextView::new();
            self.text_buffer.cursor_position = (0, 0);
        } else {
            let rows = self.terminal.rows();
            let active = if self.text_view.visible_lines < n { self.text_view.visible_lines } else { n - 1 };
            let last = if n > rows { n - rows } else { 0 };
            let top0 = if self.text_view.scroll_offset.1 < last { self.text_view.scroll_offset.1 } else { last };
            let top = shown_top_exec(top0, active, rows);
            let len = self.line_length(active);
            let left = self.text_view.scroll_offset.0;
            let col = self.text_buffer.cursor_position.0 as usize;
            let acol = if left >= len { len } else if col >= len - left { len } else { left + col };
            self.set_window(active, top);
            self.place_column(acol);
        }
    }

    /// Types `c` at the cursor, which moves past it.
    pub fn write_char(&mut self, c: char)
        requires
            old(self).wf(),
        ensures
            final(self).wf(),
            final(self)@ == inserted(old(self)@, c),
    {
        proof {
            lemma_edits_wf(self@, c);
        }
        if self.text_buffer.lines.len() > 0 {
            let a = self.buffer_column();
            let row = self.text_view.visible_lines;
            self.text_buffer.insert_char(row, a, c);
            let len = self.line_length(row);
            assert(a < len);
            self.place_column(a + 1);
        }
    }
    /// Backspace: removes the character before the cursor; a line left empty
    /// is removed unless it is the only one.
    pub fn delete_char(&mut self)
        requires
            old(self).wf(),
        ensures
            final(self).wf(),
            final(self)@ == deleted_backward(old(self)@),
    {
        proof {
            lemma_edits_wf(self@, ' ');
        }
        let n = self.text_buffer.lines.len();
        if n > 0 {
            let a = self.buffer_column();
            let row = self.text_view.visible_lines;
            if a > 0 || self.line_length(row) == 0 {
                let col = if a > 0 { a - 1 } else { 0 };
                let ghost m = self@;
                let ghost line = if a > 0 { m.lines[row as int].remove(col as int) } else { m.lines[row as int] };
                self.place_column(col);
                self.text_buffer.delete_char(row, col);
                proof {
                    let m1 = if a > 0 {
                        at_column(EditorView { lines: m.lines.update(row as int, line), ..m }, col as int)
                    } else {
                        m
                    };
                    assert(m1.lines =~= m.lines.update(row as int, line));
                    assert(m1.lines.remove(row as int) =~= m.lines.remove(row as int));
                    assert(m1.lines[row as int] == line);
                }
                if self.text_buffer.lines.len() < n {
                    self.reconcile_after_edit();
                }
            }
        }
    }

    /// Enter: splits the line at the cursor, which moves to the start of the
    /// new line.
    pub fn enter(&mut self)
        requires
            old(self).wf(),
        ensures
            final(self).wf(),
            final(self)@ == split(old(self)@),
    {
        proof {
            lemma_edits_wf(self@, ' ');
        }
        if self.text_buffer.lines.len() > 0 {
            let a = self.buffer_column();
            let row = self.text_view.visible_lines;
            self.text_buffer.split_line(row, a);
            let rows = self.terminal.rows();
            let top = shown_top_exec(self.text_view.scroll_offset.1, row + 1, rows);
            self.set_window(row + 1, top);
            self.text_view.scroll_offset.0 = 0;
            self.text_buffer.cursor_position.0 = 0;
        }
    }

    /// Applies one command; true when the command asks for the buffer to be
    /// saved, which the caller does with `save_to_file`.
    pub fn process_command(&mut self, cmd: Command) -> (save: bool)
        requires
            old(self).wf(),
        ensures
            final(self).wf(),
            final(self)@ == step(old(self)@, cmd),
            save == (cmd == Command::Save),
    {
        proof {
            lemma_step_wf(self@, cmd);
        }
        match cmd {
            Command::MoveUp => self.scroll_up(),
            Command::MoveDown => self.scroll_down(),
            Command::MoveLeft => self.scroll_left(),
            Command::MoveRight => self.scroll_right(),
            Command::HalfPageUp => self.scroll_half_page_up(),
            Command::HalfPageDown => self.scroll_half_page_down(),
            Command::InsertChar(ch) => self.write_char(ch),
            Command::DeleteBackward => self.delete_char(),
            Command::SplitLine => self.enter(),
            Command::Save => {},
            Command::Quit => {
                self.is_exit = true;
            },
            Command::Nothing => {},
        }
        matches!(cmd, Command::Save)
    }

    /// The file's text for the buffer; the session ends after it is written.
    pub fn save_to_file(&mut self) -> (r: Vec<char>)
        requires
            old(self).wf(),
        ensures
            final(self).wf(),
            r@ == text_of(old(self)@.lines),
            final(self)@ == (EditorView { exit: true, ..old(self)@ }),
    {
        self.is_exit = true;
        self.text_buffer.contents()
    }

    /// The part of each shown line that fits the window, top line first.
    pub fn visible_text(&self) -> (r: Vec<Vec<char>>)
        requires
            self.wf(),
        ensures
            r@.len() == min(self@.rows, self@.line_count() - self@.top),
            forall|i: int|
                0 <= i < r@.len() ==> #[trigger] r@[i]@ == window_of(
                    self@.lines[self@.top + i],
                    self@.left,
                    self@.cols,
                ),
    {
        let rows = self.terminal.rows();
        let cols = self.terminal.cols();
        let top = self.text_view.scroll_offset.1;
        let left = self.text_view.scroll_offset.0;
        let n = self.text_buffer.lines.len();
        let count = if n - top < rows { n - top } else { rows };
        let mut out: Vec<Vec<char>> = Vec::new();
        let mut i: usize = 0;
        while i < count
            invariant
                self.wf(),
                rows == self@.rows,
                cols == self@.cols,
                top == self@.top,
                left == self@.left,
                n == self@.line_count(),
                count == min(self@.rows, self@.line_count() - self@.top),
                i <= count,
                out@.len() == i,
                forall|k: int|
                    0 <= k < i ==> #[trigger] out@[k]@ == window_of(
                        self@.lines[self@.top + k],
                        self@.left,
                        self@.cols,
                    ),
            decreases count - i,
        {
            let line = &self.text_buffer.lines[top + i];
            let mut part: Vec<char> = Vec::new();
            if left < line.len() {
                let end = if line.len() - left < cols { line.len() } else { left + cols };
                let mut j: usize = left;
                while j < end
                    invariant
                        left <= j <= end,
                        end <= line@.len(),
                        part@ == line@.subrange(left as int, j as int),
                    decreases end - j,
                {
                    part.push(line[j]);
                    j += 1;
                    assert(part@ =~= line@.subrange(left as int, j as int));
                }
            }
            assert(part@ =~= window_of(line@, left as int, cols as int));
            out.push(part);
            i += 1;
        }
        out
    }

    /// The lines of the buffer.
    pub fn lines(&self) -> (r: &Vec<Vec<char>>)
        ensures
            lines_view(r@) == self@.lines,
    {
        &self.text_buffer.lines
    }

    /// The index of the line the cursor is on.
    pub fn active_line_index(&self) -> (r: usize)
        ensures
            r == self@.active,
    {
        self.text_view.visible_lines
    }

    /// The buffer column and row of the top-left cell shown.
    pub fn scroll_offset(&self) -> (r: (usize, usize))
        ensures
            r.0 == self@.left,
            r.1 == self@.top,
    {
        self.text_view.scroll_offset
    }

    /// The cursor's screen column and row.
    pub fn cursor_position(&self) -> (r: (u16, u16))
        requires
            self.wf(),
        ensures
            r.0 == self@.col,
            r.1 == self@.active - self@.top,
    {
        self.text_buffer.cursor_position
    }

    /// The number of lines in the buffer.
    pub fn line_count(&self) -> (r: usize)
        ensures
            r == self@.line_count(),
    {
        self.text_buffer.lines.len()
    }

    /// Whether the session is over.
    pub fn is_exit(&self) -> (r: bool)
        ensures
            r == self@.exit,
    {
        self.is_exit
    }

    /// The name of the file being edited; empty for a new buffer.
    pub fn file_name(&self) -> (r: &String)
        ensures
            r@ == self@.name,
    {
        &self.file_name
    }

    /// The terminal the session draws on.
    pub fn terminal(&self) -> (r: &Terminal)
        ensures
            text_rows(r.size.height) == self@.rows,
            text_cols(r.size.width) == self@.cols,
    {
        &self.terminal
    }
}

/// The part of `line` from column `left` that fits `cols` columns.
pub open spec fn window_of(line: Seq<char>, left: int, cols: int) -> Seq<char> {
    if left >= line.len() {
        seq![]
    } else {
        line.subrange(left, min(line.len() as int, left + cols))
    }
}

/// A key as the terminal reports it.
#[derive(Clone, Copy, Debug, PartialEq, Eq, Structural)]
pub enum Key {
    /// A character typed without the control key.
    Char(char),
    /// A character typed with the control key alone.
    Ctrl(char),
    Backspace,
    Enter,
    Other,
}

/// The command bound to `key`: control-q, -n, -p, -d, -u, -b, -f and -s quit,
/// move down, up, a page down, a page up, left, right, and save; another
/// character is typed, Backspace deletes backward and Enter splits the line.
pub open spec fn command_for(key: Key) -> Command {
    match key {
        Key::Ctrl(c) => if c == 'q' {
            Command::Quit
        } else if c == 'n' {
            Command::MoveDown
        } else if c == 'p' {
            Command::MoveUp
        } else if c == 'd' {
            Command::HalfPageDown
        } else if c == 'u' {
            Command::HalfPageUp
        } else if c == 'b' {
            Command::MoveLeft
        } else if c == 'f' {
            Command::MoveRight
        } else if c == 's' {
            Command::Save
        } else {
            Command::InsertChar(c)
        },
        Key::Char(c) => Command::InsertChar(c),
        Key::Backspace => Command::DeleteBackward,
        Key::Enter => Command::SplitLine,
        Key::Other => Command::Nothing,
    }
}

/// The command bound to `key`.
pub fn decode_key(key: Key) -> (r: Command)
    ensures
        r == command_for(key),
{
    match key {
        Key::Ctrl(c) => if c == 'q' {
            Command::Quit
        } else if c == 'n' {
            Command::MoveDown
        } else if c == 'p' {
            Command::MoveUp
        } else if c == 'd' {
            Command::HalfPageDown
        } else if c == 'u' {
            Command::HalfPageUp
        } else if c == 'b' {
            Command::MoveLeft
        } else if c == 'f' {
            Command::MoveRight
        } else if c == 's' {
            Command::Save
        } else {
            Command::InsertChar(c)
        },
        Key::Char(c) => Command::InsertChar(c),
        Key::Backspace => Command::DeleteBackward,
        Key::Enter => Command::SplitLine,
        Key::Other => Command::Nothing,
    }
}

} // verus!
