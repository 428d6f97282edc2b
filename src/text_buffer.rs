use vstd::prelude::*;

verus! {

/// The lines of a buffer as sequences of characters.
pub open spec fn lines_view(v: Seq<Vec<char>>) -> Seq<Seq<char>> {
    v.map_values(|l: Vec<char>| l@)
}

/// A line with one trailing carriage return removed, as a `\r\n` record reads.
pub open spec fn strip_cr(l: Seq<char>) -> Seq<char> {
    if l.len() > 0 && l.last() == '\r' {
        l.drop_last()
    } else {
        l
    }
}

/// Reading the first `i` characters of `t`: the lines ended so far, and the
/// line under way.
pub open spec fn scan(t: Seq<char>, i: nat) -> (Seq<Seq<char>>, Seq<char>)
    decreases i,
{
    if i == 0 || i > t.len() {
        (seq![], seq![])
    } else {
        let prev = scan(t, (i - 1) as nat);
        if t[i - 1] == '\n' {
            (prev.0.push(strip_cr(prev.1)), seq![])
        } else {
            (prev.0, prev.1.push(t[i - 1]))
        }
    }
}

/// The lines of a file's text: one per record terminated by `\n` or `\r\n`,
/// terminator stripped, and one more for an unterminated tail, kept as it is.
pub open spec fn lines_of(t: Seq<char>) -> Seq<Seq<char>> {
    let s = scan(t, t.len());
    if s.1.len() == 0 {
        s.0
    } else {
        s.0.push(s.1)
    }
}

/// The text of a file holding `lines`: each line followed by one newline.
pub open spec fn text_of(lines: Seq<Seq<char>>) -> Seq<char>
    decreases lines.len(),
{
    if lines.len() == 0 {
        seq![]
    } else {
        text_of(lines.drop_last()) + lines.last() + seq!['\n']
    }
}

/// Every record ends with a newline: the text is empty or its last character
/// is one.
pub open spec fn well_terminated(t: Seq<char>) -> bool {
    t.len() == 0 || t.last() == '\n'
}

/// No newline follows a carriage return.
pub open spec fn no_crlf(t: Seq<char>) -> bool {
    forall|i: int| 0 < i < t.len() && #[trigger] t[i] == '\n' ==> t[i - 1] != '\r'
}

proof fn lemma_scan(t: Seq<char>, i: nat)
    requires
        no_crlf(t),
        i <= t.len(),
    ensures
        text_of(scan(t, i).0) + scan(t, i).1 == t.take(i as int),
        scan(t, i).1.len() > 0 ==> i > 0 && scan(t, i).1.last() == t[i - 1],
    decreases i,
{
    if i > 0 {
        lemma_scan(t, (i - 1) as nat);
        let prev = scan(t, (i - 1) as nat);
        if t[i - 1] == '\n' {
            assert(strip_cr(prev.1) == prev.1);
            let ls = prev.0.push(prev.1);
            assert(ls.drop_last() =~= prev.0);
            assert(t.take(i as int) =~= t.take(i - 1) + seq!['\n']);
            assert(text_of(ls) + seq![] =~= text_of(prev.0) + prev.1 + seq!['\n']);
        } else {
            assert(t.take(i as int) =~= t.take(i - 1).push(t[i - 1]));
            assert(text_of(prev.0) + prev.1.push(t[i - 1]) =~= (text_of(prev.0) + prev.1).push(
                t[i - 1],
            ));
        }
    } else {
        assert(t.take(0) =~= seq![]);
        assert(text_of(seq![]) + seq![] =~= seq![]);
    }
}

/// Saving what was opened gives back the file, byte for byte, when every
/// record of it is terminated by exactly one newline; and so does saving and
/// opening a second time.
pub proof fn lemma_open_save_round_trip(t: Seq<char>)
    requires
        well_terminated(t),
        no_crlf(t),
    ensures
        text_of(lines_of(t)) == t,
        text_of(lines_of(text_of(lines_of(t)))) == t,
{
    lemma_scan(t, t.len());
    let s = scan(t, t.len());
    if t.len() > 0 {
        assert(s.1.len() == 0);
    }
    assert(s.0 == lines_of(t));
    assert(t.take(t.len() as int) =~= t);
    assert(text_of(s.0) + s.1 =~= text_of(s.0));
}

/// Removes one trailing carriage return.
fn strip_cr_exec(line: &mut Vec<char>)
    ensures
        final(line)@ == strip_cr(old(line)@),
{
    let n = line.len();
    if n > 0 && line[n - 1] == '\r' {
        line.pop();
    }
}

/// Breaks a file's text into its lines.
pub fn split_lines(text: &Vec<char>) -> (r: Vec<Vec<char>>)
    ensures
        lines_view(r@) == lines_of(text@),
{
    let mut lines: Vec<Vec<char>> = Vec::new();
    let mut cur: Vec<char> = Vec::new();
    let mut i: usize = 0;
    while i < text.len()
        invariant
            i <= text.len(),
            lines_view(lines@) == scan(text@, i as nat).0,
            cur@ == scan(text@, i as nat).1,
        decreases text.len() - i,
    {
        let c = text[i];
        let ghost before = lines@;
        if c == '\n' {
            let mut line = cur;
            strip_cr_exec(&mut line);
            lines.push(line);
            cur = Vec::new();
            assert(lines_view(lines@) =~= lines_view(before).push(line@));
        } else {
            cur.push(c);
        }
        i += 1;
    }
    if cur.len() > 0 {
        let ghost before = lines@;
        lines.push(cur);
        assert(lines_view(lines@) =~= lines_view(before).push(cur@));
    }
    lines
}

/// The text of a file holding `lines`.
pub fn join_lines(lines: &Vec<Vec<char>>) -> (r: Vec<char>)
    ensures
        r@ == text_of(lines_view(lines@)),
{
    let mut out: Vec<char> = Vec::new();
    let mut i: usize = 0;
    while i < lines.len()
        invariant
            i <= lines.len(),
            out@ == text_of(lines_view(lines@).take(i as int)),
        decreases lines.len() - i,
    {
        let line = &lines[i];
        let ghost base = out@;
        let mut j: usize = 0;
        while j < line.len()
            invariant
                j <= line.len(),
                out@ == base + line@.take(j as int),
            decreases line.len() - j,
        {
            out.push(line[j]);
            j += 1;
            assert(out@ =~= base + line@.take(j as int));
        }
        out.push('\n');
        let ghost done = lines_view(lines@).take(i + 1);
        assert(done.drop_last() =~= lines_view(lines@).take(i as int));
        assert(line@.take(j as int) =~= line@);
        assert(out@ =~= text_of(done));
        i += 1;
    }
    assert(lines_view(lines@).take(i as int) =~= lines_view(lines@));
    out
}

/// `ch` inserted at column `col` of line `row`; nothing changes where the
/// line or the column does not exist.
pub open spec fn char_inserted(lines: Seq<Seq<char>>, row: int, col: int, ch: char) -> Seq<Seq<char>> {
    if 0 <= row < lines.len() && 0 <= col <= lines[row].len() {
        lines.update(row, lines[row].take(col).push(ch) + lines[row].skip(col))
    } else {
        lines
    }
}

/// The character at column `col` of line `row` removed, where there is one;
/// then the line removed if it is empty and not the only one.
pub open spec fn char_deleted(lines: Seq<Seq<char>>, row: int, col: int) -> Seq<Seq<char>> {
    if 0 <= row < lines.len() {
        let l = if 0 <= col < lines[row].len() {
            lines[row].remove(col)
        } else {
            lines[row]
        };
        if l.len() == 0 && lines.len() > 1 {
            lines.remove(row)
        } else {
            lines.update(row, l)
        }
    } else {
        lines
    }
}

/// Line `row` split at column `col`: the part before stays, the rest becomes
/// the next line; nothing changes where the line or the column does not exist.
pub open spec fn line_split(lines: Seq<Seq<char>>, row: int, col: int) -> Seq<Seq<char>> {
    if 0 <= row < lines.len() && 0 <= col <= lines[row].len() {
        lines.update(row, lines[row].take(col)).insert(row + 1, lines[row].skip(col))
    } else {
        lines
    }
}

/// The lines of the text being edited, and the cursor's screen position.
pub struct TextBuffer {
    pub lines: Vec<Vec<char>>,
    pub cursor_position: (u16, u16),
}

impl TextBuffer {
    /// An empty buffer, cursor at the origin.
    pub fn new() -> (r: Self)
        ensures
            r.lines@.len() == 0,
            r.cursor_position == (0u16, 0u16),
    {
        TextBuffer { lines: Vec::new(), cursor_position: (0, 0) }
    }

    /// Replaces all lines with those of a file's text, cursor back at the origin.
    pub fn open_file(&mut self, contents: &Vec<char>)
        ensures
            lines_view(final(self).lines@) == lines_of(contents@),
            final(self).cursor_position == (0u16, 0u16),
    {
        self.lines = split_lines(contents);
        self.cursor_position = (0, 0);
    }

    /// The file's text for these lines.
    pub fn contents(&self) -> (r: Vec<char>)
        ensures
            r@ == text_of(lines_view(self.lines@)),
    {
        join_lines(&self.lines)
    }
    /// The length of line `row`; zero where there is no such line.
    pub fn line_length(&self, row: usize) -> (r: usize)
        ensures
            r == (if row < self.lines@.len() { self.lines@[row as int]@.len() } else { 0 }),
    {
        if row < self.lines.len() {
            self.lines[row].len()
        } else {
            0
        }
    }

    /// Inserts `ch` at column `col` of line `row`.
    pub fn insert_char(&mut self, row: usize, col: usize, ch: char)
        ensures
            lines_view(final(self).lines@) == char_inserted(
                lines_view(old(self).lines@),
                row as int,
                col as int,
                ch,
            ),
            final(self).cursor_position == old(self).cursor_position,
    {
        if row < self.lines.len() && col <= self.lines[row].len() {
            let ghost before = lines_view(self.lines@);
            let mut line: Vec<char> = Vec::new();
            self.lines.set_and_swap(row, &mut line);
            line.insert(col, ch);
            assert(line@ =~= before[row as int].take(col as int).push(ch) + before[row as int].skip(
                col as int,
            ));
            self.lines.set(row, line);
            assert(lines_view(self.lines@) =~= before.update(row as int, line@));
        }
    }

    /// Removes the character at column `col` of line `row`, and the line if it
    /// is left empty and is not the only one.
    pub fn delete_char(&mut self, row: usize, col: usize)
        ensures
            lines_view(final(self).lines@) == char_deleted(
                lines_view(old(self).lines@),
                row as int,
                col as int,
            ),
            final(self).cursor_position == old(self).cursor_position,
    {
        if row < self.lines.len() {
            let ghost before = lines_view(self.lines@);
            let mut line: Vec<char> = Vec::new();
            self.lines.set_and_swap(row, &mut line);
            if col < line.len() {
                let _gone = line.remove(col);
            }
            let empty = line.len() == 0;
            let ghost l = line@;
            self.lines.set(row, line);
            assert(lines_view(self.lines@) =~= before.update(row as int, l));
            if empty && self.lines.len() > 1 {
                let _gone = self.lines.remove(row);
                assert(lines_view(self.lines@) =~= before.remove(row as int));
            }
        }
    }

    /// Splits line `row` at column `col`, the rest becoming the next line.
    pub fn split_line(&mut self, row: usize, col: usize)
        ensures
            lines_view(final(self).lines@) == line_split(
                lines_view(old(self).lines@),
                row as int,
                col as int,
            ),
            final(self).cursor_position == old(self).cursor_position,
    {
        if row < self.lines.len() && col <= self.lines[row].len() {
            let ghost before = lines_view(self.lines@);
            let mut line: Vec<char> = Vec::new();
            self.lines.set_and_swap(row, &mut line);
            let tail = line.split_off(col);
            self.lines.set(row, line);
            self.lines.insert(row + 1, tail);
            assert(lines_view(self.lines@) =~= before.update(row as int, before[row as int].take(
                col as int,
            )).insert(row + 1, before[row as int].skip(col as int)));
        }
    }

}

} // verus!
