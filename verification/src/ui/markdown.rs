//! The light Markdown handling of the chat view: pipe tables, table cells,
//! and the split of a reply into prose and table segments.

use vstd::prelude::*;

use crate::text::{
    lemma_lines_after_line, lemma_lines_of_line, lemma_lines_text_front, lines_text, plain_line,
    count_char, count_chars, split_at_char, split_chars, str_chars, strings_view,
    first_index_of, find_char, lemma_first_index_of, lines_seq, push_all, sub_chars, str_lines,
    string_from_chars, strip_char, strip_end_char, strip_start_char, trim_chars, trim_seq,
};

verus! {

/// A line (already trimmed) that starts and ends with `|` and holds at least
/// two of them.
pub open spec fn is_table_row_spec(line: Seq<char>) -> bool {
    line.len() > 0 && line[0] == '|' && line.last() == '|' && count_char(line, '|') >= 2
}

/// The cells of a table row: the row without its outer pipes, split at the
/// inner ones, each piece trimmed.
pub open spec fn table_cells(line: Seq<char>) -> Seq<Seq<char>> {
    let pieces = split_at_char(strip_end_char(strip_start_char(line, '|'), '|'), '|');
    Seq::new(pieces.len(), |i: int| trim_seq(pieces[i]))
}

/// A separator cell: at least three characters, all of them `-`, `:` or
/// space.
pub open spec fn is_separator_cell(cell: Seq<char>) -> bool {
    cell.len() >= 3 && forall|i: int|
        0 <= i < cell.len() ==> (#[trigger] cell[i] == '-' || cell[i] == ':' || cell[i] == ' ')
}

/// A table row whose cells are all separator cells.
pub open spec fn is_table_separator_spec(line: Seq<char>) -> bool {
    is_table_row_spec(line) && forall|i: int|
        0 <= i < table_cells(line).len() ==> is_separator_cell(
            trim_seq(#[trigger] table_cells(line)[i]),
        )
}

fn is_table_row_chars(line: &[char]) -> (r: bool)
    ensures
        r == is_table_row_spec(line@),
{
    line.len() > 0 && line[0] == '|' && line[line.len() - 1] == '|' && count_chars(line, '|') >= 2
}

/// Whether a trimmed line is a row of a pipe table.
pub fn is_table_row(line: &str) -> (r: bool)
    ensures
        r == is_table_row_spec(line@),
{
    let cs = str_chars(line);
    is_table_row_chars(cs.as_slice())
}

fn table_cells_chars(line: &[char]) -> (r: Vec<Vec<char>>)
    ensures
        r@.len() == table_cells(line@).len(),
        forall|i: int| 0 <= i < r@.len() ==> (#[trigger] r@[i])@ == table_cells(line@)[i],
{
    let inner = strip_char(line, '|');
    let pieces = split_chars(inner.as_slice(), '|');
    let mut r: Vec<Vec<char>> = Vec::new();
    let mut i: usize = 0;
    while i < pieces.len()
        invariant
            i <= pieces@.len(),
            pieces@.len() == table_cells(line@).len(),
            forall|j: int| 0 <= j < pieces@.len() ==> (#[trigger] pieces@[j])@ == split_at_char(inner@, '|')[j],
            inner@ == strip_end_char(strip_start_char(line@, '|'), '|'),
            r@.len() == i,
            forall|j: int| 0 <= j < i ==> (#[trigger] r@[j])@ == table_cells(line@)[j],
        decreases pieces@.len() - i,
    {
        r.push(trim_chars(pieces[i].as_slice()));
        i = i + 1;
    }
    r
}

fn strings_from_char_vecs(v: &Vec<Vec<char>>) -> (r: Vec<String>)
    ensures
        r@.len() == v@.len(),
        forall|i: int| 0 <= i < r@.len() ==> (#[trigger] r@[i])@ == v@[i]@,
{
    let mut r: Vec<String> = Vec::new();
    let mut i: usize = 0;
    while i < v.len()
        invariant
            i <= v@.len(),
            r@.len() == i,
            forall|j: int| 0 <= j < i ==> (#[trigger] r@[j])@ == v@[j]@,
        decreases v@.len() - i,
    {
        r.push(string_from_chars(v[i].as_slice()));
        i = i + 1;
    }
    r
}

/// The trimmed cells of a table row.
pub fn split_table_row(line: &str) -> (r: Vec<String>)
    ensures
        strings_view(r@) == table_cells(line@),
{
    let cs = str_chars(line);
    let cells = table_cells_chars(cs.as_slice());
    let r = strings_from_char_vecs(&cells);
    assert(strings_view(r@) =~= table_cells(line@));
    r
}

fn is_separator_cell_chars(cell: &[char]) -> (r: bool)
    ensures
        r == is_separator_cell(cell@),
{
    let mut i: usize = 0;
    while i < cell.len()
        invariant
            i <= cell@.len(),
            forall|j: int| 0 <= j < i ==> (#[trigger] cell@[j] == '-' || cell@[j] == ':' || cell@[j] == ' '),
        decreases cell@.len() - i,
    {
        let c = cell[i];
        if !(c == '-' || c == ':' || c == ' ') {
            return false;
        }
        i = i + 1;
    }
    cell.len() >= 3
}

fn is_table_separator_chars(line: &[char]) -> (r: bool)
    ensures
        r == is_table_separator_spec(line@),
{
    if !is_table_row_chars(line) {
        return false;
    }
    let cells = table_cells_chars(line);
    let mut i: usize = 0;
    while i < cells.len()
        invariant
            i <= cells@.len(),
            cells@.len() == table_cells(line@).len(),
            forall|j: int| 0 <= j < cells@.len() ==> (#[trigger] cells@[j])@ == table_cells(line@)[j],
            forall|j: int| 0 <= j < i ==> is_separator_cell(trim_seq(#[trigger] table_cells(line@)[j])),
        decreases cells@.len() - i,
    {
        let t = trim_chars(cells[i].as_slice());
        if !is_separator_cell_chars(t.as_slice()) {
            return false;
        }
        i = i + 1;
    }
    true
}

/// Whether a trimmed line is the separator line under a table's header.
pub fn is_table_separator(line: &str) -> (r: bool)
    ensures
        r == is_table_separator_spec(line@),
{
    let cs = str_chars(line);
    is_table_separator_chars(cs.as_slice())
}

/// A separator line is a table row.
pub proof fn separator_is_row(line: Seq<char>)
    ensures
        is_table_separator_spec(line) ==> is_table_row_spec(line),
{
}

/// A table cell as shown: its trimmed text, and whether it is code, which it
/// is when it is wrapped in backticks (then shown without them).
pub open spec fn normalized_cell(source: Seq<char>) -> (Seq<char>, bool) {
    let t = trim_seq(source);
    if t.len() >= 2 && t[0] == '`' && t.last() == '`' {
        (strip_end_char(strip_start_char(t, '`'), '`'), true)
    } else {
        (t, false)
    }
}

/// The text of a table cell and whether it is shown as code.
pub fn normalize_table_cell(source: &str) -> (r: (String, bool))
    ensures
        r.0@ == normalized_cell(source@).0,
        r.1 == normalized_cell(source@).1,
{
    let cs = str_chars(source);
    let t = trim_chars(cs.as_slice());
    if t.len() >= 2 && t[0] == '`' && t[t.len() - 1] == '`' {
        let inner = strip_char(t.as_slice(), '`');
        (string_from_chars(inner.as_slice()), true)
    } else {
        (string_from_chars(t.as_slice()), false)
    }
}


/// A pipe table: its header cells and the cells of each body row.
#[derive(Debug, Clone)]
pub struct SimpleMarkdownTable {
    pub headers: Vec<String>,
    pub rows: Vec<Vec<String>>,
}

/// The cell texts of a table: headers, and rows of cells.
pub open spec fn table_view(t: SimpleMarkdownTable) -> (Seq<Seq<char>>, Seq<Seq<Seq<char>>>) {
    (strings_view(t.headers@), Seq::new(t.rows@.len(), |i: int| strings_view(t.rows@[i]@)))
}

/// The non-blank lines, trimmed.
pub open spec fn kept_lines(ls: Seq<Seq<char>>) -> Seq<Seq<char>>
    decreases ls.len(),
{
    if ls.len() == 0 {
        Seq::empty()
    } else {
        kept_lines(ls.drop_last()) + if trim_seq(ls.last()).len() == 0 {
            Seq::empty()
        } else {
            seq![trim_seq(ls.last())]
        }
    }
}

/// The cells of the lines that are table rows, in order.
pub open spec fn body_rows(ls: Seq<Seq<char>>) -> Seq<Seq<Seq<char>>>
    decreases ls.len(),
{
    if ls.len() == 0 {
        Seq::empty()
    } else {
        body_rows(ls.drop_last()) + if is_table_row_spec(ls.last()) && table_cells(ls.last()).len()
            > 0 {
            seq![table_cells(ls.last())]
        } else {
            Seq::empty()
        }
    }
}

/// The table written by some lines: after dropping blank lines, a header
/// row, a separator line, then the body rows (other lines are ignored).
pub open spec fn parsed_table(lines: Seq<Seq<char>>) -> Option<(Seq<Seq<char>>, Seq<Seq<Seq<char>>>)> {
    let ls = kept_lines(lines);
    if ls.len() < 2 {
        None
    } else if !is_table_row_spec(ls[0]) || !is_table_separator_spec(ls[1]) {
        None
    } else if table_cells(ls[0]).len() == 0 {
        None
    } else {
        Some((table_cells(ls[0]), body_rows(ls.skip(2))))
    }
}

fn table_from_cells(headers: &Vec<Vec<char>>, rows: &Vec<Vec<Vec<char>>>) -> (r: SimpleMarkdownTable)
    ensures
        strings_view(r.headers@) == Seq::new(headers@.len(), |i: int| headers@[i]@),
        r.rows@.len() == rows@.len(),
        forall|i: int| 0 <= i < rows@.len() ==> strings_view((#[trigger] r.rows@[i])@) == Seq::new(
            rows@[i]@.len(),
            |j: int| rows@[i]@[j]@,
        ),
{
    let hs = strings_from_char_vecs(headers);
    assert(strings_view(hs@) =~= Seq::new(headers@.len(), |i: int| headers@[i]@));
    let mut rs: Vec<Vec<String>> = Vec::new();
    let mut i: usize = 0;
    while i < rows.len()
        invariant
            i <= rows@.len(),
            rs@.len() == i,
            forall|k: int| 0 <= k < i ==> strings_view((#[trigger] rs@[k])@) == Seq::new(
                rows@[k]@.len(),
                |j: int| rows@[k]@[j]@,
            ),
        decreases rows@.len() - i,
    {
        let row = strings_from_char_vecs(&rows[i]);
        assert(strings_view(row@) =~= Seq::new(rows@[i as int]@.len(), |j: int| rows@[i as int]@[j]@));
        rs.push(row);
        i = i + 1;
    }
    SimpleMarkdownTable { headers: hs, rows: rs }
}

fn parse_table_lines(lines: &Vec<Vec<char>>, lo: usize, hi: usize) -> (r: Option<SimpleMarkdownTable>)
    requires
        lo <= hi <= lines@.len(),
    ensures
        match r {
            Some(t) => parsed_table(
                Seq::new((hi - lo) as nat, |i: int| lines@[lo + i]@),
            ) == Some(table_view(t)),
            None => parsed_table(Seq::new((hi - lo) as nat, |i: int| lines@[lo + i]@)) is None,
        },
{
    let ghost src = Seq::new((hi - lo) as nat, |i: int| lines@[lo + i]@);
    let mut kept: Vec<Vec<char>> = Vec::new();
    let mut i: usize = lo;
    while i < hi
        invariant
            lo <= i <= hi <= lines@.len(),
            src == Seq::new((hi - lo) as nat, |k: int| lines@[lo + k]@),
            kept@.len() == kept_lines(src.take(i - lo)).len(),
            forall|k: int| 0 <= k < kept@.len() ==> (#[trigger] kept@[k])@ == kept_lines(src.take(i - lo))[k],
        decreases hi - i,
    {
        let ghost pre = src.take(i - lo);
        let ghost next = src.take(i - lo + 1);
        assert(next.drop_last() =~= pre);
        assert(next.last() == lines@[i as int]@);
        let t = trim_chars(lines[i].as_slice());
        if t.len() > 0 {
            kept.push(t);
        }
        i = i + 1;
    }
    assert(src.take(hi - lo) =~= src);
    let ghost ks = kept_lines(src);
    if kept.len() < 2 {
        return None;
    }
    if !is_table_row_chars(kept[0].as_slice()) || !is_table_separator_chars(kept[1].as_slice()) {
        return None;
    }
    let headers = table_cells_chars(kept[0].as_slice());
    if headers.len() == 0 {
        return None;
    }
    let mut rows: Vec<Vec<Vec<char>>> = Vec::new();
    let mut j: usize = 2;
    let ghost body = ks.skip(2);
    while j < kept.len()
        invariant
            2 <= j <= kept@.len(),
            kept@.len() == ks.len(),
            forall|k: int| 0 <= k < kept@.len() ==> (#[trigger] kept@[k])@ == ks[k],
            body == ks.skip(2),
            rows@.len() == body_rows(body.take(j - 2)).len(),
            forall|k: int| 0 <= k < rows@.len() ==> Seq::new(
                (#[trigger] rows@[k])@.len(),
                |m: int| rows@[k]@[m]@,
            ) == body_rows(body.take(j - 2))[k],
        decreases kept@.len() - j,
    {
        let ghost pre = body.take(j - 2);
        let ghost next = body.take(j - 2 + 1);
        assert(next.drop_last() =~= pre);
        assert(next.last() == kept@[j as int]@);
        if is_table_row_chars(kept[j].as_slice()) {
            let cells = table_cells_chars(kept[j].as_slice());
            if cells.len() > 0 {
                let ghost cv = Seq::new(cells@.len(), |m: int| cells@[m]@);
                assert(cv =~= table_cells(kept@[j as int]@));
                rows.push(cells);
            }
        }
        j = j + 1;
        proof {
            assert forall|k: int| 0 <= k < rows@.len() implies Seq::new(
                (#[trigger] rows@[k])@.len(),
                |m: int| rows@[k]@[m]@,
            ) == body_rows(next)[k] by {
                if k < body_rows(pre).len() {
                } else {
                    assert(Seq::new(rows@[k]@.len(), |m: int| rows@[k]@[m]@) =~= table_cells(next.last()));
                }
            }
        }
    }
    assert(body.take(kept@.len() - 2) =~= body);
    let t = table_from_cells(&headers, &rows);
    proof {
        assert(Seq::new(headers@.len(), |i: int| headers@[i]@) =~= table_cells(ks[0]));
        assert(table_view(t).1 =~= body_rows(body));
        assert(table_view(t).0 =~= table_cells(ks[0]));
    }
    Some(t)
}

/// The table written by some lines, if they hold one.
pub fn parse_simple_markdown_table(lines: &[&str]) -> (r: Option<SimpleMarkdownTable>)
    ensures
        match r {
            Some(t) => parsed_table(Seq::new(lines@.len(), |i: int| lines@[i]@)) == Some(table_view(t)),
            None => parsed_table(Seq::new(lines@.len(), |i: int| lines@[i]@)) is None,
        },
{
    let mut ls: Vec<Vec<char>> = Vec::new();
    let mut i: usize = 0;
    while i < lines.len()
        invariant
            i <= lines@.len(),
            ls@.len() == i,
            forall|k: int| 0 <= k < i ==> (#[trigger] ls@[k])@ == lines@[k]@,
        decreases lines@.len() - i,
    {
        ls.push(str_chars(lines[i]));
        i = i + 1;
    }
    let r = parse_table_lines(&ls, 0, ls.len());
    assert(Seq::new((ls@.len() - 0) as nat, |i: int| ls@[0 + i]@) =~= Seq::new(lines@.len(), |i: int| lines@[i]@));
    r
}


/// A part of a reply: prose to render as Markdown, or a table.
#[derive(Debug, Clone)]
pub enum MarkdownSegment {
    Markdown(String),
    Table(SimpleMarkdownTable),
}

/// The content of a segment.
pub enum SegmentView {
    Markdown(Seq<char>),
    Table(Seq<Seq<char>>, Seq<Seq<Seq<char>>>),
}

pub open spec fn segment_view(s: MarkdownSegment) -> SegmentView {
    match s {
        MarkdownSegment::Markdown(t) => SegmentView::Markdown(t@),
        MarkdownSegment::Table(t) => SegmentView::Table(table_view(t).0, table_view(t).1),
    }
}

pub open spec fn segments_view(ss: Seq<MarkdownSegment>) -> Seq<SegmentView> {
    Seq::new(ss.len(), |i: int| segment_view(ss[i]))
}

/// Lines joined by line feeds.
pub open spec fn join_lines(buf: Seq<Seq<char>>) -> Seq<char>
    decreases buf.len(),
{
    if buf.len() == 0 {
        Seq::empty()
    } else if buf.len() == 1 {
        buf[0]
    } else {
        join_lines(buf.drop_last()) + seq!['\n'] + buf.last()
    }
}

proof fn lemma_join_lines_front(buf: Seq<Seq<char>>)
    requires
        buf.len() >= 2,
    ensures
        join_lines(buf) == buf[0] + seq!['\n'] + join_lines(buf.drop_first()),
    decreases buf.len(),
{
    let d = buf.drop_last();
    if buf.len() == 2 {
        assert(d.len() == 1);
        assert(buf.drop_first().len() == 1);
        assert(join_lines(d) == d[0]);
        assert(join_lines(buf.drop_first()) == buf.drop_first()[0]);
        assert(join_lines(buf) =~= buf[0] + seq!['\n'] + join_lines(buf.drop_first()));
    } else {
        lemma_join_lines_front(d);
        assert(buf.drop_first().drop_last() =~= d.drop_first());
        assert(buf.drop_first().last() == buf.last());
        assert(join_lines(buf) =~= buf[0] + seq!['\n'] + join_lines(buf.drop_first()));
    }
}

/// A prose segment keeps its line breaks: the buffered lines joined into a
/// segment read back as the same lines (when they are plain lines and the
/// last is not empty), and the segment with a final line feed is the lines
/// written one per line.
pub proof fn prose_segment_keeps_lines(buf: Seq<Seq<char>>)
    requires
        buf.len() > 0,
        forall|i: int| 0 <= i < buf.len() ==> plain_line(#[trigger] buf[i]),
        buf.last().len() > 0,
    ensures
        lines_seq(join_lines(buf)) == buf,
        join_lines(buf) + seq!['\n'] == lines_text(buf),
    decreases buf.len(),
{
    if buf.len() == 1 {
        assert(plain_line(buf[0]));
        lemma_lines_of_line(buf[0]);
        assert(buf.drop_last().len() == 0);
        assert(lines_text(buf.drop_last()) =~= Seq::<char>::empty());
        assert(lines_text(buf) =~= buf[0] + seq!['\n']);
        assert(lines_seq(join_lines(buf)) =~= buf);
    } else {
        let rest = buf.drop_first();
        assert forall|i: int| 0 <= i < rest.len() implies plain_line(#[trigger] rest[i]) by {
            assert(rest[i] == buf[i + 1]);
        }
        assert(rest.last() == buf.last());
        prose_segment_keeps_lines(rest);
        lemma_join_lines_front(buf);
        assert(plain_line(buf[0]));
        lemma_lines_after_line(buf[0], join_lines(rest));
        assert(lines_seq(join_lines(buf)) =~= buf);
        lemma_lines_text_front(buf);
        assert(join_lines(buf) + seq!['\n'] =~= lines_text(buf));
    }
}


/// The prose segment made of the buffered lines, unless they are blank.
pub open spec fn flush_spec(buf: Seq<Seq<char>>) -> Seq<SegmentView> {
    if trim_seq(join_lines(buf)).len() > 0 {
        seq![SegmentView::Markdown(join_lines(buf))]
    } else {
        Seq::empty()
    }
}

/// Line `i` is a table header: a row followed by a separator line.
pub open spec fn header_at(ls: Seq<Seq<char>>, i: int) -> bool {
    0 <= i && i + 1 < ls.len() && is_table_row_spec(trim_seq(ls[i])) && is_table_separator_spec(
        trim_seq(ls[i + 1]),
    )
}

/// The first line at or after `j` that is not a table row.
pub open spec fn run_end(ls: Seq<Seq<char>>, j: int) -> int
    decreases ls.len() - j,
{
    if 0 <= j < ls.len() && is_table_row_spec(trim_seq(ls[j])) {
        run_end(ls, j + 1)
    } else {
        j
    }
}

/// The end of a run of table rows lies between its start and the line count.
pub proof fn lemma_run_end(ls: Seq<Seq<char>>, j: int)
    ensures
        run_end(ls, j) >= j,
        0 <= j <= ls.len() ==> run_end(ls, j) <= ls.len(),
    decreases ls.len() - j,
{
    if 0 <= j < ls.len() && is_table_row_spec(trim_seq(ls[j])) {
        lemma_run_end(ls, j + 1);
    }
}

/// The segments of the lines from `i` on, with `buf` the prose lines read
/// so far; and whether a table was found among them. A header line starts
/// a table that runs over the following rows; the prose before it becomes a
/// segment of its own.
pub open spec fn scan_segments(ls: Seq<Seq<char>>, i: int, buf: Seq<Seq<char>>) -> (Seq<SegmentView>, bool)
    decreases ls.len() - i,
{
    if i < 0 || i >= ls.len() {
        (flush_spec(buf), false)
    } else if header_at(ls, i) {
        let e = run_end(ls, i + 2);
        proof {
            lemma_run_end(ls, i + 2);
        }
        let t = parsed_table(ls.subrange(i, e));
        let rest = scan_segments(ls, e, Seq::empty());
        (flush_spec(buf) + match t {
            Some(tv) => seq![SegmentView::Table(tv.0, tv.1)],
            None => Seq::empty(),
        } + rest.0, t is Some || rest.1)
    } else {
        scan_segments(ls, i + 1, buf.push(ls[i]))
    }
}

/// The segments of a reply, when it holds at least one table.
pub open spec fn table_segments_spec(source: Seq<char>) -> Option<Seq<SegmentView>> {
    let r = scan_segments(lines_seq(source), 0, Seq::empty());
    if r.1 {
        Some(r.0)
    } else {
        None
    }
}

proof fn lemma_kept_first_two(ls: Seq<Seq<char>>)
    requires
        ls.len() >= 2,
        trim_seq(ls[0]).len() > 0,
        trim_seq(ls[1]).len() > 0,
    ensures
        kept_lines(ls).len() >= 2,
        kept_lines(ls)[0] == trim_seq(ls[0]),
        kept_lines(ls)[1] == trim_seq(ls[1]),
    decreases ls.len(),
{
    if ls.len() == 2 {
        let one = ls.drop_last();
        assert(one.drop_last().len() == 0);
        assert(kept_lines(one.drop_last()).len() == 0);
        assert(one.last() == ls[0]);
        assert(kept_lines(one) =~= seq![trim_seq(ls[0])]);
    } else {
        let d = ls.drop_last();
        lemma_kept_first_two(d);
    }
}

/// A header line always starts a table: the lines from it to the end of
/// its run of rows parse as one.
proof fn lemma_header_parses(ls: Seq<Seq<char>>, i: int)
    requires
        header_at(ls, i),
    ensures
        parsed_table(ls.subrange(i, run_end(ls, i + 2))) is Some,
{
    lemma_run_end(ls, i + 2);
    let sub = ls.subrange(i, run_end(ls, i + 2));
    assert(sub[0] == ls[i]);
    assert(sub[1] == ls[i + 1]);
    lemma_kept_first_two(sub);
    let first = kept_lines(sub)[0];
    crate::text::lemma_split_at_char_nonempty(
        strip_end_char(strip_start_char(first, '|'), '|'),
        '|',
    );
}

/// What a scan from line `i` finds: tables exactly when a header line lies
/// at or after `i`, then at least one table segment, and never a blank
/// prose segment.
proof fn lemma_scan_tables(ls: Seq<Seq<char>>, i: int, buf: Seq<Seq<char>>)
    requires
        0 <= i,
    ensures
        scan_segments(ls, i, buf).1 <==> exists|j: int| i <= j && #[trigger] header_at(ls, j),
        scan_segments(ls, i, buf).1 ==> exists|k: int|
            0 <= k < scan_segments(ls, i, buf).0.len() && (#[trigger] scan_segments(
                ls,
                i,
                buf,
            ).0[k]) is Table,
        forall|k: int|
            0 <= k < scan_segments(ls, i, buf).0.len() ==> (#[trigger] scan_segments(ls, i, buf).0[k]
                matches SegmentView::Markdown(t) ==> trim_seq(t).len() > 0),
    decreases ls.len() - i,
{
    let r = scan_segments(ls, i, buf);
    if i >= ls.len() {
        assert forall|j: int| i <= j implies !#[trigger] header_at(ls, j) by {}
    } else if header_at(ls, i) {
        let e = run_end(ls, i + 2);
        lemma_run_end(ls, i + 2);
        lemma_header_parses(ls, i);
        lemma_scan_tables(ls, e, Seq::empty());
        let t = parsed_table(ls.subrange(i, e));
        let tv = t->0;
        let head = flush_spec(buf);
        let mid = seq![SegmentView::Table(tv.0, tv.1)];
        let rest = scan_segments(ls, e, Seq::empty());
        assert(r.0 == head + mid + rest.0);
        assert(r.0[head.len() as int] is Table);
        assert forall|k: int| 0 <= k < r.0.len() implies (#[trigger] r.0[k] matches SegmentView::Markdown(
            t,
        ) ==> trim_seq(t).len() > 0) by {
            if k >= head.len() + 1 {
                assert(r.0[k] == rest.0[k - head.len() - 1]);
            }
        }
    } else {
        lemma_scan_tables(ls, i + 1, buf.push(ls[i]));
        assert forall|j: int| i <= j && #[trigger] header_at(ls, j) implies i + 1 <= j by {}
    }
}

/// A reply holds table segments exactly when some line is a table row
/// followed by a separator line; then at least one segment is a table and
/// no prose segment is blank.
pub proof fn tables_found_exactly_at_headers(source: Seq<char>)
    ensures
        table_segments_spec(source) is Some <==> exists|j: int| #[trigger] header_at(
            lines_seq(source),
            j,
        ),
        table_segments_spec(source) matches Some(ss) ==> (exists|k: int|
            0 <= k < ss.len() && (#[trigger] ss[k]) is Table) && (forall|k: int|
            0 <= k < ss.len() ==> (#[trigger] ss[k] matches SegmentView::Markdown(t) ==> trim_seq(
                t,
            ).len() > 0)),
{
    lemma_scan_tables(lines_seq(source), 0, Seq::empty());
    assert forall|j: int| #[trigger] header_at(lines_seq(source), j) implies 0 <= j by {}
}

fn push_markdown_segment(segments: &mut Vec<MarkdownSegment>, buf: &Vec<Vec<char>>)
    ensures
        segments_view(final(segments)@) == segments_view(old(segments)@) + flush_spec(
            Seq::new(buf@.len(), |k: int| buf@[k]@),
        ),
{
    let ghost bv = Seq::new(buf@.len(), |k: int| buf@[k]@);
    let mut text: Vec<char> = Vec::new();
    let mut i: usize = 0;
    while i < buf.len()
        invariant
            i <= buf@.len(),
            bv == Seq::new(buf@.len(), |k: int| buf@[k]@),
            text@ == join_lines(bv.take(i as int)),
        decreases buf@.len() - i,
    {
        let ghost next = bv.take(i + 1);
        assert(next.drop_last() =~= bv.take(i as int));
        if i > 0 {
            text.push('\n');
        }
        push_all(&mut text, buf[i].as_slice());
        i = i + 1;
        proof {
            if i == 1 {
                assert(text@ =~= join_lines(next));
            } else {
                assert(text@ =~= join_lines(next));
            }
        }
    }
    assert(bv.take(buf@.len() as int) =~= bv);
    let t = trim_chars(text.as_slice());
    let ghost before = segments@;
    if t.len() > 0 {
        segments.push(MarkdownSegment::Markdown(string_from_chars(text.as_slice())));
        assert(segments_view(segments@) =~= segments_view(before) + flush_spec(bv));
    } else {
        assert(segments_view(segments@) =~= segments_view(before) + flush_spec(bv));
    }
}

/// Splits a reply into prose and pipe-table segments; `None` when it holds
/// no table, so that it is rendered as Markdown as a whole.
pub fn split_markdown_table_segments(source: &str) -> (r: Option<Vec<MarkdownSegment>>)
    ensures
        match r {
            Some(ss) => table_segments_spec(source@) == Some(segments_view(ss@)),
            None => table_segments_spec(source@) is None,
        },
{
    let lines = str_lines(source);
    let ghost ls = lines_seq(source@);
    assert(Seq::new(lines@.len(), |k: int| lines@[k]@) =~= ls);
    let ghost total = scan_segments(ls, 0, Seq::empty());
    let mut segments: Vec<MarkdownSegment> = Vec::new();
    let mut buffer: Vec<Vec<char>> = Vec::new();
    let mut found = false;
    let mut index: usize = 0;
    assert(Seq::new(buffer@.len(), |k: int| buffer@[k]@) =~= Seq::<Seq<char>>::empty());
    while index < lines.len()
        invariant
            index <= lines@.len(),
            lines@.len() == ls.len(),
            forall|k: int| 0 <= k < lines@.len() ==> (#[trigger] lines@[k])@ == ls[k],
            total == scan_segments(ls, 0, Seq::empty()),
            segments_view(segments@) + scan_segments(
                ls,
                index as int,
                Seq::new(buffer@.len(), |k: int| buffer@[k]@),
            ).0 == total.0,
            (found || scan_segments(ls, index as int, Seq::new(buffer@.len(), |k: int| buffer@[k]@)).1)
                == total.1,
        decreases lines@.len() - index,
    {
        let ghost bv = Seq::new(buffer@.len(), |k: int| buffer@[k]@);
        let line = trim_chars(lines[index].as_slice());
        let is_header = is_table_row_chars(line.as_slice()) && index + 1 < lines.len()
            && is_table_separator_chars(trim_chars(lines[index + 1].as_slice()).as_slice());
        if is_header {
            assert(header_at(ls, index as int));
            let ghost before = segments@;
            push_markdown_segment(&mut segments, &buffer);
            buffer = Vec::new();
            let table_start = index;
            index = index + 2;
            while index < lines.len() && is_table_row_chars(trim_chars(lines[index].as_slice()).as_slice())
                invariant
                    table_start + 2 <= index <= lines@.len(),
                    lines@.len() == ls.len(),
                    forall|k: int| 0 <= k < lines@.len() ==> (#[trigger] lines@[k])@ == ls[k],
                    run_end(ls, table_start + 2) == run_end(ls, index as int),
                decreases lines@.len() - index,
            {
                index = index + 1;
            }
            let ghost e = run_end(ls, table_start + 2);
            assert(e == index);
            let table = parse_table_lines(&lines, table_start, index);
            assert(Seq::new((index - table_start) as nat, |k: int| lines@[table_start + k]@) =~= ls.subrange(
                table_start as int,
                index as int,
            ));
            let ghost tseg = match parsed_table(ls.subrange(table_start as int, e)) {
                Some(tv) => seq![SegmentView::Table(tv.0, tv.1)],
                None => Seq::empty(),
            };
            let ghost mid = segments@;
            match table {
                Some(t) => {
                    segments.push(MarkdownSegment::Table(t));
                    found = true;
                },
                None => {},
            }
            proof {
                assert(segments_view(segments@) =~= segments_view(before) + flush_spec(bv) + tseg);
                assert(Seq::new(buffer@.len(), |k: int| buffer@[k]@) =~= Seq::<Seq<char>>::empty());
                let rest = scan_segments(ls, e, Seq::empty());
                assert(scan_segments(ls, table_start as int, bv).0 == flush_spec(bv) + tseg + rest.0);
                assert(segments_view(segments@) + rest.0 =~= segments_view(before) + (flush_spec(bv) + tseg
                    + rest.0));
            }
            continue;
        }
        assert(!header_at(ls, index as int));
        buffer.push(lines[index].clone());
        proof {
            assert(Seq::new(buffer@.len(), |k: int| buffer@[k]@) =~= bv.push(ls[index as int]));
        }
        index = index + 1;
    }
    push_markdown_segment(&mut segments, &buffer);
    if found {
        Some(segments)
    } else {
        None
    }
}


/// How an inline piece of prose is drawn.
#[derive(Debug, Clone, Copy, PartialEq, Eq, Structural)]
pub enum InlineStyle {
    Normal,
    Bold,
    Code,
}

/// The position of the first `cc` (two copies of `c`) in `s`, if any.
pub open spec fn first_pair_index(s: Seq<char>, c: char) -> Option<int>
    decreases s.len(),
{
    if s.len() < 2 {
        None
    } else if s[0] == c && s[1] == c {
        Some(0)
    } else {
        match first_pair_index(s.drop_first(), c) {
            Some(i) => Some(i + 1),
            None => None,
        }
    }
}

/// Where a found pair lies.
pub proof fn lemma_first_pair_index(s: Seq<char>, c: char)
    ensures
        first_pair_index(s, c) matches Some(i) ==> 0 <= i && i + 2 <= s.len() && s[i] == c && s[i
            + 1] == c,
    decreases s.len(),
{
    if s.len() >= 2 && !(s[0] == c && s[1] == c) {
        lemma_first_pair_index(s.drop_first(), c);
    }
}

/// Where a found character lies.
pub proof fn lemma_first_index_bound(s: Seq<char>, c: char)
    ensures
        first_index_of(s, c) matches Some(i) ==> 0 <= i < s.len() && s[i] == c,
    decreases s.len(),
{
    if s.len() > 0 && s[0] != c {
        lemma_first_index_bound(s.drop_first(), c);
    }
}

/// The length of the plain piece at the start of `s`: up to the next `**`
/// or backtick, at least one character.
pub open spec fn plain_run_length(s: Seq<char>) -> int {
    let next = match (first_pair_index(s, '*'), first_index_of(s, '`')) {
        (Some(b), Some(k)) => if b < k {
            b
        } else {
            k
        },
        (Some(b), None) => b,
        (None, Some(k)) => k,
        (None, None) => s.len() as int,
    };
    if next < 1 {
        1
    } else {
        next
    }
}

/// The styled pieces of a line of prose: `**bold**` and `` `code` `` spans
/// with their markers removed, and plain text between them. An opening
/// marker without its closing one is plain text.
pub open spec fn inline_spans_spec(s: Seq<char>) -> Seq<(Seq<char>, InlineStyle)>
    decreases s.len(),
{
    if s.len() == 0 {
        Seq::empty()
    } else if s.len() >= 2 && s[0] == '*' && s[1] == '*' && first_pair_index(s.skip(2), '*') is Some {
        let rest = s.skip(2);
        let e = first_pair_index(rest, '*')->0;
        proof {
            lemma_first_pair_index(rest, '*');
        }
        seq![(rest.take(e), InlineStyle::Bold)] + inline_spans_spec(rest.skip(e + 2))
    } else if s[0] == '`' && first_index_of(s.skip(1), '`') is Some {
        let rest = s.skip(1);
        let e = first_index_of(rest, '`')->0;
        proof {
            lemma_first_index_bound(rest, '`');
        }
        seq![(rest.take(e), InlineStyle::Code)] + inline_spans_spec(rest.skip(e + 1))
    } else {
        let take = plain_run_length(s);
        proof {
            lemma_first_pair_index(s, '*');
            lemma_first_index_bound(s, '`');
        }
        seq![(s.take(take), InlineStyle::Normal)] + inline_spans_spec(s.skip(take))
    }
}

fn find_pair(v: &[char], c: char) -> (r: Option<usize>)
    ensures
        match r {
            Some(k) => first_pair_index(v@, c) == Some(k as int),
            None => first_pair_index(v@, c) is None,
        },
{
    let mut i: usize = 0;
    assert(v@.skip(0) =~= v@);
    while i < v.len() && v.len() - i >= 2
        invariant
            i <= v@.len(),
            first_pair_index(v@, c) == match first_pair_index(v@.skip(i as int), c) {
                Some(j) => Some(j + i),
                None => None,
            },
        decreases v@.len() - i,
    {
        let ghost t = v@.skip(i as int);
        assert(t[0] == v@[i as int] && t[1] == v@[i + 1]);
        if v[i] == c && v[i + 1] == c {
            return Some(i);
        }
        assert(t.drop_first() =~= v@.skip(i + 1));
        i = i + 1;
    }
    None
}

/// The styled pieces of a line of prose.
pub fn inline_markdown_spans(source: &str) -> (r: Vec<(String, InlineStyle)>)
    ensures
        r@.len() == inline_spans_spec(source@).len(),
        forall|i: int|
            0 <= i < r@.len() ==> (#[trigger] r@[i]).0@ == inline_spans_spec(source@)[i].0 && r@[i].1
                == inline_spans_spec(source@)[i].1,
{
    let mut rem = str_chars(source);
    let mut spans: Vec<(String, InlineStyle)> = Vec::new();
    let ghost total = inline_spans_spec(source@);
    let ghost mut done: Seq<(Seq<char>, InlineStyle)> = Seq::empty();
    assert(rem@.skip(0) =~= rem@);
    while rem.len() > 0
        invariant
            done + inline_spans_spec(rem@) == total,
            spans@.len() == done.len(),
            forall|i: int|
                0 <= i < spans@.len() ==> (#[trigger] spans@[i]).0@ == done[i].0 && spans@[i].1
                    == done[i].1,
        decreases rem@.len(),
    {
        let ghost s = rem@;
        let n = rem.len();
        if n >= 2 && rem[0] == '*' && rem[1] == '*' {
            let rest = sub_chars(rem.as_slice(), 2, n);
            assert(rest@ =~= s.skip(2));
            match find_pair(rest.as_slice(), '*') {
                Some(e) => {
                    proof {
                        lemma_first_pair_index(rest@, '*');
                    }
                    let text = sub_chars(rest.as_slice(), 0, e);
                    spans.push((string_from_chars(text.as_slice()), InlineStyle::Bold));
                    let m = rest.len();
                    let next = sub_chars(rest.as_slice(), e + 2, m);
                    proof {
                        assert(text@ =~= rest@.take(e as int));
                        assert(next@ =~= rest@.skip(e + 2));
                        done = done.push((text@, InlineStyle::Bold));
                        assert(done + inline_spans_spec(next@) =~= total);
                    }
                    rem = next;
                    continue;
                },
                None => {},
            }
        }
        if rem[0] == '`' {
            let rest = sub_chars(rem.as_slice(), 1, n);
            assert(rest@ =~= s.skip(1));
            match find_char(rest.as_slice(), '`') {
                Some(e) => {
                    proof {
                        lemma_first_index_of(rest@, '`', e as int);
                    }
                    let text = sub_chars(rest.as_slice(), 0, e);
                    spans.push((string_from_chars(text.as_slice()), InlineStyle::Code));
                    let m = rest.len();
                    let next = sub_chars(rest.as_slice(), e + 1, m);
                    proof {
                        assert(text@ =~= rest@.take(e as int));
                        assert(next@ =~= rest@.skip(e + 1));
                        done = done.push((text@, InlineStyle::Code));
                        assert(done + inline_spans_spec(next@) =~= total);
                    }
                    rem = next;
                    continue;
                },
                None => {
                    proof {
                        lemma_first_index_of(rest@, '`', rest@.len() as int);
                    }
                },
            }
        }
        let bold = find_pair(rem.as_slice(), '*');
        let code = find_char(rem.as_slice(), '`');
        proof {
            match code {
                Some(k) => lemma_first_index_of(s, '`', k as int),
                None => lemma_first_index_of(s, '`', s.len() as int),
            }
            lemma_first_pair_index(s, '*');
        }
        let next_marker = match (bold, code) {
            (Some(b), Some(k)) => if b < k {
                b
            } else {
                k
            },
            (Some(b), None) => b,
            (None, Some(k)) => k,
            (None, None) => n,
        };
        let take = if next_marker < 1 {
            1
        } else {
            next_marker
        };
        assert(take as int == plain_run_length(s));
        let text = sub_chars(rem.as_slice(), 0, take);
        spans.push((string_from_chars(text.as_slice()), InlineStyle::Normal));
        let next = sub_chars(rem.as_slice(), take, n);
        proof {
            assert(text@ =~= s.take(take as int));
            assert(next@ =~= s.skip(take as int));
            done = done.push((text@, InlineStyle::Normal));
            assert(done + inline_spans_spec(next@) =~= total);
        }
        rem = next;
    }
    assert(done =~= total);
    spans
}

} // verus!
