//! Deciding when a reply is plain text with emoji rather than Markdown, and
//! cutting such text into emoji and non-emoji runs.

use vstd::prelude::*;

use crate::text::{
    is_ws, lines_seq, str_chars, str_lines, string_from_chars, trim_start_seq,
};

verus! {

/// The code points drawn with the emoji font.
pub open spec fn is_emoji_spec(c: char) -> bool {
    let u = c as u32;
    ||| u == 0x00A9
    ||| u == 0x00AE
    ||| u == 0x203C
    ||| u == 0x2049
    ||| u == 0x2122
    ||| u == 0x2139
    ||| 0x2194 <= u <= 0x21AA
    ||| 0x231A <= u <= 0x231B
    ||| u == 0x2328
    ||| u == 0x23CF
    ||| 0x23E9 <= u <= 0x23F3
    ||| 0x23F8 <= u <= 0x23FA
    ||| u == 0x24C2
    ||| 0x25AA <= u <= 0x25AB
    ||| u == 0x25B6
    ||| u == 0x25C0
    ||| 0x25FB <= u <= 0x25FE
    ||| 0x2600 <= u <= 0x27BF
    ||| 0x2934 <= u <= 0x2935
    ||| 0x2B05 <= u <= 0x2B55
    ||| u == 0x3030
    ||| u == 0x303D
    ||| u == 0x3297
    ||| u == 0x3299
    ||| 0x1F000 <= u <= 0x1FAFF
    ||| u == 0xFE0F
    ||| u == 0x200D
}

/// Whether the character is drawn with the emoji font.
pub fn is_emoji_character(character: char) -> (r: bool)
    ensures
        r == is_emoji_spec(character),
{
    let u = character as u32;
    u == 0x00A9 || u == 0x00AE || u == 0x203C || u == 0x2049 || u == 0x2122 || u == 0x2139 || (
    0x2194 <= u && u <= 0x21AA) || (0x231A <= u && u <= 0x231B) || u == 0x2328 || u == 0x23CF || (
    0x23E9 <= u && u <= 0x23F3) || (0x23F8 <= u && u <= 0x23FA) || u == 0x24C2 || (0x25AA <= u && u
        <= 0x25AB) || u == 0x25B6 || u == 0x25C0 || (0x25FB <= u && u <= 0x25FE) || (0x2600 <= u && u
        <= 0x27BF) || (0x2934 <= u && u <= 0x2935) || (0x2B05 <= u && u <= 0x2B55) || u == 0x3030
        || u == 0x303D || u == 0x3297 || u == 0x3299 || (0x1F000 <= u && u <= 0x1FAFF) || u == 0xFE0F
        || u == 0x200D
}

/// `c` occurs in `s`.
pub open spec fn has_char(s: Seq<char>, c: char) -> bool {
    exists|i: int| 0 <= i < s.len() && #[trigger] s[i] == c
}

/// `c` occurs twice in a row in `s`.
pub open spec fn has_pair(s: Seq<char>, c: char) -> bool {
    exists|i: int| 0 <= i < s.len() - 1 && #[trigger] s[i] == c && s[i + 1] == c
}

/// `c` occurs three times in a row in `s`.
pub open spec fn has_triple(s: Seq<char>, c: char) -> bool {
    exists|i: int| 0 <= i < s.len() - 2 && #[trigger] s[i] == c && s[i + 1] == c && s[i + 2] == c
}

/// A line that, once its leading white space is gone, starts a heading, a
/// list item, a quote or a table row.
pub open spec fn starts_block_syntax(line: Seq<char>) -> bool {
    let t = trim_start_seq(line);
    t.len() > 0 && (t[0] == '#' || t[0] == '-' || t[0] == '*' || t[0] == '>' || t[0] == '|')
}

/// Text that looks like Markdown: code fences or spans, bold or underscore
/// emphasis, links, or a line starting a block.
pub open spec fn has_markdown_syntax(s: Seq<char>) -> bool {
    ||| has_triple(s, '`')
    ||| has_char(s, '`')
    ||| has_pair(s, '*')
    ||| has_pair(s, '_')
    ||| has_char(s, '[')
    ||| exists|i: int| 0 <= i < lines_seq(s).len() && starts_block_syntax(#[trigger] lines_seq(s)[i])
}

fn has_run(v: &[char], c: char, n: usize) -> (r: bool)
    requires
        1 <= n <= 3,
    ensures
        n == 1 ==> r == has_char(v@, c),
        n == 2 ==> r == has_pair(v@, c),
        n == 3 ==> r == has_triple(v@, c),
{
    if v.len() < n {
        return false;
    }
    let mut i: usize = 0;
    while i < v.len() - n + 1
        invariant
            1 <= n <= 3,
            n <= v@.len(),
            i <= v@.len() - n + 1,
            forall|j: int|
                0 <= j < i ==> !(#[trigger] v@[j] == c && (n >= 2 ==> v@[j + 1] == c) && (n >= 3 ==> v@[j + 2]
                    == c)),
        decreases v@.len() - i,
    {
        if v[i] == c && (n < 2 || v[i + 1] == c) && (n < 3 || v[i + 2] == c) {
            return true;
        }
        i = i + 1;
    }
    false
}

fn line_starts_block(line: &[char]) -> (r: bool)
    ensures
        r == starts_block_syntax(line@),
{
    let mut lo: usize = 0;
    assert(line@.subrange(0, line@.len() as int) =~= line@);
    while lo < line.len() && crate::text::is_whitespace(line[lo])
        invariant
            lo <= line@.len(),
            forall|i: int| 0 <= i < lo ==> is_ws(#[trigger] line@[i]),
            trim_start_seq(line@) == trim_start_seq(line@.subrange(lo as int, line@.len() as int)),
        decreases line@.len() - lo,
    {
        assert(line@.subrange(lo as int, line@.len() as int).drop_first() =~= line@.subrange(
            lo + 1,
            line@.len() as int,
        ));
        lo = lo + 1;
    }
    let ghost rest = line@.subrange(lo as int, line@.len() as int);
    assert(trim_start_seq(rest) == rest);
    if lo == line.len() {
        return false;
    }
    let c = line[lo];
    c == '#' || c == '-' || c == '*' || c == '>' || c == '|'
}

/// Whether the text uses Markdown syntax.
pub fn contains_markdown_syntax(source: &str) -> (r: bool)
    ensures
        r == has_markdown_syntax(source@),
{
    let cs = str_chars(source);
    if has_run(cs.as_slice(), '`', 3) || has_run(cs.as_slice(), '`', 1) || has_run(
        cs.as_slice(),
        '*',
        2,
    ) || has_run(cs.as_slice(), '_', 2) || has_run(cs.as_slice(), '[', 1) {
        return true;
    }
    let lines = str_lines(source);
    let mut i: usize = 0;
    while i < lines.len()
        invariant
            i <= lines@.len(),
            lines@.len() == lines_seq(source@).len(),
            forall|k: int| 0 <= k < lines@.len() ==> (#[trigger] lines@[k])@ == lines_seq(source@)[k],
            forall|k: int| 0 <= k < i ==> !starts_block_syntax(#[trigger] lines_seq(source@)[k]),
        decreases lines@.len() - i,
    {
        if line_starts_block(lines[i].as_slice()) {
            return true;
        }
        i = i + 1;
    }
    false
}

/// Text with at least one emoji and no Markdown syntax is drawn as plain
/// text, so that the emoji font applies.
pub open spec fn plain_emoji_text_spec(s: Seq<char>) -> bool {
    (exists|i: int| 0 <= i < s.len() && is_emoji_spec(#[trigger] s[i])) && !has_markdown_syntax(s)
}

/// Whether the text is drawn as plain text with emoji.
pub fn should_render_as_plain_emoji_text(source: &str) -> (r: bool)
    ensures
        r == plain_emoji_text_spec(source@),
{
    let cs = str_chars(source);
    let mut i: usize = 0;
    while i < cs.len()
        invariant
            i <= cs@.len(),
            cs@ == source@,
            forall|k: int| 0 <= k < i ==> !is_emoji_spec(#[trigger] cs@[k]),
        decreases cs@.len() - i,
    {
        if is_emoji_character(cs[i]) {
            return !contains_markdown_syntax(source);
        }
        i = i + 1;
    }
    false
}

/// Emoji text never counts as Markdown.
pub proof fn plain_emoji_text_has_no_markdown(s: Seq<char>)
    ensures
        plain_emoji_text_spec(s) ==> !has_markdown_syntax(s),
{
}


/// A line that, after its leading white space, starts with `#`, `-`, `*`,
/// `>` or `|` (a heading, a list item, a quote or a table row) makes the
/// whole text Markdown, so such a reply is never drawn as plain emoji text.
pub proof fn block_line_makes_markdown(s: Seq<char>, k: int)
    requires
        0 <= k < lines_seq(s).len(),
        trim_start_seq(lines_seq(s)[k]).len() > 0,
        ({
            let c = trim_start_seq(lines_seq(s)[k])[0];
            c == '*' || c == '-' || c == '#' || c == '>' || c == '|'
        }),
    ensures
        has_markdown_syntax(s),
        !plain_emoji_text_spec(s),
{
    assert(starts_block_syntax(lines_seq(s)[k]));
}


/// The runs of `s` that are all emoji or all not, in order, each with
/// whether it is emoji.
pub open spec fn emoji_runs(s: Seq<char>) -> Seq<(Seq<char>, bool)>
    decreases s.len(),
{
    if s.len() == 0 {
        Seq::empty()
    } else {
        let r = emoji_runs(s.drop_last());
        let c = s.last();
        if r.len() > 0 && r.last().1 == is_emoji_spec(c) {
            r.update(r.len() - 1, (r.last().0.push(c), r.last().1))
        } else {
            r.push((seq![c], is_emoji_spec(c)))
        }
    }
}

proof fn lemma_emoji_runs(s: Seq<char>)
    ensures
        emoji_runs(s).len() == 0 <==> s.len() == 0,
        forall|k: int| 0 <= k < emoji_runs(s).len() ==> (#[trigger] emoji_runs(s)[k]).0.len() > 0,
    decreases s.len(),
{
    if s.len() > 0 {
        lemma_emoji_runs(s.drop_last());
    }
}

/// The text of a plain emoji reply cut into emoji and non-emoji runs, so
/// that the emoji runs are drawn with the emoji font.
pub fn emoji_spans(source: &str) -> (r: Vec<(String, bool)>)
    ensures
        r@.len() == emoji_runs(source@).len(),
        forall|i: int|
            0 <= i < r@.len() ==> (#[trigger] r@[i]).0@ == emoji_runs(source@)[i].0 && r@[i].1
                == emoji_runs(source@)[i].1,
{
    let cs = str_chars(source);
    let mut done: Vec<(String, bool)> = Vec::new();
    let mut current: Vec<char> = Vec::new();
    let mut current_is_emoji: Option<bool> = None;
    let mut i: usize = 0;
    assert(cs@.take(0) =~= Seq::<char>::empty());
    while i < cs.len()
        invariant
            i <= cs@.len(),
            cs@ == source@,
            ({
                let runs = emoji_runs(cs@.take(i as int));
                &&& current_is_emoji is None <==> runs.len() == 0
                &&& runs.len() > 0 ==> done@.len() == runs.len() - 1 && current@ == runs.last().0
                    && current_is_emoji == Some(runs.last().1)
                &&& forall|k: int|
                    0 <= k < done@.len() ==> (#[trigger] done@[k]).0@ == runs[k].0 && done@[k].1
                        == runs[k].1
            }),
            current_is_emoji is None ==> done@.len() == 0 && current@.len() == 0,
        decreases cs@.len() - i,
    {
        let ghost pre = cs@.take(i as int);
        let ghost next = cs@.take(i + 1);
        assert(next.drop_last() =~= pre);
        let c = cs[i];
        let is_emoji = is_emoji_character(c);
        let ghost old_current = current@;
        let ghost old_done = done@;
        let ghost old_flag = current_is_emoji;
        assert(next.last() == c);
        proof {
            lemma_emoji_runs(pre);
        }
        match current_is_emoji {
            Some(v) => {
                if v != is_emoji {
                    let text = string_from_chars(current.as_slice());
                    done.push((text, v));
                    current = Vec::new();
                }
            },
            None => {},
        }
        current_is_emoji = Some(is_emoji);
        current.push(c);
        i = i + 1;
        proof {
            let runs = emoji_runs(next);
            let rp = emoji_runs(pre);
            match old_flag {
                Some(v) => {
                    if v == is_emoji {
                        assert(runs == rp.update(rp.len() - 1, (rp.last().0.push(c), rp.last().1)));
                        assert(current@ =~= runs.last().0);
                    } else {
                        assert(runs == rp.push((seq![c], is_emoji)));
                        assert(current@ =~= runs.last().0);
                        assert forall|k: int| 0 <= k < done@.len() implies (#[trigger] done@[k]).0@
                            == runs[k].0 && done@[k].1 == runs[k].1 by {
                            if k < old_done.len() {
                                assert(done@[k] == old_done[k]);
                            }
                        }
                    }
                },
                None => {
                    assert(pre.len() == 0);
                    assert(runs == seq![(seq![c], is_emoji)]);
                    assert(current@ =~= runs.last().0);
                },
            }
        }
    }
    assert(cs@.take(cs@.len() as int) =~= cs@);
    proof {
        lemma_emoji_runs(cs@);
        let runs = emoji_runs(cs@);
        if runs.len() > 0 {
            assert(runs[runs.len() - 1].0.len() > 0);
        }
    }
    let ghost before = done@;
    if current.len() > 0 {
        let v = match current_is_emoji {
            Some(v) => v,
            None => false,
        };
        done.push((string_from_chars(current.as_slice()), v));
        proof {
            let runs = emoji_runs(cs@);
            assert forall|k: int| 0 <= k < done@.len() implies (#[trigger] done@[k]).0@ == runs[k].0
                && done@[k].1 == runs[k].1 by {
                if k < before.len() {
                    assert(done@[k] == before[k]);
                }
            }
        }
    }
    done
}

} // verus!
