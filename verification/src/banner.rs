//! The text that the device sends after a reset, and the banner in it.

use vstd::prelude::*;

verus! {

/// The character that stands for a byte of the device's output: the byte
/// itself where it is ASCII, the replacement character where it is not.
pub open spec fn lossy_char(byte: u8) -> char {
    if byte < 0x80 {
        byte as char
    } else {
        '\u{fffd}'
    }
}

/// The device's output as text, byte by byte.
pub open spec fn lossy(raw: Seq<u8>) -> Seq<char> {
    Seq::new(raw.len(), |k: int| lossy_char(raw[k]))
}

/// Whether `text` ends in a carriage return and a line feed.
pub open spec fn ends_line(text: Seq<char>) -> bool {
    text.len() >= 2 && text[text.len() - 2] == '\r' && text[text.len() - 1] == '\n'
}

/// The pieces of `text` between its line ends, each a carriage return and a
/// line feed. There is one piece more than there are line ends; a piece may
/// be empty.
pub open spec fn lines_of(text: Seq<char>) -> Seq<Seq<char>>
    decreases text.len(),
{
    if text.len() == 0 {
        seq![Seq::empty()]
    } else if ends_line(text) {
        lines_of(text.subrange(0, text.len() - 2)).push(Seq::empty())
    } else {
        let before = lines_of(text.drop_last());
        before.drop_last().push(before.last().push(text.last()))
    }
}

/// The line with which the device answers the reset: `RESET`.
pub open spec fn reset_line() -> Seq<char> {
    seq!['R', 'E', 'S', 'E', 'T']
}

/// Whether the line begins with the terminal's prompt, `HiZ>`.
pub open spec fn is_prompt(line: Seq<char>) -> bool {
    line.len() >= 4 && line[0] == 'H' && line[1] == 'i' && line[2] == 'Z' && line[3] == '>'
}

/// The lines behind the first `RESET` line; none where there is no such
/// line.
pub open spec fn after_reset(lines: Seq<Seq<char>>) -> Seq<Seq<char>>
    decreases lines.len(),
{
    if lines.len() == 0 {
        Seq::empty()
    } else if lines[0] == reset_line() {
        lines.drop_first()
    } else {
        after_reset(lines.drop_first())
    }
}

/// The lines that do not begin with the prompt, in their order.
pub open spec fn without_prompts(lines: Seq<Seq<char>>) -> Seq<Seq<char>>
    decreases lines.len(),
{
    if lines.len() == 0 {
        Seq::empty()
    } else if is_prompt(lines.last()) {
        without_prompts(lines.drop_last())
    } else {
        without_prompts(lines.drop_last()).push(lines.last())
    }
}

/// The lines as one text, with a line feed between each two.
pub open spec fn joined(lines: Seq<Seq<char>>) -> Seq<char>
    decreases lines.len(),
{
    if lines.len() == 0 {
        Seq::empty()
    } else if lines.len() == 1 {
        lines[0]
    } else {
        joined(lines.drop_last()) + seq!['\n'] + lines.last()
    }
}

/// What the device said of itself after a reset, out of everything it sent:
/// the lines behind the `RESET` line, without the prompts, joined by line
/// feeds.
pub open spec fn banner_text(raw: Seq<u8>) -> Seq<char> {
    joined(without_prompts(after_reset(lines_of(lossy(raw)))))
}

/// The views of the lines.
pub open spec fn line_views(lines: Seq<Vec<char>>) -> Seq<Seq<char>> {
    lines.map_values(|line: Vec<char>| line@)
}

/// The device's output as text, byte by byte.
fn lossy_chars(raw: &Vec<u8>) -> (text: Vec<char>)
    ensures
        text@ == lossy(raw@),
{
    let mut text: Vec<char> = Vec::new();
    let mut i: usize = 0;
    while i < raw.len()
        invariant
            i <= raw.len(),
            text.len() == i,
            forall|k: int| 0 <= k < i ==> text@[k] == lossy_char(raw@[k]),
        decreases raw.len() - i,
    {
        let byte = raw[i];
        if byte < 0x80 {
            text.push(byte as char);
        } else {
            text.push('\u{fffd}');
        }
        i += 1;
    }
    assert(text@ =~= lossy(raw@));
    text
}

proof fn lemma_lines_of_nonempty(text: Seq<char>)
    ensures
        lines_of(text).len() >= 1,
    decreases text.len(),
{
    if text.len() == 0 {
    } else if ends_line(text) {
        lemma_lines_of_nonempty(text.subrange(0, text.len() - 2));
    } else {
        lemma_lines_of_nonempty(text.drop_last());
    }
}

/// The pieces of `text` between its line ends.
fn split_lines(text: &Vec<char>) -> (lines: Vec<Vec<char>>)
    ensures
        line_views(lines@) == lines_of(text@),
{
    let mut lines: Vec<Vec<char>> = Vec::new();
    let mut current: Vec<char> = Vec::new();
    let mut i: usize = 0;
    assert(line_views(lines@).push(current@) =~= lines_of(text@.subrange(0, 0)));
    while i < text.len()
        invariant
            i <= text.len(),
            line_views(lines@).push(current@) == lines_of(text@.subrange(0, i as int)),
            i > 0 && text@[i - 1] == '\r' ==> current@.len() > 0 && current@.last() == '\r',
        decreases text.len() - i,
    {
        let c = text[i];
        let ghost upto = text@.subrange(0, i as int);
        let ghost next = text@.subrange(0, i + 1);
        assert(next.drop_last() =~= upto);
        assert(next.last() == c);
        if c == '\n' && i > 0 && text[i - 1] == '\r' {
            proof {
                let short = text@.subrange(0, i - 1);
                assert(next.subrange(0, next.len() - 2) =~= short);
                assert(ends_line(next));
                assert(upto.drop_last() =~= short);
                assert(upto.last() == '\r');
                assert(!ends_line(upto));
                lemma_lines_of_nonempty(short);
                let before = lines_of(short);
                assert(lines_of(upto) == before.drop_last().push(before.last().push('\r')));
                assert(line_views(lines@) =~= line_views(lines@).push(current@).drop_last());
                assert(before.drop_last() =~= lines_of(upto).drop_last());
                assert(lines_of(upto).last() == current@);
                assert(before.last() =~= current@.drop_last());
                assert(before =~= line_views(lines@).push(current@.drop_last()));
            }
            current.pop();
            let ghost done = lines@;
            lines.push(current);
            current = Vec::new();
            assert(line_views(lines@) =~= line_views(done).push(lines@.last()@));
        } else {
            proof {
                assert(!ends_line(next));
                let before = lines_of(upto);
                assert(before.drop_last() =~= line_views(lines@));
                assert(before.last() == current@);
            }
            current.push(c);
        }
        i += 1;
    }
    assert(text@.subrange(0, i as int) =~= text@);
    let ghost done = lines@;
    lines.push(current);
    assert(line_views(lines@) =~= line_views(done).push(lines@.last()@));
    lines
}

/// Whether the line is `RESET`.
fn is_reset_line(line: &Vec<char>) -> (yes: bool)
    ensures
        yes == (line@ == reset_line()),
{
    let yes = line.len() == 5 && line[0] == 'R' && line[1] == 'E' && line[2] == 'S' && line[3]
        == 'E' && line[4] == 'T';
    if yes {
        assert(line@ =~= reset_line());
    }
    yes
}

/// Whether the line begins with the prompt.
fn is_prompt_line(line: &Vec<char>) -> (yes: bool)
    ensures
        yes == is_prompt(line@),
{
    line.len() >= 4 && line[0] == 'H' && line[1] == 'i' && line[2] == 'Z' && line[3] == '>'
}

/// The position behind the first `RESET` line, or the number of lines where
/// there is none.
fn skip_reset(lines: &Vec<Vec<char>>) -> (start: usize)
    ensures
        start <= lines.len(),
        after_reset(line_views(lines@)) == line_views(lines@).subrange(
            start as int,
            lines.len() as int,
        ),
{
    let ghost all = line_views(lines@);
    let mut i: usize = 0;
    assert(all.subrange(0, all.len() as int) =~= all);
    while i < lines.len()
        invariant
            i <= lines.len(),
            all == line_views(lines@),
            after_reset(all) == after_reset(all.subrange(i as int, all.len() as int)),
        decreases lines.len() - i,
    {
        let ghost rest = all.subrange(i as int, all.len() as int);
        assert(rest[0] == lines@[i as int]@);
        assert(rest.drop_first() =~= all.subrange(i + 1, all.len() as int));
        if is_reset_line(&lines[i]) {
            return i + 1;
        }
        i += 1;
    }
    assert(all.subrange(i as int, all.len() as int) =~= Seq::<Seq<char>>::empty());
    i
}

/// The lines from `start` on that do not begin with the prompt, as one
/// text.
fn join_from(lines: &Vec<Vec<char>>, start: usize) -> (text: Vec<char>)
    requires
        start <= lines.len(),
    ensures
        text@ == joined(
            without_prompts(line_views(lines@).subrange(start as int, lines.len() as int)),
        ),
{
    let ghost all = line_views(lines@);
    let mut text: Vec<char> = Vec::new();
    let mut any = false;
    let mut i: usize = start;
    assert(all.subrange(start as int, start as int) =~= Seq::<Seq<char>>::empty());
    while i < lines.len()
        invariant
            start <= i <= lines.len(),
            all == line_views(lines@),
            text@ == joined(without_prompts(all.subrange(start as int, i as int))),
            any == (without_prompts(all.subrange(start as int, i as int)).len() > 0),
        decreases lines.len() - i,
    {
        let line = &lines[i];
        let ghost seen = all.subrange(start as int, i as int);
        let ghost more = all.subrange(start as int, i + 1);
        assert(more.drop_last() =~= seen);
        assert(more.last() == line@);
        if !is_prompt_line(line) {
            let ghost kept = without_prompts(seen);
            assert(without_prompts(more) == kept.push(line@));
            assert(kept.push(line@).drop_last() =~= kept);
            if any {
                text.push('\n');
            }
            let ghost head = text@;
            let mut k: usize = 0;
            while k < line.len()
                invariant
                    k <= line.len(),
                    text@ == head + line@.subrange(0, k as int),
                decreases line.len() - k,
            {
                text.push(line[k]);
                assert(line@.subrange(0, k + 1) =~= line@.subrange(0, k as int).push(
                    line@[k as int],
                ));
                k += 1;
            }
            assert(line@.subrange(0, k as int) =~= line@);
            assert(text@ =~= joined(kept.push(line@))) by {
                if kept.len() > 0 {
                    assert(head =~= joined(kept) + seq!['\n']);
                } else {
                    assert(head =~= Seq::<char>::empty());
                }
            }
            any = true;
        }
        i += 1;
    }
    text
}

/// What the device said of itself after a reset, out of everything it sent
/// in reply to the escape sequence.
pub fn clean_banner(raw: &Vec<u8>) -> (text: Vec<char>)
    ensures
        text@ == banner_text(raw@),
{
    let chars = lossy_chars(raw);
    let lines = split_lines(&chars);
    let start = skip_reset(&lines);
    join_from(&lines, start)
}

} // verus!
