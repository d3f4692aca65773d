//! Text as a list of lines: each line is followed by a line feed; the last
//! one may go without.

use vstd::prelude::*;

verus! {

/// The line feed is the one character that no line holds.
pub open spec fn has_no_newline(line: Seq<char>) -> bool {
    forall|i: int| 0 <= i < line.len() ==> line[i] != '\n'
}

/// Each of `lines` is free of line feeds.
pub open spec fn are_lines(lines: Seq<Seq<char>>) -> bool {
    forall|i: int| 0 <= i < lines.len() ==> has_no_newline(#[trigger] lines[i])
}

/// The text that holds `lines`, each followed by a line feed.
pub open spec fn join_lines(lines: Seq<Seq<char>>) -> Seq<char>
    decreases lines.len(),
{
    if lines.len() == 0 {
        Seq::empty()
    } else {
        lines[0] + seq!['\n'] + join_lines(lines.drop_first())
    }
}

/// The lines of `text`: the stretches between its line feeds, without the
/// empty stretch after a line feed that ends the text. Empty text has no
/// lines.
pub open spec fn split_lines(text: Seq<char>) -> Seq<Seq<char>>
    decreases text.len(),
{
    if text.len() == 0 {
        Seq::empty()
    } else if text[0] == '\n' {
        seq![Seq::empty()] + split_lines(text.drop_first())
    } else {
        let rest = split_lines(text.drop_first());
        if rest.len() == 0 {
            seq![seq![text[0]]]
        } else {
            seq![seq![text[0]] + rest[0]] + rest.drop_first()
        }
    }
}

/// Text that starts with a line and its line feed splits into that line and
/// the lines of what follows.
pub proof fn lemma_split_first_line(line: Seq<char>, rest: Seq<char>)
    requires
        has_no_newline(line),
    ensures
        split_lines(line + seq!['\n'] + rest) == seq![line] + split_lines(rest),
    decreases line.len(),
{
    let text = line + seq!['\n'] + rest;
    if line.len() == 0 {
        assert(text.drop_first() =~= rest);
        assert(line =~= Seq::<char>::empty());
    } else {
        let tail = line.drop_first();
        assert(text.drop_first() =~= tail + seq!['\n'] + rest);
        lemma_split_first_line(tail, rest);
        let after = seq![tail] + split_lines(rest);
        assert(after[0] == tail);
        assert(after.drop_first() =~= split_lines(rest));
        assert(seq![text[0]] + tail =~= line);
    }
}

/// Text without a line feed, unless empty, is one line.
pub proof fn lemma_split_last_line(line: Seq<char>)
    requires
        has_no_newline(line),
        line.len() > 0,
    ensures
        split_lines(line) == seq![line],
    decreases line.len(),
{
    let tail = line.drop_first();
    assert(line[0] != '\n');
    if tail.len() > 0 {
        assert forall|i: int| 0 <= i < tail.len() implies tail[i] != '\n' by {
            assert(tail[i] == line[i + 1]);
        }
        lemma_split_last_line(tail);
        assert(seq![tail].drop_first() =~= Seq::<Seq<char>>::empty());
        assert(seq![line[0]] + tail =~= line);
        assert(split_lines(line) =~= seq![line]);
    } else {
        assert(split_lines(tail) =~= Seq::<Seq<char>>::empty());
        assert(seq![line[0]] =~= line);
        assert(split_lines(line) =~= seq![line]);
    }
}

/// Splitting gives back the lines that were joined.
pub proof fn lemma_split_join(lines: Seq<Seq<char>>)
    requires
        are_lines(lines),
    ensures
        split_lines(join_lines(lines)) == lines,
    decreases lines.len(),
{
    if lines.len() > 0 {
        let rest = lines.drop_first();
        assert(are_lines(rest)) by {
            assert forall|i: int| 0 <= i < rest.len() implies has_no_newline(#[trigger] rest[i]) by {
                assert(rest[i] == lines[i + 1]);
            }
        }
        lemma_split_join(rest);
        lemma_split_first_line(lines[0], join_lines(rest));
        assert(seq![lines[0]] + rest =~= lines);
    }
}

/// What `split_lines` gives are lines.
pub proof fn lemma_split_gives_lines(text: Seq<char>)
    ensures
        are_lines(split_lines(text)),
    decreases text.len(),
{
    if text.len() > 0 {
        lemma_split_gives_lines(text.drop_first());
    }
}

/// Joining one more line puts it, with its line feed, at the end.
pub proof fn lemma_join_push(lines: Seq<Seq<char>>, last: Seq<char>)
    ensures
        join_lines(lines.push(last)) == join_lines(lines) + last + seq!['\n'],
    decreases lines.len(),
{
    if lines.len() == 0 {
        assert(lines.push(last).drop_first() =~= Seq::<Seq<char>>::empty());
        assert(join_lines(Seq::<Seq<char>>::empty()) =~= Seq::<char>::empty());
        assert(join_lines(lines.push(last)) =~= last + seq!['\n']);
    } else {
        assert(lines.push(last).drop_first() =~= lines.drop_first().push(last));
        lemma_join_push(lines.drop_first(), last);
        assert(join_lines(lines.push(last)) =~= join_lines(lines) + last + seq!['\n']);
    }
}

/// The lines held in `lines`, as plain values.
pub open spec fn line_views(lines: Seq<Vec<char>>) -> Seq<Seq<char>> {
    lines.map_values(|line: Vec<char>| line@)
}

/// The text that holds `lines`, each followed by a line feed.
pub fn join(lines: &Vec<Vec<char>>) -> (text: Vec<char>)
    ensures
        text@ == join_lines(line_views(lines@)),
{
    let mut text: Vec<char> = Vec::new();
    let mut i: usize = 0;
    while i < lines.len()
        invariant
            i <= lines.len(),
            text@ == join_lines(line_views(lines@).take(i as int)),
        decreases lines.len() - i,
    {
        let line: &Vec<char> = &lines[i];
        let ghost before = text@;
        let mut j: usize = 0;
        while j < line.len()
            invariant
                j <= line.len(),
                text@ == before + line@.take(j as int),
            decreases line.len() - j,
        {
            text.push(line[j]);
            j += 1;
            assert(text@ =~= before + line@.take(j as int));
        }
        text.push('\n');
        proof {
            let done = line_views(lines@).take(i as int);
            assert(line_views(lines@).take(i + 1) =~= done.push(line@));
            lemma_join_push(done, line@);
            assert(line@.take(line.len() as int) =~= line@);
        }
        i += 1;
    }
    proof {
        assert(line_views(lines@).take(lines.len() as int) =~= line_views(lines@));
    }
    text
}

/// The lines of `text`.
pub fn split(text: &Vec<char>) -> (lines: Vec<Vec<char>>)
    ensures
        line_views(lines@) == split_lines(text@),
{
    let mut lines: Vec<Vec<char>> = Vec::new();
    let mut start: usize = 0;
    assert(text@.skip(0) =~= text@);
    while start < text.len()
        invariant
            start <= text.len(),
            line_views(lines@) + split_lines(text@.skip(start as int)) == split_lines(text@),
        decreases text.len() - start,
    {
        let mut line: Vec<char> = Vec::new();
        let mut end: usize = start;
        while end < text.len() && text[end] != '\n'
            invariant
                start <= end <= text.len(),
                line@ == text@.subrange(start as int, end as int),
                has_no_newline(line@),
            decreases text.len() - end,
        {
            line.push(text[end]);
            end += 1;
            assert(line@ =~= text@.subrange(start as int, end as int));
        }
        let ghost found = line@;
        let ghost before = line_views(lines@);
        lines.push(line);
        assert(line_views(lines@) =~= before.push(found));
        if end < text.len() {
            proof {
                let rest = text@.skip(end + 1);
                assert(text@.skip(start as int) =~= found + seq!['\n'] + rest);
                lemma_split_first_line(found, rest);
            }
            start = end + 1;
        } else {
            proof {
                assert(text@.skip(start as int) =~= found);
                lemma_split_last_line(found);
                assert(text@.skip(end as int) =~= Seq::<char>::empty());
            }
            start = end;
        }
    }
    proof {
        assert(text@.skip(start as int) =~= Seq::<char>::empty());
    }
    lines
}

} // verus!
