//! Free text on one line: a line feed in the text is written as a backslash
//! and the letter `n`, a backslash as two of them.

use vstd::prelude::*;
use crate::lines::has_no_newline;
use crate::text::to_chars;

verus! {

/// How one character is written.
pub open spec fn escaped_char(c: char) -> Seq<char> {
    if c == '\\' {
        seq!['\\', '\\']
    } else if c == '\n' {
        seq!['\\', 'n']
    } else {
        seq![c]
    }
}

/// How `text` is written on one line.
pub open spec fn escaped(text: Seq<char>) -> Seq<char>
    decreases text.len(),
{
    if text.len() == 0 {
        Seq::empty()
    } else {
        escaped_char(text[0]) + escaped(text.drop_first())
    }
}

/// `rest` with `c` in front, where there is a `rest`.
pub open spec fn with_first(c: char, rest: Option<Seq<char>>) -> Option<Seq<char>> {
    match rest {
        Some(tail) => Some(seq![c] + tail),
        None => None,
    }
}

/// The text that `line` is the writing of. A backslash must be followed by
/// another or by the letter `n`.
pub open spec fn unescaped(line: Seq<char>) -> Option<Seq<char>>
    decreases line.len(),
{
    if line.len() == 0 {
        Some(Seq::empty())
    } else if line[0] != '\\' {
        with_first(line[0], unescaped(line.drop_first()))
    } else if line.len() >= 2 && line[1] == '\\' {
        with_first('\\', unescaped(line.skip(2)))
    } else if line.len() >= 2 && line[1] == 'n' {
        with_first('\n', unescaped(line.skip(2)))
    } else {
        None
    }
}

/// What is written holds no line feed, and reads back as the text it was
/// written from.
pub proof fn lemma_escaped(text: Seq<char>)
    ensures
        has_no_newline(escaped(text)),
        unescaped(escaped(text)) == Some(text),
    decreases text.len(),
{
    if text.len() > 0 {
        let tail = text.drop_first();
        lemma_escaped(tail);
        let line = escaped(text);
        let first = escaped_char(text[0]);
        assert forall|i: int| 0 <= i < line.len() implies line[i] != '\n' by {
            if i >= first.len() {
                assert(line[i] == escaped(tail)[i - first.len()]);
            }
        }
        if first.len() == 2 {
            assert(line.skip(2) =~= escaped(tail));
        } else {
            assert(line.drop_first() =~= escaped(tail));
        }
        assert(seq![text[0]] + tail =~= text);
    }
}

/// Appends to `out` how `text` is written on one line.
pub fn push_escaped(out: &mut Vec<char>, text: &str)
    ensures
        final(out)@ == old(out)@ + escaped(text@),
{
    let chars: Vec<char> = to_chars(text);
    let mut i: usize = 0;
    assert(chars@.skip(0) =~= chars@);
    while i < chars.len()
        invariant
            i <= chars.len(),
            chars@ == text@,
            out@ + escaped(chars@.skip(i as int)) == old(out)@ + escaped(text@),
        decreases chars.len() - i,
    {
        let c: char = chars[i];
        let ghost before = out@;
        if c == '\\' {
            out.push('\\');
            out.push('\\');
        } else if c == '\n' {
            out.push('\\');
            out.push('n');
        } else {
            out.push(c);
        }
        proof {
            assert(chars@.skip(i as int).drop_first() =~= chars@.skip(i + 1));
            assert(out@ =~= before + escaped_char(c));
            assert(out@ + escaped(chars@.skip(i + 1)) =~= before + escaped(chars@.skip(i as int)));
        }
        i += 1;
    }
    assert(out@ =~= old(out)@ + escaped(text@));
}

/// Reads the text that `line` holds, written as above, from place `from` on.
pub fn read_unescaped_from(line: &Vec<char>, from: usize) -> (r: Option<String>)
    requires
        from <= line.len(),
    ensures
        match r {
            Some(text) => unescaped(line@.skip(from as int)) == Some(text@),
            None => unescaped(line@.skip(from as int)) is None,
        },
{
    let mut text = String::new();
    let mut i: usize = from;
    let ghost whole = unescaped(line@.skip(from as int));
    while i < line.len()
        invariant
            from <= i <= line.len(),
            whole == unescaped(line@.skip(from as int)),
            whole == match unescaped(line@.skip(i as int)) {
                Some(rest) => Some(text@ + rest),
                None => None,
            },
        decreases line.len() - i,
    {
        let c: char = line[i];
        let ghost rest = line@.skip(i as int);
        let ghost before = text@;
        proof {
            assert(rest[0] == c);
            assert(rest.drop_first() =~= line@.skip(i + 1));
        }
        if c != '\\' {
            text.push(c);
            proof {
                if unescaped(line@.skip(i + 1)) is Some {
                    let tail = unescaped(line@.skip(i + 1))->0;
                    assert(text@ + tail =~= before + (seq![c] + tail));
                }
            }
            i += 1;
        } else if i + 1 < line.len() && (line[i + 1] == '\\' || line[i + 1] == 'n') {
            let plain: char = if line[i + 1] == 'n' {
                '\n'
            } else {
                '\\'
            };
            text.push(plain);
            proof {
                assert(rest[1] == line@[i + 1]);
                assert(rest.skip(2) =~= line@.skip(i + 2));
                if unescaped(line@.skip(i + 2)) is Some {
                    let tail = unescaped(line@.skip(i + 2))->0;
                    assert(text@ + tail =~= before + (seq![plain] + tail));
                }
            }
            i += 2;
        } else {
            proof {
                if i + 1 < line.len() {
                    assert(rest[1] == line@[i + 1]);
                }
            }
            return None;
        }
    }
    proof {
        assert(line@.skip(i as int) =~= Seq::<char>::empty());
        assert(text@ + Seq::<char>::empty() =~= text@);
    }
    Some(text)
}

} // verus!
