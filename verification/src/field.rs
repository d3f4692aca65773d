//! Lines of the form `key: value`.

use vstd::prelude::*;
use vstd::string::*;
use crate::lines::has_no_newline;

verus! {

/// What stands between a key and its value.
pub open spec fn separator() -> Seq<char> {
    seq![':', ' ']
}

/// The line that gives `value` under `key`.
#[verifier::opaque]
pub open spec fn field_line(key: Seq<char>, value: Seq<char>) -> Seq<char> {
    key + separator() + value
}

/// The value that `line` gives under `key`, if it is a line of that key.
#[verifier::opaque]
pub open spec fn field_value(key: Seq<char>, line: Seq<char>) -> Option<Seq<char>> {
    if line.len() >= key.len() + 2 && line.take(key.len() as int + 2) == key + separator() {
        Some(line.skip(key.len() as int + 2))
    } else {
        None
    }
}

/// A line gives back the value it was made with.
pub proof fn lemma_field_value(key: Seq<char>, value: Seq<char>)
    ensures
        field_value(key, field_line(key, value)) == Some(value),
{
    reveal(field_line);
    reveal(field_value);
    let line = field_line(key, value);
    assert(line.take(key.len() as int + 2) =~= key + separator());
    assert(line.skip(key.len() as int + 2) =~= value);
}

/// A line made of a key and a value without line feeds holds none.
pub proof fn lemma_field_line_no_newline(key: Seq<char>, value: Seq<char>)
    requires
        has_no_newline(key),
        has_no_newline(value),
    ensures
        has_no_newline(field_line(key, value)),
{
    reveal(field_line);
    let line = field_line(key, value);
    assert forall|i: int| 0 <= i < line.len() implies line[i] != '\n' by {
        if i < key.len() {
            assert(line[i] == key[i]);
        } else if i >= key.len() + 2 {
            assert(line[i] == value[i - key.len() - 2]);
        }
    }
}

/// Appends the characters of `word`.
pub fn push_str(out: &mut Vec<char>, word: &str)
    ensures
        final(out)@ == old(out)@ + word@,
{
    let n: usize = word.unicode_len();
    let mut i: usize = 0;
    while i < n
        invariant
            i <= n,
            n == word@.len(),
            out@ == old(out)@ + word@.take(i as int),
        decreases n - i,
    {
        out.push(word.get_char(i));
        i += 1;
        assert(out@ =~= old(out)@ + word@.take(i as int));
    }
    assert(word@.take(n as int) =~= word@);
}

/// A key, what stands between a key and its value, and the value make the
/// line of that key and value.
pub proof fn lemma_field_line_parts(key: Seq<char>, value: Seq<char>)
    ensures
        key + separator() + value == field_line(key, value),
{
    reveal(field_line);
}

/// Appends `key` and what stands between a key and its value.
pub fn push_key(out: &mut Vec<char>, key: &str)
    ensures
        final(out)@ == old(out)@ + key@ + separator(),
{
    push_str(out, key);
    out.push(':');
    out.push(' ');
    assert(out@ =~= old(out)@ + key@ + separator());
}

/// The place in `line` at which the value under `key` starts, if `line` is a
/// line of that key.
pub fn value_start(line: &Vec<char>, key: &str) -> (r: Option<usize>)
    ensures
        match r {
            Some(from) => from <= line.len() && field_value(key@, line@) == Some(
                line@.skip(from as int),
            ),
            None => field_value(key@, line@) is None,
        },
{
    proof {
        reveal(field_value);
    }
    let n: usize = key.unicode_len();
    if line.len() < 2 || line.len() - 2 < n {
        return None;
    }
    let ghost head = line@.take(n + 2);
    let ghost wanted = key@ + separator();
    let mut i: usize = 0;
    while i < n
        invariant
            i <= n,
            n == key@.len(),
            n + 2 <= line.len(),
            head == line@.take(n + 2),
            wanted == key@ + separator(),
            forall|k: int| 0 <= k < i ==> line@[k] == key@[k],
        decreases n - i,
    {
        if line[i] != key.get_char(i) {
            proof {
                reveal(field_value);
            }
            assert(head[i as int] != wanted[i as int]);
            return None;
        }
        i += 1;
    }
    if line[n] != ':' || line[n + 1] != ' ' {
        assert(head[n as int] != wanted[n as int] || head[n + 1] != wanted[n + 1]);
        return None;
    }
    assert(head =~= wanted);
    Some(n + 2)
}

} // verus!
