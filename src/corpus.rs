//! Labelled lines of a training corpus.
use vstd::prelude::*;
use crate::tokens::{is_space, is_space_char, push_char};

verus! {

/// `s` without its trailing repetitions of the label suffix `"01"`.
pub open spec fn strip_label(s: Seq<char>) -> Seq<char>
    decreases s.len(),
{
    if s.len() >= 2 && s[s.len() - 2] == '0' && s[s.len() - 1] == '1' {
        strip_label(s.take(s.len() - 2))
    } else {
        s
    }
}

/// `s` without its trailing whitespace.
pub open spec fn trim_end(s: Seq<char>) -> Seq<char>
    decreases s.len(),
{
    if s.len() > 0 && is_space(s.last()) {
        trim_end(s.drop_last())
    } else {
        s
    }
}

/// `s` without its leading whitespace.
pub open spec fn trim_start(s: Seq<char>) -> Seq<char>
    decreases s.len(),
{
    if s.len() > 0 && is_space(s[0]) {
        trim_start(s.drop_first())
    } else {
        s
    }
}

/// A corpus line is spam where its last character is `1`.
pub open spec fn line_is_spam(line: Seq<char>) -> bool {
    line.len() > 0 && line.last() == '1'
}

/// The message of a corpus line: the line without its label suffixes, trimmed.
pub open spec fn line_message(line: Seq<char>) -> Seq<char> {
    trim_start(trim_end(strip_label(line)))
}

/// The characters of `s`, in order.
fn chars_of(s: &str) -> (r: Vec<char>)
    ensures
        r@ == s@,
{
    let mut v: Vec<char> = Vec::new();
    for c in it: s.chars()
        invariant
            it.seq() == s@,
            v@ == s@.take(it.index() as int),
    {
        v.push(c);
        assert(v@ == s@.take(it.index() + 1));
    }
    assert(s@.take(s@.len() as int) == s@);
    v
}

/// Splits a corpus line into its message and its label.
pub fn parse_training_line(line: &str) -> (r: (String, bool))
    ensures
        r.0@ == line_message(line@),
        r.1 == line_is_spam(line@),
{
    let cs = chars_of(line);
    let n = cs.len();
    let is_spam = n > 0 && cs[n - 1] == '1';
    let mut end: usize = n;
    assert(cs@.take(n as int) == line@);
    while end >= 2 && cs[end - 2] == '0' && cs[end - 1] == '1'
        invariant
            end <= n == cs@.len(),
            strip_label(cs@.take(end as int)) == strip_label(line@),
        decreases end,
    {
        assert(cs@.take(end as int).take(end - 2) == cs@.take(end - 2));
        end = end - 2;
    }
    assert(cs@.take(n as int) == line@);
    assert(strip_label(cs@.take(end as int)) == cs@.take(end as int));
    while end > 0 && is_space_char(cs[end - 1])
        invariant
            end <= n == cs@.len(),
            trim_end(cs@.take(end as int)) == trim_end(strip_label(line@)),
        decreases end,
    {
        assert(cs@.take(end as int).drop_last() == cs@.take(end - 1));
        end = end - 1;
    }
    assert(trim_end(cs@.take(end as int)) == cs@.take(end as int));
    let mut start: usize = 0;
    while start < end && is_space_char(cs[start])
        invariant
            start <= end <= n == cs@.len(),
            trim_start(cs@.subrange(start as int, end as int)) == line_message(line@),
        decreases end - start,
    {
        assert(cs@.subrange(start as int, end as int).drop_first() == cs@.subrange(start + 1, end as int));
        start = start + 1;
    }
    assert(trim_start(cs@.subrange(start as int, end as int)) == cs@.subrange(start as int, end as int));
    let mut message = String::new();
    let mut i: usize = start;
    while i < end
        invariant
            start <= i <= end <= n == cs@.len(),
            message@ == cs@.subrange(start as int, i as int),
        decreases end - i,
    {
        push_char(&mut message, cs[i]);
        assert(message@ == cs@.subrange(start as int, i + 1));
        i = i + 1;
    }
    (message, is_spam)
}

} // verus!
