//! Whitespace tokenization.
use vstd::prelude::*;

verus! {

/// Unicode `White_Space`, the set of characters for which `char::is_whitespace` holds.
pub open spec fn is_space(c: char) -> bool {
    let n = c as u32;
    (0x9 <= n && n <= 0xD) || n == 0x20 || n == 0x85 || n == 0xA0 || n == 0x1680 || (0x2000 <= n
        && n <= 0x200A) || n == 0x2028 || n == 0x2029 || n == 0x202F || n == 0x205F || n == 0x3000
}

/// Left-to-right scan of `s`: the tokens completed so far, and the token in progress.
pub open spec fn scan(s: Seq<char>) -> (Seq<Seq<char>>, Seq<char>)
    decreases s.len(),
{
    if s.len() == 0 {
        (Seq::empty(), Seq::empty())
    } else {
        let prev = scan(s.drop_last());
        let c = s.last();
        if !is_space(c) {
            (prev.0, prev.1.push(c))
        } else if prev.1.len() > 0 {
            (prev.0.push(prev.1), Seq::empty())
        } else {
            prev
        }
    }
}

/// The maximal runs of non-whitespace characters of `s`, in order.
pub open spec fn tokens_of(s: Seq<char>) -> Seq<Seq<char>> {
    let st = scan(s);
    if st.1.len() > 0 {
        st.0.push(st.1)
    } else {
        st.0
    }
}

pub open spec fn string_views(v: Seq<String>) -> Seq<Seq<char>> {
    v.map_values(|t: String| t@)
}

/// Whether `c` is a whitespace character, as `char::is_whitespace` decides it.
pub fn is_space_char(c: char) -> (r: bool)
    ensures
        r == is_space(c),
{
    let n = c as u32;
    (0x9 <= n && n <= 0xD) || n == 0x20 || n == 0x85 || n == 0xA0 || n == 0x1680 || (0x2000 <= n
        && n <= 0x200A) || n == 0x2028 || n == 0x2029 || n == 0x202F || n == 0x205F || n == 0x3000
}

/// Relies on `String::push`: appends the character to the end of the string.
#[verifier::external_body]
pub(crate) fn push_char(s: &mut String, c: char)
    ensures
        final(s)@ == old(s)@.push(c),
{
    s.push(c)
}

/// Splits `message` into its whitespace-separated tokens, in order.
pub fn tokenize(message: &str) -> (r: Vec<String>)
    ensures
        string_views(r@) == tokens_of(message@),
{
    let mut done: Vec<String> = Vec::new();
    let mut cur = String::new();
    for c in it: message.chars()
        invariant
            it.seq() == message@,
            string_views(done@) == scan(message@.take(it.index() as int)).0,
            cur@ == scan(message@.take(it.index() as int)).1,
    {
        let ghost pre = message@.take(it.index() as int);
        assert(message@.take(it.index() + 1).drop_last() == pre);
        if !is_space_char(c) {
            push_char(&mut cur, c);
        } else if !cur.as_str().is_empty() {
            done.push(cur);
            cur = String::new();
        }
    }
    assert(message@.take(message@.len() as int) == message@);
    if !cur.as_str().is_empty() {
        done.push(cur);
    }
    done
}

} // verus!
