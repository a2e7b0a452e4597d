//! Cutting text at separators.

use vstd::prelude::*;

verus! {

/// Position of the first `sep` in `s`, or the length of `s` if there is none.
pub open spec fn first_index(s: Seq<char>, sep: char) -> int
    decreases s.len(),
{
    if s.len() == 0 || s[0] == sep {
        0
    } else {
        1 + first_index(s.drop_first(), sep)
    }
}

/// The part of `s` in front of its first `sep`; all of `s` if there is none.
pub open spec fn before(s: Seq<char>, sep: char) -> Seq<char> {
    s.take(first_index(s, sep))
}

/// The part of `s` behind its first `sep`; nothing if there is none.
pub open spec fn after(s: Seq<char>, sep: char) -> Seq<char> {
    if first_index(s, sep) < s.len() {
        s.skip(first_index(s, sep) + 1)
    } else {
        Seq::empty()
    }
}

/// `first_index` is the least position that holds `sep`.
pub proof fn lemma_first_index(s: Seq<char>, sep: char)
    ensures
        0 <= first_index(s, sep) <= s.len(),
        forall|i: int| 0 <= i < first_index(s, sep) ==> s[i] != sep,
        first_index(s, sep) < s.len() ==> s[first_index(s, sep)] == sep,
    decreases s.len(),
{
    if s.len() != 0 && s[0] != sep {
        let rest = s.drop_first();
        lemma_first_index(rest, sep);
        assert forall|i: int| 0 <= i < first_index(s, sep) implies s[i] != sep by {
            if i > 0 {
                assert(s[i] == rest[i - 1]);
            }
        }
    }
}

/// A position that holds `sep`, with none in front of it, is `first_index`.
pub proof fn lemma_first_index_unique(s: Seq<char>, sep: char, k: int)
    requires
        0 <= k <= s.len(),
        forall|i: int| 0 <= i < k ==> s[i] != sep,
        k < s.len() ==> s[k] == sep,
    ensures
        first_index(s, sep) == k,
{
    lemma_first_index(s, sep);
    let f = first_index(s, sep);
    if f < k {
        assert(s[f] == sep);
    }
}

/// A text that starts with `front`, a part without `sep`, and then `sep`, is cut
/// behind `front`.
pub proof fn lemma_cut(front: Seq<char>, sep: char, rest: Seq<char>)
    requires
        !front.contains(sep),
    ensures
        before(front + seq![sep] + rest, sep) == front,
        after(front + seq![sep] + rest, sep) == rest,
{
    let s = front + seq![sep] + rest;
    assert forall|i: int| 0 <= i < front.len() implies s[i] != sep by {
        assert(front.contains(front[i]));
    }
    lemma_first_index_unique(s, sep, front.len() as int);
    assert(s.take(front.len() as int) == front);
    assert(s.skip(front.len() as int + 1) == rest);
}

/// A text without `sep` is not cut.
pub proof fn lemma_uncut(s: Seq<char>, sep: char)
    requires
        !s.contains(sep),
    ensures
        before(s, sep) == s,
        after(s, sep) == Seq::<char>::empty(),
{
    assert forall|i: int| 0 <= i < s.len() implies s[i] != sep by {
        assert(s.contains(s[i]));
    }
    lemma_first_index_unique(s, sep, s.len() as int);
    assert(s.take(s.len() as int) == s);
}

/// A concatenation holds what its parts hold, and nothing else.
pub proof fn lemma_concat_contains(a: Seq<char>, b: Seq<char>, c: char)
    ensures
        (a + b).contains(c) <==> a.contains(c) || b.contains(c),
{
    if a.contains(c) {
        let i = choose|i: int| 0 <= i < a.len() && a[i] == c;
        assert((a + b)[i] == c);
    }
    if b.contains(c) {
        let i = choose|i: int| 0 <= i < b.len() && b[i] == c;
        assert((a + b)[a.len() + i] == c);
    }
    if (a + b).contains(c) {
        let i = choose|i: int| 0 <= i < (a + b).len() && (a + b)[i] == c;
        if i < a.len() {
            assert(a[i] == c);
        } else {
            assert(b[i - a.len()] == c);
        }
    }
}

/// What `str::from_utf8` of std documents: it accepts the byte strings that are
/// valid UTF-8, and hands back the text whose encoding they are.
pub assume_specification[ core::str::from_utf8 ](bytes: &[u8]) -> (r: Result<
    &str,
    core::str::Utf8Error,
>)
    ensures
        r is Ok <==> vstd::utf8::valid_utf8(bytes@),
        r matches Ok(s) ==> vstd::utf8::encode_utf8(s@) == bytes@,
;

/// The error of `str::from_utf8`; nothing is read from it.
#[verifier::external_type_specification]
#[verifier::external_body]
pub struct ExUtf8Error(core::str::Utf8Error);

/// What `String::push` of std documents: it appends one character.
pub assume_specification[ String::push ](s: &mut String, c: char)
    ensures
        final(s)@ == old(s)@.push(c),
;

/// The characters of a text.
pub fn to_chars(s: &str) -> (chars: Vec<char>)
    ensures
        chars@ == s@,
{
    let mut chars: Vec<char> = Vec::new();
    for c in it: s.chars()
        invariant
            chars@ == it.seq().take(it.index() as int),
    {
        chars.push(c);
    }
    chars
}

/// The text made of `chars`.
pub fn to_text(chars: &[char]) -> (s: String)
    ensures
        s@ == chars@,
{
    let mut s: String = String::new();
    let mut i: usize = 0;
    while i < chars.len()
        invariant
            i <= chars@.len(),
            s@ == chars@.take(i as int),
        decreases chars@.len() - i,
    {
        s.push(chars[i]);
        i += 1;
    }
    assert(chars@.take(i as int) == chars@);
    s
}

/// Finds the first `sep` at or behind `from`.
pub fn find(s: &[char], sep: char, from: usize) -> (end: usize)
    requires
        from <= s@.len(),
    ensures
        from <= end <= s@.len(),
        end - from == first_index(s@.skip(from as int), sep),
{
    let mut end: usize = from;
    while end < s.len() && s[end] != sep
        invariant
            from <= end <= s@.len(),
            forall|i: int| from <= i < end ==> s@[i] != sep,
        decreases s@.len() - end,
    {
        end += 1;
    }
    proof {
        lemma_first_index_unique(s@.skip(from as int), sep, end - from);
    }
    end
}

} // verus!
