//! Character-level helpers shared by the converters.
use vstd::prelude::*;

verus! {

/// Relies on `String::push`: the character is appended at the end.
#[verifier::external_body]
pub(crate) fn push_char(s: &mut String, c: char)
    ensures
        final(s)@ == old(s)@.push(c),
{
    s.push(c)
}

/// The characters of `s`, in order.
pub fn chars_of(s: &str) -> (r: Vec<char>)
    ensures
        r@ == s@,
{
    let mut r: Vec<char> = Vec::new();
    for c in it: s.chars()
        invariant
            r@ == it.seq().take(it.index() as int),
            it.seq() == s@,
    {
        r.push(c);
    }
    r
}

/// The string made of the characters of `v`, in order.
pub fn string_of(v: &Vec<char>) -> (r: String)
    ensures
        r@ == v@,
{
    let mut r = String::new();
    for i in 0..v.len()
        invariant
            r@ == v@.take(i as int),
    {
        push_char(&mut r, v[i]);
        assert(v@.take(i + 1) == v@.take(i as int).push(v@[i as int]));
    }
    assert(v@.take(v.len() as int) == v@);
    r
}

/// The characters of `v` from index `from` up to, not including, `to`.
pub fn slice_chars(v: &Vec<char>, from: usize, to: usize) -> (r: Vec<char>)
    requires
        from <= to <= v.len(),
    ensures
        r@ == v@.subrange(from as int, to as int),
{
    let mut r: Vec<char> = Vec::new();
    let mut i: usize = from;
    while i < to
        invariant
            from <= i <= to <= v.len(),
            r@ == v@.subrange(from as int, i as int),
        decreases to - i,
    {
        r.push(v[i]);
        i = i + 1;
    }
    r
}

/// `c` is `lower`, or the upper-case ASCII letter whose lower case is `lower`.
pub open spec fn same_letter_ignoring_case(c: char, lower: char) -> bool {
    c == lower || ('A' <= c && c <= 'Z' && c as u32 + 32 == lower as u32)
}

/// `s` spells `word` (written in lower case), ignoring the case of ASCII letters.
pub open spec fn spells_ignoring_case(s: Seq<char>, word: Seq<char>) -> bool {
    &&& s.len() == word.len()
    &&& forall|i: int| 0 <= i < s.len() ==> same_letter_ignoring_case(#[trigger] s[i], word[i])
}

/// Compares `s` with the lower-case `word`, ignoring the case of ASCII letters.
pub fn spells_word(s: &Vec<char>, word: &Vec<char>) -> (r: bool)
    ensures
        r == spells_ignoring_case(s@, word@),
{
    if s.len() != word.len() {
        return false;
    }
    let mut i: usize = 0;
    while i < s.len()
        invariant
            s.len() == word.len(),
            i <= s.len(),
            forall|j: int| 0 <= j < i ==> same_letter_ignoring_case(#[trigger] s@[j], word@[j]),
        decreases s.len() - i,
    {
        let c = s[i];
        let w = word[i];
        let same = c == w || ('A' <= c && c <= 'Z' && (c as u32) + 32 == w as u32);
        if !same {
            assert(!same_letter_ignoring_case(s@[i as int], word@[i as int]));
            return false;
        }
        i = i + 1;
    }
    true
}

/// `s` with each carriage return that precedes a line feed removed.
pub open spec fn crlf_as_lf(s: Seq<char>) -> Seq<char>
    decreases s.len(),
{
    if s.len() == 0 {
        seq![]
    } else if s.len() >= 2 && s.last() == '\n' && s[s.len() - 2] == '\r' {
        crlf_as_lf(s.take(s.len() - 2)).push('\n')
    } else {
        crlf_as_lf(s.drop_last()).push(s.last())
    }
}

/// The lines of `s`, each ended by a line feed: line ends written `\r\n` become `\n`, and a
/// last line without an end gets one.
pub open spec fn lines_text(s: Seq<char>) -> Seq<char> {
    if s.len() == 0 || s.last() == '\n' {
        crlf_as_lf(s)
    } else {
        crlf_as_lf(s).push('\n')
    }
}

/// The lines of `s`, each ended by a line feed.
pub fn lines_of(s: &str) -> (r: String)
    ensures
        r@ == lines_text(s@),
{
    let v = chars_of(s);
    let mut out: Vec<char> = Vec::new();
    for i in 0..v.len()
        invariant
            v@ == s@,
            out@ == crlf_as_lf(v@.take(i as int)),
    {
        let c = v[i];
        let ghost t = v@.take(i + 1);
        assert(t.drop_last() == v@.take(i as int));
        if c == '\n' && i > 0 && v[i - 1] == '\r' {
            assert(t.take(t.len() - 2) == v@.take(i - 1));
            assert(v@.take(i as int).drop_last() == v@.take(i - 1));
            out.pop();
        }
        out.push(c);
    }
    assert(v@.take(v.len() as int) == v@);
    if v.len() > 0 && v[v.len() - 1] != '\n' {
        out.push('\n');
    }
    string_of(&out)
}

/// Whether `a` and `b` hold the same characters.
pub fn same_text(a: &str, b: &str) -> (r: bool)
    ensures
        r == (a@ == b@),
{
    let x = chars_of(a);
    let y = chars_of(b);
    if x.len() != y.len() {
        return false;
    }
    let mut i: usize = 0;
    while i < x.len()
        invariant
            x@ == a@,
            y@ == b@,
            x.len() == y.len(),
            i <= x.len(),
            forall|j: int| 0 <= j < i ==> x@[j] == y@[j],
        decreases x.len() - i,
    {
        if x[i] != y[i] {
            assert(x@[i as int] != y@[i as int]);
            return false;
        }
        i = i + 1;
    }
    assert(x@ =~= y@);
    true
}

} // verus!
