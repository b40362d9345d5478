//! Strings as sequences of characters: the conversions between `str`,
//! `String` and `Vec<char>` on which the scanners work.

use vstd::prelude::*;

verus! {

/// `String::push` of the standard library appends one character to the end
/// of the string and leaves what was there untouched.
pub assume_specification[ String::push ](s: &mut String, ch: char)
    ensures
        final(s)@ == old(s)@.push(ch),
;

/// The characters of `s`, in order.
pub fn chars_of(s: &str) -> (chars: Vec<char>)
    ensures
        chars@ == s@,
{
    let mut chars: Vec<char> = Vec::new();
    for c in it: s.chars()
        invariant
            chars@ == it.seq().take(it.index()),
            it.seq() == s@,
    {
        chars.push(c);
    }
    chars
}

/// The string made of the characters of `chars` from `from` up to `to`.
pub(crate) fn string_of(chars: &Vec<char>, from: usize, to: usize) -> (s: String)
    requires
        from <= to <= chars@.len(),
    ensures
        s@ == chars@.subrange(from as int, to as int),
{
    let mut s = String::new();
    let mut i: usize = from;
    while i < to
        invariant
            from <= i <= to <= chars@.len(),
            s@ == chars@.subrange(from as int, i as int),
        decreases to - i,
    {
        s.push(chars[i]);
        i = i + 1;
    }
    s
}

/// Whether `c` is white space as Unicode defines it (the property
/// `White_Space`): the controls from tab to carriage return, the space,
/// next line, the no-break space and the spaces and separators above them.
pub open spec fn is_white_space(c: char) -> bool {
    let code = c as int;
    ||| 0x09 <= code <= 0x0d
    ||| code == 0x20
    ||| code == 0x85
    ||| code == 0xa0
    ||| code == 0x1680
    ||| 0x2000 <= code <= 0x200a
    ||| code == 0x2028
    ||| code == 0x2029
    ||| code == 0x202f
    ||| code == 0x205f
    ||| code == 0x3000
}

/// The length of `s` without the white space at its end.
pub open spec fn trimmed_len(s: Seq<char>) -> int
    decreases s.len(),
{
    if s.len() > 0 && is_white_space(s.last()) {
        trimmed_len(s.drop_last())
    } else {
        s.len() as int
    }
}

/// `s` without the white space at its end.
pub open spec fn trim_end(s: Seq<char>) -> Seq<char> {
    s.take(trimmed_len(s))
}

/// A name that does not end in white space is what is left of it when the
/// line end that follows it is trimmed off, and trimming leaves the name
/// itself as it is.
pub proof fn lemma_line_end_is_trimmed(name: Seq<char>)
    requires
        name.len() == 0 || !is_white_space(name.last()),
    ensures
        trim_end(name + seq!['\n']) == name,
        trim_end(name) == name,
{
    let recorded = name + seq!['\n'];
    assert(trimmed_len(name) == name.len());
    assert(recorded.last() == '\n' && recorded.drop_last() == name);
    assert(trimmed_len(recorded) == trimmed_len(name));
    assert(recorded.take(name.len() as int) == name);
    assert(name.take(name.len() as int) == name);
}

/// Whether `c` is white space.
pub fn is_white_space_char(c: char) -> (white: bool)
    ensures
        white == is_white_space(c),
{
    let code: u32 = c as u32;
    (0x09 <= code && code <= 0x0d) || code == 0x20 || code == 0x85 || code == 0xa0 || code
        == 0x1680 || (0x2000 <= code && code <= 0x200a) || code == 0x2028 || code == 0x2029 || code
        == 0x202f || code == 0x205f || code == 0x3000
}

/// The length of `chars` without the white space at its end.
pub(crate) fn trimmed_len_of(chars: &Vec<char>) -> (len: usize)
    ensures
        len == trimmed_len(chars@),
        len <= chars@.len(),
{
    let mut i: usize = chars.len();
    proof {
        assert(chars@.take(i as int) == chars@);
    }
    while i > 0 && is_white_space_char(chars[i - 1])
        invariant
            i <= chars@.len(),
            trimmed_len(chars@) == trimmed_len(chars@.take(i as int)),
        decreases i,
    {
        proof {
            assert(chars@.take(i as int).drop_last() == chars@.take(i - 1));
        }
        i = i - 1;
    }
    i
}

/// Whether the characters of `chars` from `from` up to `to` spell `other`.
pub(crate) fn range_equals(chars: &Vec<char>, from: usize, to: usize, other: &Vec<char>) -> (equal:
    bool)
    requires
        from <= to <= chars@.len(),
    ensures
        equal == (chars@.subrange(from as int, to as int) == other@),
{
    let len: usize = to - from;
    if len != other.len() {
        return false;
    }
    let mut i: usize = 0;
    while i < len
        invariant
            from <= to <= chars@.len(),
            len == to - from,
            len == other@.len(),
            i <= len,
            forall|j: int| 0 <= j < i ==> chars@[from + j] == other@[j],
        decreases len - i,
    {
        if chars[from + i] != other[i] {
            assert(chars@.subrange(from as int, to as int)[i as int] != other@[i as int]);
            return false;
        }
        i = i + 1;
    }
    assert(chars@.subrange(from as int, to as int) =~= other@);
    true
}

} // verus!
