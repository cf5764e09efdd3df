//! Small helpers on strings, stated over their characters.

use vstd::prelude::*;

verus! {

/// `String::push` appends one character to the end of the string.
pub assume_specification[ String::push ](s: &mut String, ch: char)
    ensures
        final(s)@ == old(s)@.push(ch),
;

/// The character sequences of a list of strings, one for one.
pub open spec fn texts(v: Seq<String>) -> Seq<Seq<char>> {
    Seq::new(v.len(), |i: int| v[i]@)
}

/// Adding a string to a list adds its characters to the list's texts.
pub proof fn texts_push(v: Seq<String>, s: String)
    ensures
        texts(v.push(s)) == texts(v).push(s@),
{
    assert(texts(v.push(s)) =~= texts(v).push(s@));
}

/// The texts `parts` written one after the other with `sep` between each two.
pub open spec fn joined(parts: Seq<Seq<char>>, sep: char) -> Seq<char>
    decreases parts.len(),
{
    if parts.len() == 0 {
        Seq::empty()
    } else if parts.len() == 1 {
        parts[0]
    } else {
        joined(parts.drop_last(), sep).push(sep) + parts.last()
    }
}

/// Writes the strings of `parts` from index `from` on one after the other,
/// with `sep` between each two.
pub fn join_from(parts: &Vec<String>, from: usize, sep: char) -> (out: String)
    requires
        from <= parts.len(),
    ensures
        out@ == joined(texts(parts@).skip(from as int), sep),
{
    let ghost all = texts(parts@).skip(from as int);
    let mut out = String::new();
    let mut i: usize = from;
    while i < parts.len()
        invariant
            from <= i <= parts.len(),
            all == texts(parts@).skip(from as int),
            out@ == joined(all.take(i - from), sep),
        decreases parts.len() - i,
    {
        proof {
            let next = all.take(i - from + 1);
            assert(next.drop_last() =~= all.take(i - from));
            assert(next.last() == parts[i as int]@);
            if i == from {
                assert(out@ + parts[i as int]@ =~= parts[i as int]@);
            }
        }
        if i > from {
            out.push(sep);
        }
        out.append(parts[i].as_str());
        i += 1;
    }
    assert(all.take(i - from) =~= all);
    out
}

/// Whether `c` is white space as Unicode defines it.
pub uninterp spec fn white_space(c: char) -> bool;

/// `char::is_whitespace` tells whether a character has Unicode's property
/// White_Space. Which characters have it is not written out here.
pub assume_specification[ char::is_whitespace ](c: char) -> (b: bool)
    ensures
        b == white_space(c),
;

/// `s` without the white space at its end.
pub open spec fn trimmed_end(s: Seq<char>) -> Seq<char>
    decreases s.len(),
{
    if s.len() == 0 || !white_space(s.last()) {
        s
    } else {
        trimmed_end(s.drop_last())
    }
}

/// `s` without the white space at its start.
pub open spec fn trimmed_start(s: Seq<char>) -> Seq<char>
    decreases s.len(),
{
    if s.len() == 0 || !white_space(s[0]) {
        s
    } else {
        trimmed_start(s.skip(1))
    }
}

/// `s` without the white space at its start and at its end.
pub open spec fn trimmed(s: Seq<char>) -> Seq<char> {
    trimmed_start(trimmed_end(s))
}

/// The characters of `s`, in order.
pub fn chars_of(s: &str) -> (out: Vec<char>)
    ensures
        out@ == s@,
{
    let mut out: Vec<char> = Vec::new();
    for c in it: s.chars()
        invariant
            it.seq() == s@,
            out@ == s@.take(it.index()),
    {
        proof {
            assert(s@.take(it.index() + 1) =~= s@.take(it.index()).push(c));
        }
        out.push(c);
    }
    assert(s@.take(s@.len() as int) =~= s@);
    out
}

/// The string made of the characters of `chars` from index `from` up to,
/// not including, index `to`.
pub fn string_of(chars: &Vec<char>, from: usize, to: usize) -> (out: String)
    requires
        from <= to <= chars.len(),
    ensures
        out@ == chars@.subrange(from as int, to as int),
{
    let mut out = String::new();
    let mut i: usize = from;
    while i < to
        invariant
            from <= i <= to <= chars.len(),
            out@ == chars@.subrange(from as int, i as int),
        decreases to - i,
    {
        proof {
            assert(chars@.subrange(from as int, i + 1) =~= chars@.subrange(
                from as int,
                i as int,
            ).push(chars[i as int]));
        }
        out.push(chars[i]);
        i += 1;
    }
    out
}

/// The index behind the last character of `chars` that is not white space.
fn end_of_text(chars: &Vec<char>) -> (end: usize)
    ensures
        end <= chars.len(),
        chars@.take(end as int) == trimmed_end(chars@),
{
    let mut end: usize = chars.len();
    assert(chars@.take(end as int) =~= chars@);
    while end > 0 && chars[end - 1].is_whitespace()
        invariant
            end <= chars.len(),
            trimmed_end(chars@.take(end as int)) == trimmed_end(chars@),
        decreases end,
    {
        proof {
            assert(chars@.take(end as int).drop_last() =~= chars@.take(end - 1));
        }
        end -= 1;
    }
    end
}

/// The index of the first character of `chars` before `end` that is not
/// white space, or `end` if there is none.
fn start_of_text(chars: &Vec<char>, end: usize) -> (start: usize)
    requires
        end <= chars.len(),
    ensures
        start <= end,
        chars@.subrange(start as int, end as int) == trimmed_start(chars@.take(end as int)),
{
    let mut start: usize = 0;
    assert(chars@.subrange(0, end as int) =~= chars@.take(end as int));
    while start < end && chars[start].is_whitespace()
        invariant
            start <= end <= chars.len(),
            trimmed_start(chars@.subrange(start as int, end as int)) == trimmed_start(
                chars@.take(end as int),
            ),
        decreases end - start,
    {
        proof {
            assert(chars@.subrange(start as int, end as int).skip(1) =~= chars@.subrange(
                start + 1,
                end as int,
            ));
        }
        start += 1;
    }
    start
}

/// A copy of `s` without the white space at its end.
pub fn trim_end(s: &str) -> (out: String)
    ensures
        out@ == trimmed_end(s@),
{
    let chars = chars_of(s);
    let end = end_of_text(&chars);
    assert(chars@.subrange(0, end as int) =~= chars@.take(end as int));
    string_of(&chars, 0, end)
}

/// A copy of `s` without the white space at its start and at its end.
pub fn trim(s: &str) -> (out: String)
    ensures
        out@ == trimmed(s@),
{
    let chars = chars_of(s);
    let end = end_of_text(&chars);
    let start = start_of_text(&chars, end);
    string_of(&chars, start, end)
}

/// Whether two strings hold the same characters.
pub fn same_text(a: &str, b: &str) -> (same: bool)
    ensures
        same == (a@ == b@),
{
    let x = chars_of(a);
    let y = chars_of(b);
    if x.len() != y.len() {
        return false;
    }
    let mut i: usize = 0;
    while i < x.len()
        invariant
            i <= x.len(),
            x.len() == y.len(),
            x@ == a@,
            y@ == b@,
            x@.take(i as int) == y@.take(i as int),
        decreases x.len() - i,
    {
        if x[i] != y[i] {
            assert(a@[i as int] != b@[i as int]);
            return false;
        }
        proof {
            assert(x@.take(i + 1) =~= x@.take(i as int).push(x[i as int]));
            assert(y@.take(i + 1) =~= y@.take(i as int).push(y[i as int]));
        }
        i += 1;
    }
    assert(x@.take(i as int) =~= x@ && y@.take(i as int) =~= y@);
    true
}

} // verus!
