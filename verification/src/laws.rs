//! What holds of the splitting of lines into words, for every input.

use vstd::prelude::*;
use crate::text::joined;
use crate::tokenizer::{closed, is_blank, outcome, run, start, step, tokens_of, Mode, Scan};

verus! {

/// A character that neither quotes nor escapes: not `'`, `"` or a backslash.
pub open spec fn is_plain(c: char) -> bool {
    c != '\'' && c != '"' && c != '\\'
}

/// Every character of `s` is plain.
pub open spec fn all_plain(s: Seq<char>) -> bool {
    forall|i: int| 0 <= i < s.len() ==> is_plain(#[trigger] s[i])
}

/// No character of `s` is blank.
pub open spec fn no_blank(s: Seq<char>) -> bool {
    forall|i: int| 0 <= i < s.len() ==> !is_blank(#[trigger] s[i])
}

/// The number of characters at the front of `s` before its first blank.
pub open spec fn word_len(s: Seq<char>) -> nat
    decreases s.len(),
{
    if s.len() == 0 || is_blank(s[0]) {
        0
    } else {
        1 + word_len(s.skip(1))
    }
}

/// The plain split of `s` at blanks: its maximal runs of characters that are
/// not blank, in order.
pub open spec fn split_blanks(s: Seq<char>) -> Seq<Seq<char>>
    decreases s.len(),
{
    if s.len() == 0 {
        Seq::empty()
    } else if is_blank(s[0]) {
        split_blanks(s.skip(1))
    } else {
        proof {
            word_len_bounds(s);
        }
        seq![s.take(word_len(s) as int)] + split_blanks(s.skip(word_len(s) as int))
    }
}

/// The first word of `s` lies within `s`, holds no blank, ends at a blank or
/// at the end of `s`, and is not empty unless `s` is empty or begins with a blank.
pub proof fn word_len_bounds(s: Seq<char>)
    ensures
        word_len(s) <= s.len(),
        s.len() > 0 && !is_blank(s[0]) ==> word_len(s) >= 1,
        no_blank(s.take(word_len(s) as int)),
        word_len(s) < s.len() ==> is_blank(s[word_len(s) as int]),
    decreases s.len(),
{
    if s.len() == 0 || is_blank(s[0]) {
    } else {
        let rest = s.skip(1);
        word_len_bounds(rest);
        let n = word_len(s) as int;
        assert forall|i: int| 0 <= i < n implies !is_blank(#[trigger] s.take(n)[i]) by {
            if i > 0 {
                assert(s.take(n)[i] == rest.take(n - 1)[i - 1]);
            }
        }
    }
}

/// Reading a text in two pieces, one after the other, ends in the same state
/// as reading it in one piece.
pub proof fn run_in_pieces(s: Scan, a: Seq<char>, b: Seq<char>)
    ensures
        run(s, a + b) == run(run(s, a), b),
    decreases b.len(),
{
    if b.len() == 0 {
        assert(a + b =~= a);
    } else {
        run_in_pieces(s, a, b.drop_last());
        assert((a + b).drop_last() =~= a + b.drop_last());
        assert((a + b).last() == b.last());
    }
}

/// Reading one character is one step.
pub proof fn run_one(s: Scan, c: char)
    ensures
        run(s, seq![c]) == step(s, c),
{
    assert(seq![c].drop_last() =~= Seq::<char>::empty());
    assert(run(s, seq![c].drop_last()) == s);
}

/// The word in progress, with the characters `w` added.
pub open spec fn extended(word: Option<Seq<char>>, w: Seq<char>) -> Option<Seq<char>> {
    match word {
        Some(x) => Some(x + w),
        None => Some(w),
    }
}

/// Outside quotes, a run of plain characters without a blank is added to the
/// word in progress and changes nothing else.
pub proof fn run_plain_word(s: Scan, w: Seq<char>)
    requires
        s.mode == Mode::Plain,
        all_plain(w),
        no_blank(w),
        w.len() > 0,
    ensures
        run(s, w) == (Scan { word: extended(s.word, w), ..s }),
    decreases w.len(),
{
    let front = w.drop_last();
    assert(is_plain(w[w.len() - 1]) && !is_blank(w[w.len() - 1]));
    if front.len() == 0 {
        assert(run(s, front) == s);
        match s.word {
            Some(x) => {
                assert(x.push(w.last()) =~= x + w);
            },
            None => {
                assert(seq![w.last()] =~= w);
            },
        }
    } else {
        assert forall|i: int| 0 <= i < front.len() implies is_plain(#[trigger] front[i])
            && !is_blank(front[i]) by {
            assert(front[i] == w[i]);
        }
        run_plain_word(s, front);
        match s.word {
            Some(x) => {
                assert((x + front).push(w.last()) =~= x + w);
            },
            None => {
                assert(front.push(w.last()) =~= w);
            },
        }
    }
}

/// From a state outside quotes with no word in progress, a text of plain
/// characters adds its plain split to the words found.
proof fn run_plain_text(s: Scan, input: Seq<char>)
    requires
        s.mode == Mode::Plain,
        s.word is None,
        all_plain(input),
    ensures
        outcome(run(s, input)) == Some(s.done + split_blanks(input)),
    decreases input.len(),
{
    if input.len() == 0 {
        assert(s.done + split_blanks(input) =~= s.done);
    } else if is_blank(input[0]) {
        let rest = input.skip(1);
        assert(input =~= seq![input[0]] + rest);
        run_in_pieces(s, seq![input[0]], rest);
        run_one(s, input[0]);
        assert(is_plain(input[0]));
        assert(step(s, input[0]) == s);
        assert forall|i: int| 0 <= i < rest.len() implies is_plain(#[trigger] rest[i]) by {
            assert(rest[i] == input[i + 1]);
        }
        run_plain_text(s, rest);
    } else {
        word_len_bounds(input);
        let n = word_len(input) as int;
        let w = input.take(n);
        let rest = input.skip(n);
        assert(input =~= w + rest);
        assert forall|i: int| 0 <= i < w.len() implies is_plain(#[trigger] w[i]) by {
            assert(w[i] == input[i]);
        }
        assert forall|i: int| 0 <= i < rest.len() implies is_plain(#[trigger] rest[i]) by {
            assert(rest[i] == input[i + n]);
        }
        run_in_pieces(s, w, rest);
        run_plain_word(s, w);
        let mid = Scan { word: Some(w), ..s };
        assert(run(s, w) == mid);
        if rest.len() == 0 {
            assert(split_blanks(rest) =~= Seq::<Seq<char>>::empty());
            assert(s.done + split_blanks(input) =~= s.done.push(w));
        } else {
            let tail = rest.skip(1);
            assert(rest[0] == input[n]);
            assert(is_blank(rest[0]) && is_plain(rest[0]));
            assert(rest =~= seq![rest[0]] + tail);
            run_in_pieces(mid, seq![rest[0]], tail);
            run_one(mid, rest[0]);
            let next = Scan { done: s.done.push(w), word: None, ..s };
            assert(step(mid, rest[0]) == next);
            assert forall|i: int| 0 <= i < tail.len() implies is_plain(#[trigger] tail[i]) by {
                assert(tail[i] == rest[i + 1]);
            }
            run_plain_text(next, tail);
            assert(split_blanks(rest) == split_blanks(tail));
            assert(next.done + split_blanks(tail) =~= s.done + split_blanks(input));
        }
    }
}

/// A line without quotes and backslashes splits into words as a plain split
/// at blanks does.
pub proof fn plain_line_splits_at_blanks(input: Seq<char>)
    requires
        all_plain(input),
    ensures
        tokens_of(input) == Some(split_blanks(input)),
{
    run_plain_text(start(), input);
    assert(start().done + split_blanks(input) =~= split_blanks(input));
}

/// A word that needs no quoting: not empty, and made of plain characters
/// none of which is blank.
pub open spec fn is_bare(w: Seq<char>) -> bool {
    w.len() > 0 && all_plain(w) && no_blank(w)
}

/// After reading bare words joined by single spaces, the last of them is the
/// word in progress and the others are the words found.
proof fn run_joined_words(words: Seq<Seq<char>>)
    requires
        words.len() > 0,
        forall|i: int| 0 <= i < words.len() ==> is_bare(#[trigger] words[i]),
    ensures
        run(start(), joined(words, ' ')) == (Scan {
            done: words.drop_last(),
            word: Some(words.last()),
            mode: Mode::Plain,
        }),
    decreases words.len(),
{
    let last = words.last();
    assert(is_bare(words[words.len() - 1]));
    if words.len() == 1 {
        run_plain_word(start(), last);
        assert(words.drop_last() =~= Seq::<Seq<char>>::empty());
    } else {
        let front = words.drop_last();
        assert forall|i: int| 0 <= i < front.len() implies is_bare(#[trigger] front[i]) by {
            assert(front[i] == words[i]);
        }
        run_joined_words(front);
        let before = run(start(), joined(front, ' '));
        let text = joined(front, ' ');
        assert(joined(words, ' ') =~= (text + seq![' ']) + last);
        run_in_pieces(start(), text + seq![' '], last);
        run_in_pieces(start(), text, seq![' ']);
        run_one(before, ' ');
        let flushed = Scan { done: front, word: None, mode: Mode::Plain };
        assert(front.drop_last().push(front.last()) =~= front);
        assert(step(before, ' ') == flushed);
        run_plain_word(flushed, last);
    }
}

/// Words that need no quoting, joined by single spaces, split back into the
/// same words.
pub proof fn rejoined_words_split_back(words: Seq<Seq<char>>)
    requires
        forall|i: int| 0 <= i < words.len() ==> is_bare(#[trigger] words[i]),
    ensures
        tokens_of(joined(words, ' ')) == Some(words),
{
    if words.len() == 0 {
        assert(closed(start().done, start().word) =~= words);
    } else {
        run_joined_words(words);
        assert(words.drop_last().push(words.last()) =~= words);
    }
}

/// The state `s` with the words `before` put in front of the words found.
pub open spec fn preceded(before: Seq<Seq<char>>, s: Scan) -> Scan {
    Scan { done: before + s.done, ..s }
}

/// Words found earlier stay in front and do not change how a text is read.
pub proof fn run_keeps_earlier_words(before: Seq<Seq<char>>, s: Scan, input: Seq<char>)
    ensures
        run(preceded(before, s), input) == preceded(before, run(s, input)),
    decreases input.len(),
{
    if input.len() > 0 {
        run_keeps_earlier_words(before, s, input.drop_last());
        let mid = run(s, input.drop_last());
        let c = input.last();
        assert(before + closed(mid.done, mid.word) =~= closed(before + mid.done, mid.word));
        assert(step(preceded(before, mid), c) == preceded(before, step(mid, c)));
    }
}

/// A blank outside quotes parts a line in two: where the text before it is a
/// complete line, the whole splits into the words of that text followed by
/// the words of the text behind the blank, and is incomplete exactly where
/// that text is.
pub proof fn blank_parts_line(a: Seq<char>, c: char, b: Seq<char>)
    requires
        is_blank(c),
        tokens_of(a) is Some,
    ensures
        tokens_of(a.push(c) + b) == match tokens_of(b) {
            Some(rest) => Some(tokens_of(a).unwrap() + rest),
            None => None,
        },
{
    let first = tokens_of(a).unwrap();
    let at_blank = run(start(), a);
    assert(a.push(c) =~= a + seq![c]);
    run_in_pieces(start(), a.push(c), b);
    run_in_pieces(start(), a, seq![c]);
    run_one(at_blank, c);
    assert(first + start().done =~= first);
    assert(step(at_blank, c) == preceded(first, start()));
    run_keeps_earlier_words(first, start(), b);
    let end = run(start(), b);
    assert(first + closed(end.done, end.word) =~= closed(first + end.done, end.word));
}

} // verus!
