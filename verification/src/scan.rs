//! Reading text piece by piece: lines, words, quoted values, replacements.
use vstd::prelude::*;
use crate::text::{
    all_digits, chars_of, digits_value, has_prefix, is_white, is_whitespace, lemma_texts_push,
    matches_at, occurs_at, parse_digits, text_between, texts, trim_start,
};

verus! {

broadcast use lemma_texts_push;

// ---------------------------------------------------------------------------
// Lines
// ---------------------------------------------------------------------------

/// The position of the first occurrence of a character, or the text's length.
pub open spec fn char_index(s: Seq<char>, c: char) -> int
    decreases s.len(),
{
    if s.len() == 0 || s[0] == c {
        0
    } else {
        1 + char_index(s.drop_first(), c)
    }
}

/// The position of a character is where it stands and not before.
pub proof fn lemma_char_index(s: Seq<char>, c: char, n: int)
    requires
        0 <= n <= s.len(),
        forall|i: int| 0 <= i < n ==> s[i] != c,
        n < s.len() ==> s[n] == c,
    ensures
        char_index(s, c) == n,
    decreases s.len(),
{
    if n > 0 {
        assert(s.drop_first().len() == s.len() - 1);
        lemma_char_index(s.drop_first(), c, n - 1);
    }
}

/// The position of a character is at most the text's length.
pub proof fn lemma_char_index_bound(s: Seq<char>, c: char)
    ensures
        0 <= char_index(s, c) <= s.len(),
        char_index(s, c) < s.len() ==> s[char_index(s, c)] == c,
        forall|i: int| 0 <= i < char_index(s, c) ==> s[i] != c,
    decreases s.len(),
{
    if s.len() > 0 && s[0] != c {
        let rest = s.drop_first();
        lemma_char_index_bound(rest, c);
        assert forall|i: int| 0 <= i < char_index(s, c) implies s[i] != c by {
            if i > 0 {
                assert(s[i] == rest[i - 1]);
            }
        }
    }
}

/// A line without the carriage return at its end.
pub open spec fn without_cr(s: Seq<char>) -> Seq<char> {
    if s.len() > 0 && s.last() == '\r' {
        s.drop_last()
    } else {
        s
    }
}

/// The lines of a text. Each line feed ends a line, together with a carriage
/// return before it; what follows the last line feed is a line if it is not
/// empty.
pub open spec fn lines(s: Seq<char>) -> Seq<Seq<char>>
    decreases s.len(),
{
    let n = char_index(s, '\n');
    if s.len() == 0 {
        Seq::empty()
    } else if n >= s.len() || n < 0 {
        seq![s]
    } else {
        seq![without_cr(s.take(n))] + lines(s.skip(n + 1))
    }
}

/// Splits a text into lines.
pub fn split_lines(s: &str) -> (r: Vec<String>)
    ensures
        texts(r@) == lines(s@),
{
    let v = chars_of(s);
    let n: usize = v.len();
    let mut out: Vec<String> = Vec::new();
    let mut start: usize = 0;
    proof {
        assert(v@.skip(0) =~= v@);
        assert(texts(out@) + lines(v@) =~= lines(v@));
    }
    while start < n
        invariant
            start <= n == v@.len(),
            texts(out@) + lines(v@.skip(start as int)) == lines(v@),
        decreases n - start,
    {
        let ghost rest = v@.skip(start as int);
        let mut end: usize = start;
        while end < n && v[end] != '\n'
            invariant
                start <= end <= n == v@.len(),
                forall|k: int| start <= k < end ==> v@[k] != '\n',
            decreases n - end,
        {
            end += 1;
        }
        proof {
            assert forall|i: int| 0 <= i < end - start implies rest[i] != '\n' by {
                assert(rest[i] == v@[start + i]);
            }
            lemma_char_index(rest, '\n', end - start);
        }
        let ghost before = texts(out@);
        if end == n {
            out.push(text_between(&v, start, n));
            proof {
                assert(v@.subrange(start as int, n as int) =~= rest);
                assert(v@.skip(n as int) =~= Seq::empty());
                assert(texts(out@) + lines(v@.skip(n as int)) =~= before + lines(rest));
            }
            start = n;
        } else {
            let stop: usize = if end > start && v[end - 1] == '\r' {
                end - 1
            } else {
                end
            };
            out.push(text_between(&v, start, stop));
            proof {
                let line = rest.take(end - start);
                if end > start {
                    assert(line.last() == v@[end - 1]);
                }
                assert(without_cr(line) =~= v@.subrange(start as int, stop as int));
                assert(rest.skip(end - start + 1) =~= v@.skip(end + 1));
                assert(texts(out@) + lines(v@.skip(end + 1)) =~= before + (seq![
                    without_cr(line),
                ] + lines(v@.skip(end + 1))));
            }
            start = end + 1;
        }
    }
    proof {
        assert(v@.skip(n as int) =~= Seq::empty());
        assert(texts(out@) + lines(v@.skip(n as int)) =~= texts(out@));
    }
    out
}

// ---------------------------------------------------------------------------
// Words
// ---------------------------------------------------------------------------

/// How many characters without white space a text begins with.
pub open spec fn word_len(s: Seq<char>) -> int
    decreases s.len(),
{
    if s.len() == 0 || is_white(s[0]) {
        0
    } else {
        1 + word_len(s.drop_first())
    }
}

/// The second of the words that white space separates.
pub open spec fn second_word(s: Seq<char>) -> Option<Seq<char>> {
    let first = trim_start(s);
    let rest = trim_start(first.skip(word_len(first)));
    if rest.len() == 0 {
        None
    } else {
        Some(rest.take(word_len(rest)))
    }
}

/// Skips white space from a position on.
fn skip_white(v: &Vec<char>, from: usize) -> (r: usize)
    requires
        from <= v@.len(),
    ensures
        from <= r <= v@.len(),
        v@.skip(r as int) == trim_start(v@.skip(from as int)),
        r < v@.len() ==> !is_white(v@[r as int]),
{
    let n: usize = v.len();
    let mut i: usize = from;
    while i < n && is_whitespace(v[i])
        invariant
            from <= i <= n == v@.len(),
            trim_start(v@.skip(i as int)) == trim_start(v@.skip(from as int)),
        decreases n - i,
    {
        proof {
            assert(v@.skip(i as int)[0] == v@[i as int]);
            assert(v@.skip(i as int).drop_first() =~= v@.skip(i + 1));
        }
        i += 1;
    }
    proof {
        if i < n {
            assert(v@.skip(i as int)[0] == v@[i as int]);
        }
    }
    i
}

/// Skips characters without white space from a position on.
fn skip_word(v: &Vec<char>, from: usize) -> (r: usize)
    requires
        from <= v@.len(),
    ensures
        from <= r <= v@.len(),
        r - from == word_len(v@.skip(from as int)),
{
    let n: usize = v.len();
    let mut i: usize = from;
    while i < n && !is_whitespace(v[i])
        invariant
            from <= i <= n == v@.len(),
            word_len(v@.skip(from as int)) == i - from + word_len(v@.skip(i as int)),
        decreases n - i,
    {
        proof {
            assert(v@.skip(i as int)[0] == v@[i as int]);
            assert(v@.skip(i as int).drop_first() =~= v@.skip(i + 1));
        }
        i += 1;
    }
    proof {
        if i < n {
            assert(v@.skip(i as int)[0] == v@[i as int]);
        }
    }
    i
}

/// Finds the second of the words that white space separates.
pub fn find_second_word(s: &str) -> (r: Option<String>)
    ensures
        r is Some == second_word(s@) is Some,
        r is Some ==> r->0@ == second_word(s@)->0,
{
    let v = chars_of(s);
    proof {
        assert(v@.skip(0) =~= v@);
    }
    let a: usize = skip_white(&v, 0);
    let b: usize = skip_word(&v, a);
    proof {
        assert(v@.skip(a as int).skip(b - a) =~= v@.skip(b as int));
    }
    let c: usize = skip_white(&v, b);
    if c == v.len() {
        return None;
    }
    let d: usize = skip_word(&v, c);
    proof {
        assert(v@.skip(c as int).take(d - c) =~= v@.subrange(c as int, d as int));
    }
    Some(text_between(&v, c, d))
}

// ---------------------------------------------------------------------------
// Quotes
// ---------------------------------------------------------------------------

/// The text without a character at its start, however often it is there.
pub open spec fn strip_start(s: Seq<char>, c: char) -> Seq<char>
    decreases s.len(),
{
    if s.len() > 0 && s[0] == c {
        strip_start(s.drop_first(), c)
    } else {
        s
    }
}

/// The text without a character at its end, however often it is there.
pub open spec fn strip_end(s: Seq<char>, c: char) -> Seq<char>
    decreases s.len(),
{
    if s.len() > 0 && s.last() == c {
        strip_end(s.drop_last(), c)
    } else {
        s
    }
}

/// The text without a character at either end.
pub open spec fn stripped(s: Seq<char>, c: char) -> Seq<char> {
    strip_end(strip_start(s, c), c)
}

/// Removes a character from both ends of a text.
pub fn strip(s: &str, c: char) -> (r: String)
    ensures
        r@ == stripped(s@, c),
{
    let v = chars_of(s);
    let mut from: usize = 0;
    proof {
        assert(v@.skip(0) =~= v@);
    }
    while from < v.len() && v[from] == c
        invariant
            from <= v@.len(),
            strip_start(v@.skip(from as int), c) == strip_start(v@, c),
        decreases v@.len() - from,
    {
        proof {
            assert(v@.skip(from as int).drop_first() =~= v@.skip(from + 1));
        }
        from += 1;
    }
    proof {
        assert(strip_start(v@, c) == v@.skip(from as int));
        assert(v@.skip(from as int) =~= v@.subrange(from as int, v@.len() as int));
    }
    let mut to: usize = v.len();
    while to > from && v[to - 1] == c
        invariant
            from <= to <= v@.len(),
            strip_end(v@.subrange(from as int, to as int), c) == stripped(v@, c),
        decreases to - from,
    {
        proof {
            assert(v@.subrange(from as int, to as int).drop_last() =~= v@.subrange(
                from as int,
                to - 1,
            ));
        }
        to -= 1;
    }
    proof {
        let cut = v@.subrange(from as int, to as int);
        if to > from {
            assert(cut.last() == v@[to - 1]);
        }
        assert(strip_end(cut, c) == cut);
    }
    text_between(&v, from, to)
}

/// Cuts a text at the first occurrence of a character: what is before it, and
/// what is behind it where it occurs.
pub fn cut_at(s: &str, c: char) -> (r: (String, Option<String>))
    ensures
        ({
            let n = char_index(s@, c);
            &&& r.0@ == s@.take(n)
            &&& r.1 is Some == (n < s@.len())
            &&& r.1 is Some ==> r.1->0@ == s@.skip(n + 1)
        }),
{
    let v = chars_of(s);
    let n: usize = v.len();
    let mut i: usize = 0;
    while i < n && v[i] != c
        invariant
            i <= n == v@.len(),
            forall|k: int| 0 <= k < i ==> v@[k] != c,
        decreases n - i,
    {
        i += 1;
    }
    proof {
        lemma_char_index(v@, c, i as int);
        assert(v@.take(i as int) =~= v@.subrange(0, i as int));
    }
    let head = text_between(&v, 0, i);
    if i < n {
        proof {
            assert(v@.skip(i + 1) =~= v@.subrange(i + 1, n as int));
        }
        (head, Some(text_between(&v, i + 1, n)))
    } else {
        (head, None)
    }
}

/// Removes a prefix from a text that has it.
pub fn drop_prefix(s: &str, prefix: &str) -> (r: Option<String>)
    ensures
        r is Some == has_prefix(s@, prefix@),
        r is Some ==> r->0@ == s@.skip(prefix@.len() as int),
{
    let v = chars_of(s);
    let p = chars_of(prefix);
    if matches_at(&v, &p, 0) {
        proof {
            assert(v@.skip(p@.len() as int) =~= v@.subrange(p@.len() as int, v@.len() as int));
        }
        Some(text_between(&v, p.len(), v.len()))
    } else {
        None
    }
}

/// The 16-bit number that a text writes: an optional plus sign, then at least
/// one digit and nothing else, with a value in range.
pub open spec fn parsed_u16(s: Seq<char>) -> Option<int> {
    let digits = if s.len() > 0 && s[0] == '+' {
        s.skip(1)
    } else {
        s
    };
    if all_digits(digits) && digits_value(digits) <= 65535 {
        Some(digits_value(digits) as int)
    } else {
        None
    }
}

/// Reads a 16-bit number.
pub fn parse_u16(s: &str) -> (r: Option<u16>)
    ensures
        r is Some == parsed_u16(s@) is Some,
        r is Some ==> r->0 == parsed_u16(s@)->0,
{
    let v = chars_of(s);
    proof {
        assert(s@.subrange(0, s@.len() as int) =~= s@);
        if s@.len() > 0 {
            assert(s@.subrange(1, s@.len() as int) =~= s@.skip(1));
        }
    }
    let from: usize = if v.len() > 0 && v[0] == '+' {
        1
    } else {
        0
    };
    match parse_digits(&v, from, 65535) {
        Some(n) => Some(n as u16),
        None => None,
    }
}

// ---------------------------------------------------------------------------
// Replacement
// ---------------------------------------------------------------------------

/// The text with every occurrence of `from`, left to right and without
/// overlap, replaced by `to`.
pub open spec fn replaced(s: Seq<char>, from: Seq<char>, to: Seq<char>) -> Seq<char>
    decreases s.len(),
{
    if from.len() == 0 || s.len() < from.len() {
        s
    } else if has_prefix(s, from) {
        to + replaced(s.skip(from.len() as int), from, to)
    } else {
        seq![s[0]] + replaced(s.drop_first(), from, to)
    }
}

/// Replaces every occurrence of a text that is not empty.
pub fn replace(s: &str, from: &str, to: &str) -> (r: String)
    requires
        from@.len() > 0,
    ensures
        r@ == replaced(s@, from@, to@),
{
    let v = chars_of(s);
    let p = chars_of(from);
    let n: usize = v.len();
    let mut out = String::new();
    let mut i: usize = 0;
    proof {
        assert(v@.skip(0) =~= v@);
        assert(out@ + replaced(v@, from@, to@) =~= replaced(v@, from@, to@));
    }
    while i < n
        invariant
            i <= n == v@.len(),
            p@ == from@,
            from@.len() > 0,
            out@ + replaced(v@.skip(i as int), from@, to@) == replaced(v@, from@, to@),
        decreases n - i,
    {
        let ghost rest = v@.skip(i as int);
        let ghost before = out@;
        proof {
            if occurs_at(v@, p@, i as int) {
                assert(rest.subrange(0, p@.len() as int) =~= v@.subrange(i as int, i + p@.len()));
            }
            if has_prefix(rest, p@) {
                assert(v@.subrange(i as int, i + p@.len()) =~= rest.subrange(0, p@.len() as int));
            }
        }
        if matches_at(&v, &p, i) {
            out.append(to);
            proof {
                assert(rest.skip(p@.len() as int) =~= v@.skip(i + p@.len()));
                assert(out@ + replaced(v@.skip(i + p@.len()), from@, to@) =~= before + (to@
                    + replaced(v@.skip(i + p@.len()), from@, to@)));
            }
            i += p.len();
        } else {
            out.push(v[i]);
            proof {
                assert(rest.drop_first() =~= v@.skip(i + 1));
                if rest.len() >= from@.len() {
                    assert(out@ + replaced(v@.skip(i + 1), from@, to@) =~= before + (seq![rest[0]]
                        + replaced(v@.skip(i + 1), from@, to@)));
                } else {
                    assert(replaced(v@.skip(i + 1), from@, to@) == v@.skip(i + 1));
                    assert(out@ + v@.skip(i + 1) =~= before + rest);
                }
            }
            i += 1;
        }
    }
    proof {
        assert(v@.skip(n as int) =~= Seq::empty());
        assert(out@ + replaced(v@.skip(n as int), from@, to@) =~= out@);
    }
    out
}

/// Where a text does not occur, replacing it changes nothing.
pub proof fn law_replace_absent(s: Seq<char>, from: Seq<char>, to: Seq<char>)
    requires
        !crate::text::has_substring(s, from),
    ensures
        replaced(s, from, to) == s,
    decreases s.len(),
{
    if from.len() > 0 && s.len() >= from.len() {
        assert(!occurs_at(s, from, 0));
        let rest = s.drop_first();
        assert forall|at: int| !#[trigger] occurs_at(rest, from, at) by {
            if occurs_at(rest, from, at) {
                assert(s.subrange(at + 1, at + 1 + from.len()) =~= rest.subrange(
                    at,
                    at + from.len(),
                ));
                assert(occurs_at(s, from, at + 1));
            }
        }
        law_replace_absent(rest, from, to);
        assert(seq![s[0]] + rest =~= s);
    }
}

} // verus!
