//! Laws of texts: trimming, joining, taking apart and reading numbers.
use vstd::prelude::*;
use crate::check_laws::law_written_numbers_are_read_back;
use crate::display::padded;
use crate::scan::{
    lemma_char_index, lines, parsed_u16, second_word, strip_end, strip_start, stripped, word_len,
};
use crate::text::{
    before_char, char_bytes, decimal, has_substring, is_digit, is_white, joined, lower_ascii,
    occurs_at, parsed_i32, signed_decimal, text_bytes, trim_end, trim_start, trimmed,
};

verus! {

/// Whether a text holds nothing but blanks.
pub open spec fn is_blank(s: Seq<char>) -> bool {
    forall|i: int| 0 <= i < s.len() ==> is_white(#[trigger] s[i])
}

/// Whether a text holds no blank.
pub open spec fn is_word(s: Seq<char>) -> bool {
    forall|i: int| 0 <= i < s.len() ==> !is_white(#[trigger] s[i])
}

/// Tabs, line breaks and spaces are blanks; letters and digits are none.
pub proof fn law_blanks(c: char)
    ensures
        is_white(' ') && is_white('\t') && is_white('\n') && is_white('\r'),
        'a' <= c && c <= 'z' || 'A' <= c && c <= 'Z' || '0' <= c && c <= '9' ==> !is_white(c),
{
}

/// Blanks at the start are taken away, and nothing else.
proof fn lemma_trim_start(blank: Seq<char>, s: Seq<char>)
    requires
        is_blank(blank),
        s.len() > 0 ==> !is_white(s[0]),
    ensures
        trim_start(blank + s) == s,
    decreases blank.len(),
{
    if blank.len() > 0 {
        assert((blank + s).drop_first() =~= blank.drop_first() + s);
        assert((blank + s)[0] == blank[0]);
        assert forall|i: int| 0 <= i < blank.drop_first().len() implies is_white(
            #[trigger] blank.drop_first()[i],
        ) by {
            assert(is_white(blank[i + 1]));
        }
        lemma_trim_start(blank.drop_first(), s);
    } else {
        assert(blank + s =~= s);
    }
}

/// Blanks at the end are taken away, and nothing else.
proof fn lemma_trim_end(s: Seq<char>, blank: Seq<char>)
    requires
        is_blank(blank),
        s.len() > 0 ==> !is_white(s.last()),
    ensures
        trim_end(s + blank) == s,
    decreases blank.len(),
{
    if blank.len() > 0 {
        assert((s + blank).drop_last() =~= s + blank.drop_last());
        assert((s + blank).last() == blank.last());
        assert(is_white(blank[blank.len() - 1]));
        assert forall|i: int| 0 <= i < blank.drop_last().len() implies is_white(
            #[trigger] blank.drop_last()[i],
        ) by {
            assert(is_white(blank[i]));
        }
        lemma_trim_end(s, blank.drop_last());
    } else {
        assert(s + blank =~= s);
    }
}

/// Trimming takes the blanks before and behind a text away, and keeps what stands
/// between its first and its last other character.
pub proof fn law_trimming_takes_blanks_away(before: Seq<char>, s: Seq<char>, behind: Seq<char>)
    requires
        is_blank(before),
        is_blank(behind),
        s.len() > 0,
        !is_white(s[0]),
        !is_white(s.last()),
    ensures
        trimmed(before + s + behind) == s,
        trimmed(before).len() == 0,
{
    assert(before + s + behind =~= before + (s + behind));
    lemma_trim_start(before, s + behind);
    lemma_trim_end(s, behind);
    lemma_trim_start(before, Seq::empty());
    assert(before + Seq::empty() =~= before);
}

/// Lower case changes the letters from A to Z to those 32 further, and no other
/// character.
pub proof fn law_lower_case(s: Seq<char>, i: int)
    ensures
        lower_ascii(s).len() == s.len(),
        0 <= i < s.len() && !('A' <= s[i] && s[i] <= 'Z') ==> lower_ascii(s)[i] == s[i],
        0 <= i < s.len() && 'A' <= s[i] && s[i] <= 'Z' ==> lower_ascii(s)[i] as u32 == s[i] as u32
            + 32,
        0 <= i < s.len() ==> !('A' <= lower_ascii(s)[i] && lower_ascii(s)[i] <= 'Z'),
{
}

/// Joining puts the separator between the parts and nowhere else.
pub proof fn law_joining_separates(parts: Seq<Seq<char>>, part: Seq<char>, sep: Seq<char>)
    ensures
        joined(Seq::empty(), sep).len() == 0,
        joined(seq![part], sep) == part,
        parts.len() > 0 ==> joined(parts.push(part), sep) == joined(parts, sep) + sep + part,
{
    if parts.len() > 0 {
        assert(parts.push(part).drop_last() =~= parts);
    }
}

/// Every part stands in what is joined.
pub proof fn law_joining_keeps_each_part(parts: Seq<Seq<char>>, sep: Seq<char>, i: int)
    requires
        0 <= i < parts.len(),
    ensures
        has_substring(joined(parts, sep), parts[i]),
    decreases parts.len(),
{
    let all = joined(parts, sep);
    if parts.len() == 1 {
        assert(all.subrange(0, parts[0].len() as int) =~= parts[0]);
        assert(occurs_at(all, parts[0], 0));
    } else {
        let before = joined(parts.drop_last(), sep);
        if i == parts.len() - 1 {
            let at = (before + sep).len() as int;
            assert(all.subrange(at, at + parts[i].len()) =~= parts[i]);
            assert(occurs_at(all, parts[i], at));
        } else {
            law_joining_keeps_each_part(parts.drop_last(), sep, i);
            let at = choose|at: int| #[trigger] occurs_at(before, parts[i], at);
            assert(all.subrange(at, at + parts[i].len()) =~= before.subrange(
                at,
                at + parts[i].len(),
            ));
            assert(occurs_at(all, parts[i], at));
        }
    }
}

/// Numbers that are written down are read back, as far as they fit.
pub proof fn law_numbers_are_read_back(n: nat)
    ensures
        n <= 65535 ==> parsed_u16(decimal(n)) == Some(n as int),
        n > 65535 ==> parsed_u16(decimal(n)) is None,
        n <= 2147483647 ==> parsed_i32(decimal(n)) == Some(n as int),
        0 < n <= 2147483648 ==> parsed_i32(signed_decimal(-n)) == Some(-n),
        n > 2147483648 ==> parsed_i32(decimal(n)) is None,
{
    law_written_numbers_are_read_back(n);
    assert(is_digit(decimal(n)[0]));
    assert(signed_decimal(-n).skip(1) =~= decimal(n) || n == 0);
}

/// What is no number is not read as one.
pub proof fn law_other_texts_are_no_numbers(s: Seq<char>, i: int)
    requires
        0 <= i < s.len(),
        !is_digit(s[i]),
        i > 0 || s[i] != '+' && s[i] != '-',
    ensures
        parsed_u16(s) is None,
        parsed_i32(s) is None,
{
    if i > 0 {
        assert(s.skip(1)[i - 1] == s[i]);
    }
}

/// Lines end at line breaks; a carriage return before one is no part of the line.
pub proof fn law_lines_end_at_breaks(head: Seq<char>, rest: Seq<char>)
    requires
        !head.contains('\n'),
    ensures
        lines(Seq::empty()).len() == 0,
        head.len() > 0 ==> lines(head) == seq![head],
        head.len() == 0 || head.last() != '\r' ==> lines(head + seq!['\n'] + rest) == seq![head]
            + lines(rest),
        head.len() > 0 && head.last() == '\r' ==> lines(head + seq!['\n'] + rest)
            == seq![head.drop_last()] + lines(rest),
{
    let s = head + seq!['\n'] + rest;
    let n = head.len() as int;
    assert forall|i: int| 0 <= i < n implies #[trigger] head[i] != '\n' by {
        assert(head.contains(head[i]));
    }
    assert forall|i: int| 0 <= i < n implies #[trigger] s[i] != '\n' by {
        assert(s[i] == head[i]);
    }
    lemma_char_index(s, '\n', n);
    lemma_char_index(head, '\n', n);
    assert(s.take(n) =~= head);
    assert(s.skip(n + 1) =~= rest);
}

proof fn lemma_word_len(word: Seq<char>, rest: Seq<char>)
    requires
        is_word(word),
        rest.len() > 0 ==> is_white(rest[0]),
    ensures
        word_len(word + rest) == word.len(),
    decreases word.len(),
{
    if word.len() > 0 {
        assert((word + rest).drop_first() =~= word.drop_first() + rest);
        assert((word + rest)[0] == word[0]);
        assert forall|i: int| 0 <= i < word.drop_first().len() implies !is_white(
            #[trigger] word.drop_first()[i],
        ) by {
            assert(!is_white(word[i + 1]));
        }
        lemma_word_len(word.drop_first(), rest);
    } else {
        assert(word + rest =~= rest);
    }
}

/// The second word stands between the blanks behind the first and the next blank.
pub proof fn law_second_word(
    first: Seq<char>,
    gap: Seq<char>,
    second: Seq<char>,
    rest: Seq<char>,
)
    requires
        is_word(first) && first.len() > 0,
        is_blank(gap) && gap.len() > 0,
        is_word(second) && second.len() > 0,
        rest.len() > 0 ==> is_white(rest[0]),
    ensures
        second_word(first + gap + second + rest) == Some(second),
        second_word(first + gap) is None,
{
    let s = first + gap + second + rest;
    let behind = gap + second + rest;
    assert(s =~= first + behind);
    assert(!is_white(first[0]) && !is_white(second[0]));
    assert(Seq::empty() + s =~= s);
    lemma_trim_start(Seq::empty(), s);
    assert(is_white(gap[0]));
    lemma_word_len(first, behind);
    assert(s.skip(first.len() as int) =~= gap + (second + rest));
    lemma_trim_start(gap, second + rest);
    lemma_word_len(second, rest);
    assert((second + rest).take(second.len() as int) =~= second);
    let t = first + gap;
    assert(Seq::empty() + t =~= t);
    lemma_trim_start(Seq::empty(), t);
    lemma_word_len(first, gap);
    assert(t.skip(first.len() as int) =~= gap + Seq::empty());
    lemma_trim_start(gap, Seq::empty());
}

/// Taking a character away at both ends leaves what stands between.
pub proof fn law_stripping_leaves_the_middle(n: nat, s: Seq<char>, m: nat, c: char)
    requires
        s.len() > 0,
        s[0] != c,
        s.last() != c,
    ensures
        stripped(Seq::new(n, |i: int| c) + s + Seq::new(m, |i: int| c), c) == s,
{
    let a = Seq::new(n, |i: int| c);
    let b = Seq::new(m, |i: int| c);
    assert(a + s + b =~= a + (s + b));
    lemma_strip_start(n, s + b, c);
    lemma_strip_end(s, m, c);
}

proof fn lemma_strip_start(n: nat, s: Seq<char>, c: char)
    requires
        s.len() > 0,
        s[0] != c,
    ensures
        strip_start(Seq::new(n, |i: int| c) + s, c) == s,
    decreases n,
{
    let all = Seq::new(n, |i: int| c) + s;
    if n > 0 {
        assert(all.drop_first() =~= Seq::new((n - 1) as nat, |i: int| c) + s);
        lemma_strip_start((n - 1) as nat, s, c);
    } else {
        assert(all =~= s);
    }
}

proof fn lemma_strip_end(s: Seq<char>, m: nat, c: char)
    requires
        s.len() > 0,
        s.last() != c,
    ensures
        strip_end(s + Seq::new(m, |i: int| c), c) == s,
    decreases m,
{
    let all = s + Seq::new(m, |i: int| c);
    if m > 0 {
        assert(all.drop_last() =~= s + Seq::new((m - 1) as nat, |i: int| c));
        assert(all.last() == c);
        lemma_strip_end(s, (m - 1) as nat, c);
    } else {
        assert(all =~= s);
    }
}

/// A text is padded with spaces behind it, and a longer one is kept.
pub proof fn law_padding_adds_spaces(s: Seq<char>, width: nat, i: int)
    ensures
        s.len() >= width ==> padded(s, width) == s,
        s.len() < width ==> padded(s, width).len() == width,
        0 <= i < s.len() ==> padded(s, width)[i] == s[i],
        s.len() <= i < width ==> padded(s, width)[i] == ' ',
{
}

/// What stands before a character is all up to its first occurrence.
pub proof fn law_before_a_character(head: Seq<char>, c: char, rest: Seq<char>)
    requires
        !head.contains(c),
    ensures
        before_char(head + seq![c] + rest, c) == head,
        before_char(head, c) == head,
    decreases head.len(),
{
    let s = head + seq![c] + rest;
    if head.len() > 0 {
        let tail = head.drop_first();
        assert(s.drop_first() =~= tail + seq![c] + rest);
        assert(head.contains(head[0]));
        if tail.contains(c) {
            let i = choose|i: int| 0 <= i < tail.len() && tail[i] == c;
            assert(head[i + 1] == c);
        }
        law_before_a_character(tail, c, rest);
        assert(seq![head[0]] + tail =~= head);
    } else {
        assert(before_char(s, c) =~= head);
        assert(before_char(head, c) =~= head);
    }
}

/// A character takes as many bytes as its number needs; characters of the first 128
/// take one.
pub proof fn law_bytes_of_characters(c: char, s: Seq<char>)
    ensures
        1 <= char_bytes(c) <= 4,
        (c as u32) < 128 <==> char_bytes(c) == 1,
        text_bytes(s.push(c)) == text_bytes(s) + char_bytes(c),
        text_bytes(Seq::empty()) == 0,
{
    assert(s.push(c).drop_last() =~= s);
}

} // verus!
