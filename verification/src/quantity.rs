//! Resource quantities: how they are written, and how memory is shown.
use vstd::prelude::*;
use crate::age::Timestamp;
use crate::data::{node_info, shows_node, NodeInfo};
use crate::objects::{copy_or_empty, text_or, Node};
use crate::scan::{char_index, cut_at, lemma_char_index_bound};
use crate::text::{
    all_digits, chars_of, decimal, decimal_u64, digits_value, is_digit, is_white, parse_digits,
    text_between, trim, trim_end, trim_start, trimmed,
};

verus! {

/// What a quantity's number is multiplied by.
#[derive(Debug, Clone, Copy, PartialEq, Eq, Structural)]
pub enum Scale {
    Tebi,
    Gibi,
    Mebi,
    Kibi,
    One,
    Milli,
    Nano,
}

/// Whether a text ends with two characters.
pub open spec fn ends_with_pair(s: Seq<char>, a: char, b: char) -> bool {
    s.len() >= 2 && s[s.len() - 2] == a && s[s.len() - 1] == b
}

/// Whether a text ends with a character.
pub open spec fn ends_with_char(s: Seq<char>, c: char) -> bool {
    s.len() >= 1 && s[s.len() - 1] == c
}

/// The scale of a quantity, by what it ends with.
pub open spec fn scale_of(s: Seq<char>) -> Scale {
    if ends_with_pair(s, 'T', 'i') {
        Scale::Tebi
    } else if ends_with_pair(s, 'G', 'i') {
        Scale::Gibi
    } else if ends_with_pair(s, 'M', 'i') {
        Scale::Mebi
    } else if ends_with_pair(s, 'K', 'i') {
        Scale::Kibi
    } else if ends_with_char(s, 'n') {
        Scale::Nano
    } else if ends_with_char(s, 'm') {
        Scale::Milli
    } else {
        Scale::One
    }
}

/// How many characters a scale is written with.
pub open spec fn suffix_len(scale: Scale) -> int {
    match scale {
        Scale::One => 0,
        Scale::Nano => 1,
        Scale::Milli => 1,
        _ => 2,
    }
}

/// The number of a quantity, without its scale.
pub open spec fn number_of(s: Seq<char>) -> Seq<char> {
    s.take(s.len() - suffix_len(scale_of(s)))
}

/// The scale of a quantity.
fn find_scale(v: &Vec<char>) -> (r: Scale)
    ensures
        r == scale_of(v@),
{
    let n: usize = v.len();
    if n >= 2 && v[n - 1] == 'i' {
        let c = v[n - 2];
        if c == 'T' {
            return Scale::Tebi;
        } else if c == 'G' {
            return Scale::Gibi;
        } else if c == 'M' {
            return Scale::Mebi;
        } else if c == 'K' {
            return Scale::Kibi;
        }
    }
    if n >= 1 && v[n - 1] == 'n' {
        Scale::Nano
    } else if n >= 1 && v[n - 1] == 'm' {
        Scale::Milli
    } else {
        Scale::One
    }
}

/// How many characters a scale is written with.
fn count_suffix(scale: Scale) -> (r: usize)
    ensures
        r == suffix_len(scale),
{
    match scale {
        Scale::One => 0,
        Scale::Nano => 1,
        Scale::Milli => 1,
        _ => 2,
    }
}

/// Parts a quantity into its number and its scale. Blanks around it do not
/// count; an empty quantity has neither.
pub fn split_quantity(s: &str) -> (r: Option<(String, Scale)>)
    ensures
        ({
            let t = trimmed(s@);
            if t.len() == 0 {
                r is None
            } else {
                r matches Some((number, scale)) && number@ == number_of(t) && scale == scale_of(t)
            }
        }),
{
    let t = trim(s);
    if t.as_str().is_empty() {
        return None;
    }
    let v = chars_of(t.as_str());
    let scale = find_scale(&v);
    let end: usize = v.len() - count_suffix(scale);
    proof {
        assert(v@.subrange(0, end as int) =~= number_of(t@));
    }
    Some((text_between(&v, 0, end), scale))
}

// ---------------------------------------------------------------------------
// Memory
// ---------------------------------------------------------------------------

/// The number of bytes up to which whole numbers are told apart.
pub const MAX_BYTES: u64 = 0x20_0000_0000_0000;

/// A tebibyte.
pub const TIB: u64 = 0x100_0000_0000;

/// A gibibyte.
pub const GIB: u64 = 0x4000_0000;

/// A mebibyte.
pub const MIB: u64 = 0x10_0000;

/// A kibibyte.
pub const KIB: u64 = 0x400;

/// How many bytes one of a scale is.
pub open spec fn bytes_per(scale: Scale) -> nat {
    match scale {
        Scale::Tebi => TIB as nat,
        Scale::Gibi => GIB as nat,
        Scale::Mebi => MIB as nat,
        Scale::Kibi => KIB as nat,
        _ => 1,
    }
}

/// The nearest number of tenths, the even one of two that are as near.
pub open spec fn tenths(bytes: nat, unit: nat) -> nat {
    let t = 10 * bytes / unit;
    let rest = 10 * bytes % unit;
    if 2 * rest > unit || (2 * rest == unit && t % 2 == 1) {
        t + 1
    } else {
        t
    }
}

/// An amount in a unit: a whole number where it is less than a twentieth away
/// from one, else with one decimal.
pub open spec fn in_unit(bytes: nat, unit: nat) -> Seq<char> {
    let rest = bytes % unit;
    if 20 * rest < unit {
        decimal(bytes / unit)
    } else if 20 * (unit - rest) < unit {
        decimal(bytes / unit + 1)
    } else {
        decimal(tenths(bytes, unit) / 10) + "."@ + decimal(tenths(bytes, unit) % 10)
    }
}

/// An amount of memory in the largest unit of which it is one or more.
pub open spec fn memory_text(bytes: nat) -> Seq<char> {
    if bytes >= TIB {
        in_unit(bytes, TIB as nat) + "Ti"@
    } else if bytes >= GIB {
        in_unit(bytes, GIB as nat) + "Gi"@
    } else if bytes >= MIB {
        in_unit(bytes, MIB as nat) + "Mi"@
    } else if bytes >= KIB {
        in_unit(bytes, KIB as nat) + "Ki"@
    } else {
        decimal(bytes) + "B"@
    }
}

/// An amount in a unit.
fn write_in_unit(bytes: u64, unit: u64) -> (r: String)
    requires
        0 < unit <= TIB,
        bytes <= MAX_BYTES,
    ensures
        r@ == in_unit(bytes as nat, unit as nat),
{
    let rest: u64 = bytes % unit;
    if 20 * rest < unit {
        return decimal_u64(bytes / unit);
    }
    if 20 * (unit - rest) < unit {
        return decimal_u64(bytes / unit + 1);
    }
    let t: u64 = 10 * bytes / unit;
    let left: u64 = 10 * bytes % unit;
    let rounded: u64 = if 2 * left > unit || (2 * left == unit && t % 2 == 1) {
        t + 1
    } else {
        t
    };
    let mut out = decimal_u64(rounded / 10);
    out.append(".");
    out.append(decimal_u64(rounded % 10).as_str());
    out
}

/// Writes an amount of memory in the largest unit of which it is one or more.
pub fn format_bytes(bytes: u64) -> (r: String)
    requires
        bytes <= MAX_BYTES,
    ensures
        r@ == memory_text(bytes as nat),
{
    if bytes >= TIB {
        let mut out = write_in_unit(bytes, TIB);
        out.append("Ti");
        out
    } else if bytes >= GIB {
        let mut out = write_in_unit(bytes, GIB);
        out.append("Gi");
        out
    } else if bytes >= MIB {
        let mut out = write_in_unit(bytes, MIB);
        out.append("Mi");
        out
    } else if bytes >= KIB {
        let mut out = write_in_unit(bytes, KIB);
        out.append("Ki");
        out
    } else {
        let mut out = decimal_u64(bytes);
        out.append("B");
        out
    }
}

/// A power of ten.
pub open spec fn pow10(n: nat) -> nat
    decreases n,
{
    if n == 0 {
        1
    } else {
        10 * pow10((n - 1) as nat)
    }
}

/// The digits of a decimal number without its point, and how many of them stand
/// behind the point. There are nine at most behind the point, and the digits make a
/// number that is told apart from its neighbours.
pub open spec fn decimal_parts(number: Seq<char>) -> Option<(nat, nat)> {
    let point = char_index(number, '.');
    let before = number.take(point);
    let behind = number.skip(point + 1);
    if point >= number.len() {
        if all_digits(number) && digits_value(number) <= MAX_BYTES {
            Some((digits_value(number), 0))
        } else {
            None
        }
    } else if all_digits(before) && all_digits(behind) && behind.len() <= 9 && digits_value(
        before + behind,
    ) <= MAX_BYTES {
        Some((digits_value(before + behind), behind.len()))
    } else {
        None
    }
}

/// The bytes of an amount, where its number is decimal and makes a whole number of
/// bytes that is told apart from its neighbours. Such a number is a sum of powers
/// of two, so that nothing is lost in computing with it.
pub open spec fn whole_bytes(number: Seq<char>, scale: Scale) -> Option<nat> {
    match decimal_parts(number) {
        Some((digits, places)) => {
            let scaled = digits * bytes_per(scale);
            if scaled % pow10(places) == 0 && scaled / pow10(places) <= MAX_BYTES {
                Some(scaled / pow10(places))
            } else {
                None
            }
        },
        None => None,
    }
}

/// Whether a decimal number is less than a kibibyte.
pub open spec fn is_small(number: Seq<char>) -> bool {
    match decimal_parts(number) {
        Some((digits, places)) => digits < KIB * pow10(places),
        None => false,
    }
}

/// Whether a character occurs in numbers with fractions, exponents and signs.
pub open spec fn in_fraction(c: char) -> bool {
    is_digit(c) || c == '.' || c == '+' || c == '-' || c == 'e' || c == 'E' || c == 'i' || c == 'I'
        || c == 'n' || c == 'N' || c == 'f' || c == 'F' || c == 't' || c == 'T' || c == 'y' || c
        == 'Y' || c == 'a' || c == 'A'
}

/// Whether a text may be a number that is not whole.
pub open spec fn may_be_fraction(number: Seq<char>) -> bool {
    number.len() > 0 && forall|i: int| 0 <= i < number.len() ==> in_fraction(#[trigger] number[i])
}

/// How an amount of memory is shown; nothing where that takes floating-point
/// numbers. What is empty is not available; a processor quantity, a small
/// number, and what is no quantity stay as they are.
pub open spec fn shown_memory(s: Seq<char>) -> Option<Seq<char>> {
    let t = trimmed(s);
    let scale = scale_of(t);
    let number = number_of(t);
    if t.len() == 0 {
        Some("N/A"@)
    } else if scale == Scale::Nano || scale == Scale::Milli {
        Some(t)
    } else if scale == Scale::One && is_small(number) {
        Some(t)
    } else if whole_bytes(number, scale) is Some {
        Some(memory_text(whole_bytes(number, scale)->0))
    } else if may_be_fraction(number) {
        None
    } else {
        Some(t)
    }
}

fn find_bytes_per(scale: Scale) -> (r: u64)
    ensures
        r == bytes_per(scale),
        1 <= r <= TIB,
{
    match scale {
        Scale::Tebi => TIB,
        Scale::Gibi => GIB,
        Scale::Mebi => MIB,
        Scale::Kibi => KIB,
        _ => 1,
    }
}

fn maybe_fraction(v: &Vec<char>) -> (r: bool)
    ensures
        r == may_be_fraction(v@),
{
    if v.len() == 0 {
        return false;
    }
    let mut i: usize = 0;
    while i < v.len()
        invariant
            i <= v@.len(),
            v@.len() > 0,
            forall|k: int| 0 <= k < i ==> in_fraction(#[trigger] v@[k]),
        decreases v@.len() - i,
    {
        let c = v[i];
        let fits = ('0' <= c && c <= '9') || c == '.' || c == '+' || c == '-' || c == 'e' || c
            == 'E' || c == 'i' || c == 'I' || c == 'n' || c == 'N' || c == 'f' || c == 'F' || c
            == 't' || c == 'T' || c == 'y' || c == 'Y' || c == 'a' || c == 'A';
        if !fits {
            proof {
                assert(!in_fraction(v@[i as int]));
            }
            return false;
        }
        i += 1;
    }
    true
}

/// No power of ten is zero.
proof fn lemma_pow10_positive(n: nat)
    ensures
        pow10(n) >= 1,
    decreases n,
{
    if n > 0 {
        lemma_pow10_positive((n - 1) as nat);
    }
}

/// A power of ten.
fn find_pow10(n: usize) -> (r: u64)
    requires
        n <= 9,
    ensures
        r == pow10(n as nat),
        1 <= r <= 1_000_000_000,
{
    let mut r: u64 = 1;
    let mut i: usize = 0;
    proof {
        reveal_with_fuel(pow10, 10);
    }
    while i < n
        invariant
            i <= n <= 9,
            r == pow10(i as nat),
            r * pow10((9 - i) as nat) == 1_000_000_000,
            1 <= r <= 1_000_000_000,
        decreases n - i,
    {
        proof {
            let rest = pow10((8 - i) as nat);
            lemma_pow10_positive((8 - i) as nat);
            assert(pow10((9 - i) as nat) == 10 * rest);
            assert(r * (10 * rest) == (10 * r) * rest) by (nonlinear_arith);
            assert(10 * r <= 1_000_000_000) by (nonlinear_arith)
                requires
                    (10 * r) * rest == 1_000_000_000,
                    rest >= 1,
            ;
        }
        r = 10 * r;
        i += 1;
    }
    r
}

/// Reads a decimal number.
fn read_decimal(number: &str) -> (r: Option<(u64, usize)>)
    ensures
        match decimal_parts(number@) {
            Some((digits, places)) => r matches Some((n, d)) && n == digits && d == places && n
                <= MAX_BYTES && d <= 9,
            None => r is None,
        },
{
    let (before, behind) = cut_at(number, '.');
    proof {
        lemma_char_index_bound(number@, '.');
    }
    match behind {
        None => {
            let v = chars_of(number);
            proof {
                assert(v@.subrange(0, v@.len() as int) =~= number@);
            }
            match parse_digits(&v, 0, MAX_BYTES) {
                Some(n) => Some((n, 0)),
                None => None,
            }
        },
        Some(tail) => {
            let places: usize = chars_of(tail.as_str()).len();
            if before.as_str().is_empty() || places == 0 || places > 9 {
                return None;
            }
            let ghost a = before@;
            let ghost b = tail@;
            let mut all = before;
            all.append(tail.as_str());
            let v = chars_of(all.as_str());
            proof {
                assert(v@.subrange(0, v@.len() as int) =~= a + b);
                if all_digits(a + b) {
                    assert forall|i: int| 0 <= i < a.len() implies is_digit(#[trigger] a[i]) by {
                        assert(is_digit((a + b)[i]));
                    }
                    assert forall|i: int| 0 <= i < b.len() implies is_digit(#[trigger] b[i]) by {
                        assert(is_digit((a + b)[a.len() + i]));
                    }
                }
            }
            match parse_digits(&v, 0, MAX_BYTES) {
                Some(n) => Some((n, places)),
                None => None,
            }
        },
    }
}

/// The bytes of an amount, where they are a whole number.
fn find_whole_bytes(digits: u64, places: usize, scale: Scale) -> (r: Option<u64>)
    requires
        digits <= MAX_BYTES,
        places <= 9,
    ensures
        ({
            let scaled = digits as nat * bytes_per(scale);
            if scaled % pow10(places as nat) == 0 && scaled / pow10(places as nat) <= MAX_BYTES {
                r matches Some(b) && b == scaled / pow10(places as nat) && b <= MAX_BYTES
            } else {
                r is None
            }
        }),
{
    let per: u64 = find_bytes_per(scale);
    let ten: u64 = find_pow10(places);
    proof {
        assert(digits * per <= 0x20_0000_0000_0000 * 0x100_0000_0000) by (nonlinear_arith)
            requires
                digits <= 0x20_0000_0000_0000,
                per <= 0x100_0000_0000,
        ;
    }
    let scaled: u128 = digits as u128 * per as u128;
    if scaled % ten as u128 == 0 && scaled / ten as u128 <= MAX_BYTES as u128 {
        Some((scaled / ten as u128) as u64)
    } else {
        None
    }
}

/// Shows an amount of memory in a readable unit. `otherwise` says how it is shown
/// where that takes floating-point numbers.
pub fn format_k8s_memory(s: &str, otherwise: &str) -> (r: String)
    ensures
        r@ == memory_display(s@, otherwise@),
{
    let t = trim(s);
    if t.as_str().is_empty() {
        return "N/A".to_owned();
    }
    let v = chars_of(t.as_str());
    let scale = find_scale(&v);
    match scale {
        Scale::Nano => {
            return t;
        },
        Scale::Milli => {
            return t;
        },
        _ => {},
    }
    let end: usize = v.len() - count_suffix(scale);
    let number = text_between(&v, 0, end);
    proof {
        assert(v@.subrange(0, end as int) =~= number_of(t@));
    }
    if let Some((digits, places)) = read_decimal(number.as_str()) {
        let plain = match scale {
            Scale::One => true,
            _ => false,
        };
        let ten: u64 = find_pow10(places);
        if plain && digits < KIB * ten {
            return t;
        }
        if let Some(bytes) = find_whole_bytes(digits, places, scale) {
            return format_bytes(bytes);
        }
    }
    if maybe_fraction(&chars_of(number.as_str())) {
        otherwise.to_owned()
    } else {
        t
    }
}

/// How an amount of memory is shown, given how it is shown where that takes
/// floating-point numbers.
pub open spec fn memory_display(s: Seq<char>, otherwise: Seq<char>) -> Seq<char> {
    match shown_memory(s) {
        Some(t) => t,
        None => otherwise,
    }
}

/// The memory of a node.
pub open spec fn node_memory(node: Node) -> Seq<char> {
    match node.status {
        Some(s) => text_or(s.mem_capacity, Seq::empty()),
        None => Seq::empty(),
    }
}

/// The memory of a node that pods can have.
pub open spec fn node_free_memory(node: Node) -> Seq<char> {
    match node.status {
        Some(s) => text_or(s.mem_allocatable, Seq::empty()),
        None => Seq::empty(),
    }
}

/// Makes a node's row, given how its memory and what of it pods can have are
/// shown where that takes floating-point numbers.
pub fn node_row(node: &Node, memory: &str, free_memory: &str, now: Timestamp) -> (r: NodeInfo)
    requires
        now.in_range(),
        node.meta.usable(),
    ensures
        shows_node(
            r,
            *node,
            memory_display(node_memory(*node), memory@),
            memory_display(node_free_memory(*node), free_memory@),
            now,
        ),
{
    let (capacity, allocatable) = match &node.status {
        Some(s) => (copy_or_empty(&s.mem_capacity), copy_or_empty(&s.mem_allocatable)),
        None => (String::new(), String::new()),
    };
    node_info(
        node,
        format_k8s_memory(capacity.as_str(), memory).as_str(),
        format_k8s_memory(allocatable.as_str(), free_memory).as_str(),
        now,
    )
}

/// Trimming at the end keeps how a text begins, unless nothing is left.
proof fn lemma_trim_end(s: Seq<char>)
    ensures
        trim_end(s).len() <= s.len(),
        trim_end(s).len() > 0 ==> trim_end(s)[0] == s[0] && !is_white(trim_end(s).last()),
    decreases s.len(),
{
    if s.len() > 0 && is_white(s.last()) {
        lemma_trim_end(s.drop_last());
    }
}

/// What is left after trimming at the start does not begin with a blank.
proof fn lemma_trim_start(s: Seq<char>)
    ensures
        trim_start(s).len() > 0 ==> !is_white(trim_start(s)[0]),
    decreases s.len(),
{
    if s.len() > 0 && is_white(s[0]) {
        lemma_trim_start(s.drop_first());
    }
}

/// Blanks around a quantity make no difference to how it is shown.
pub proof fn law_blanks_do_not_count(s: Seq<char>)
    ensures
        shown_memory(trimmed(s)) == shown_memory(s),
{
    lemma_trim_start(s);
    lemma_trim_end(trim_start(s));
    assert(trimmed(trimmed(s)) == trimmed(s));
}

} // verus!
