//! What the provider adapters share: query encoding, numbers as text, years
//! out of dates, and descriptions without markup.

use crate::candidate::optional_text;
use crate::text::{
    chars_of, is_ascii_digit, is_digit_char, join, join_with, matches_at, occurs_at, slice,
    split, split_on, string_of, strings, texts, trim, trimmed,
};
use vstd::prelude::*;
use vstd::string::{StrSliceExecFns, StringExecFns, StringSliceAdditionalSpecFns};

verus! {

/// Bytes that a URL may hold as they are: ASCII letters and digits, `-`, `.`,
/// `_` and `~`.
pub open spec fn is_unreserved(b: u8) -> bool {
    (0x30 <= b <= 0x39) || (0x41 <= b <= 0x5A) || (0x61 <= b <= 0x7A) || b == 0x2D || b == 0x2E
        || b == 0x5F || b == 0x7E
}

/// The upper-case hexadecimal digit for a value below 16.
pub open spec fn hex_digit(d: int) -> char {
    if d < 10 {
        ((0x30 + d) as u8) as char
    } else {
        ((0x41 + d - 10) as u8) as char
    }
}

/// One byte as it stands in a URL: itself if unreserved, else `%` and two
/// hexadecimal digits.
pub open spec fn percent_encoded_byte(b: u8) -> Seq<char> {
    if is_unreserved(b) {
        seq![b as char]
    } else {
        seq!['%', hex_digit(b as int / 16), hex_digit(b as int % 16)]
    }
}

/// Bytes as they stand in a URL.
pub open spec fn percent_encoded(bytes: Seq<u8>) -> Seq<char>
    decreases bytes.len(),
{
    if bytes.len() == 0 {
        Seq::empty()
    } else {
        percent_encoded(bytes.drop_last()) + percent_encoded_byte(bytes.last())
    }
}

/// Calls `urlencoding::encode`. Trusted: every byte of the UTF-8 form of the
/// text is percent-encoded except ASCII letters, digits, `-`, `.`, `_` and
/// `~`.
#[verifier::external_body]
pub(crate) fn url_encode(s: &str) -> (r: String)
    ensures
        r@ == percent_encoded(s.spec_bytes()),
{
    urlencoding::encode(s).into_owned()
}

/// The character of a decimal digit.
pub open spec fn digit_char(d: int) -> char {
    ((0x30 + d) as u8) as char
}

/// The decimal digits of a natural number, without leading zeros.
pub open spec fn decimal_digits(n: nat) -> Seq<char>
    decreases n,
{
    if n < 10 {
        seq![digit_char(n as int)]
    } else {
        decimal_digits(n / 10).push(digit_char((n % 10) as int))
    }
}

/// A whole number in decimal, with a minus sign if it is negative.
pub open spec fn decimal_text(n: int) -> Seq<char> {
    if n < 0 {
        seq!['-'] + decimal_digits((-n) as nat)
    } else {
        decimal_digits(n as nat)
    }
}

/// Writes a number in decimal.
pub fn decimal(n: i64) -> (r: Vec<char>)
    ensures
        r@ == decimal_text(n as int),
{
    let magnitude: u64 = if n < 0 {
        (-(n as i128)) as u64
    } else {
        n as u64
    };
    let mut digits: Vec<char> = Vec::new();
    let mut rest: u64 = magnitude / 10;
    digits.push(((0x30 + (magnitude % 10)) as u8) as char);
    proof {
        assert(digits@ =~= seq![digit_char((magnitude % 10) as int)]);
        if rest == 0 {
            assert(decimal_digits(magnitude as nat) =~= digits@);
        } else {
            assert(decimal_digits(magnitude as nat) =~= decimal_digits(rest as nat) + digits@);
        }
    }
    while rest > 0
        invariant
            rest > 0 ==> decimal_digits(magnitude as nat) == decimal_digits(rest as nat) + digits@,
            rest == 0 ==> decimal_digits(magnitude as nat) == digits@,
        decreases rest,
    {
        let d: u64 = rest % 10;
        let c = ((0x30 + d) as u8) as char;
        let ghost before = digits@;
        digits.insert(0, c);
        proof {
            assert(digits@ =~= seq![digit_char(d as int)] + before);
            if rest / 10 == 0 {
                assert(decimal_digits(rest as nat) =~= seq![digit_char(d as int)]);
                assert(decimal_digits(magnitude as nat) =~= digits@);
            } else {
                assert(decimal_digits(rest as nat) =~= decimal_digits((rest / 10) as nat).push(
                    digit_char(d as int),
                ));
                assert(decimal_digits(magnitude as nat) =~= decimal_digits((rest / 10) as nat)
                    + digits@);
            }
        }
        rest = rest / 10;
    }
    if n < 0 {
        digits.insert(0, '-');
        proof {
            assert(digits@ =~= seq!['-'] + decimal_digits(magnitude as nat));
        }
    }
    digits
}

/// The value of a run of decimal digits.
pub open spec fn digits_value(s: Seq<char>) -> int
    decreases s.len(),
{
    if s.len() == 0 {
        0
    } else {
        digits_value(s.drop_last()) * 10 + (s.last() as int - 0x30)
    }
}

/// Every character is an ASCII digit.
pub open spec fn all_digits(s: Seq<char>) -> bool {
    forall|i: int| 0 <= i < s.len() ==> is_digit_char(#[trigger] s[i])
}

/// The number that a short text spells: an optional sign and then digits, at
/// least one, and nothing else.
pub open spec fn signed_number(s: Seq<char>) -> Option<int> {
    if s.len() == 0 {
        None
    } else if s[0] == '+' || s[0] == '-' {
        let digits = s.skip(1);
        if digits.len() > 0 && all_digits(digits) {
            if s[0] == '-' {
                Some(-digits_value(digits))
            } else {
                Some(digits_value(digits))
            }
        } else {
            None
        }
    } else if all_digits(s) {
        Some(digits_value(s))
    } else {
        None
    }
}

/// The first four characters of a text, or all of it if it is shorter.
pub open spec fn year_prefix(s: Seq<char>) -> Seq<char> {
    if s.len() <= 4 {
        s
    } else {
        s.take(4)
    }
}

/// The year that a date begins with: the number that its first four
/// characters spell, if they spell one.
pub open spec fn year_of(date: Seq<char>) -> Option<int> {
    signed_number(year_prefix(date))
}

/// A run of up to four digits spells a number below ten thousand.
pub proof fn lemma_digits_value_bounds(s: Seq<char>)
    requires
        all_digits(s),
    ensures
        0 <= digits_value(s),
        s.len() <= 4 ==> digits_value(s) <= 9999,
        s.len() <= 3 ==> digits_value(s) <= 999,
        s.len() <= 2 ==> digits_value(s) <= 99,
        s.len() <= 1 ==> digits_value(s) <= 9,
    decreases s.len(),
{
    if s.len() > 0 {
        assert(all_digits(s.drop_last())) by {
            assert forall|i: int| 0 <= i < s.drop_last().len() implies is_digit_char(
                #[trigger] s.drop_last()[i],
            ) by {
                assert(s.drop_last()[i] == s[i]);
            }
        }
        lemma_digits_value_bounds(s.drop_last());
        assert(is_digit_char(s[s.len() - 1]));
    }
}

/// Reads the year that a date begins with.
pub fn year_from_date(date: &str) -> (year: Option<i32>)
    ensures
        match year {
            Some(y) => year_of(date@) == Some(y as int),
            None => year_of(date@) is None,
        },
{
    let all = chars_of(date);
    let end: usize = if all.len() <= 4 {
        all.len()
    } else {
        4
    };
    let head = slice(&all, 0, end);
    proof {
        assert(head@ =~= year_prefix(date@));
    }
    if head.len() == 0 {
        return None;
    }
    let signed = head[0] == '+' || head[0] == '-';
    let start: usize = if signed {
        1
    } else {
        0
    };
    if start == head.len() {
        return None;
    }
    let ghost digits = head@.skip(start as int);
    let mut value: i32 = 0;
    let mut i: usize = start;
    proof {
        assert(digits.take(0) =~= Seq::<char>::empty());
    }
    while i < head.len()
        invariant
            start <= i <= head.len() <= 4,
            head.len() > 0,
            head@ == year_prefix(date@),
            signed == (head@[0] == '+' || head@[0] == '-'),
            start == (if signed { 1int } else { 0int }),
            digits == head@.skip(start as int),
            all_digits(digits.take(i - start)),
            value == digits_value(digits.take(i - start)),
            0 <= value <= 9999,
        decreases head.len() - i,
    {
        let c = head[i];
        let ghost sofar = digits.take(i - start);
        let ghost next = digits.take(i - start + 1);
        proof {
            assert(next.drop_last() =~= sofar);
            assert(next.last() == c);
        }
        if !is_ascii_digit(c) {
            proof {
                assert(!is_digit_char(digits[i - start]));
                assert(digits[i - start] == head@[i as int]);
            }
            return None;
        }
        proof {
            assert(all_digits(next)) by {
                assert forall|k: int| 0 <= k < next.len() implies is_digit_char(
                    #[trigger] next[k],
                ) by {
                    if k < sofar.len() {
                        assert(sofar[k] == next[k]);
                    }
                }
            }
            lemma_digits_value_bounds(sofar);
            lemma_digits_value_bounds(next);
        }
        value = value * 10 + ((c as u32 - 0x30) as i32);
        i += 1;
    }
    proof {
        assert(digits.take(head.len() - start) =~= digits);
        if !signed {
            assert(digits =~= head@);
        }
    }
    if signed && head[0] == '-' {
        Some(-value)
    } else {
        Some(value)
    }
}

/// A text without what stands between `<` and `>`; `in_tag` says whether the
/// text begins inside a tag.
pub open spec fn tags_removed(s: Seq<char>, in_tag: bool) -> Seq<char>
    decreases s.len(),
{
    if s.len() == 0 {
        Seq::empty()
    } else if s[0] == '<' {
        tags_removed(s.drop_first(), true)
    } else if s[0] == '>' {
        tags_removed(s.drop_first(), false)
    } else if in_tag {
        tags_removed(s.drop_first(), true)
    } else {
        seq![s[0]] + tags_removed(s.drop_first(), false)
    }
}

/// `hay` with each occurrence of `pattern` replaced by `replacement`, the
/// occurrences taken from left to right without overlap.
pub open spec fn replaced(hay: Seq<char>, pattern: Seq<char>, replacement: Seq<char>) -> Seq<char> {
    join_with(split_on(hay, pattern), replacement)
}

/// A description without markup: tags removed, each written-out `\n`
/// replaced by a space, and the ends trimmed.
pub open spec fn without_html(s: Seq<char>) -> Seq<char> {
    trimmed(replaced(tags_removed(s, false), seq!['\\', 'n'], seq![' ']))
}

/// Removes markup from a description.
pub fn strip_html(s: &str) -> (r: String)
    ensures
        r@ == without_html(s@),
{
    let all = chars_of(s);
    let mut out: Vec<char> = Vec::new();
    let mut in_tag = false;
    let mut i: usize = 0;
    proof {
        assert(all@.skip(0) =~= all@);
        assert(out@ + tags_removed(all@, false) =~= tags_removed(all@, false));
    }
    while i < all.len()
        invariant
            i <= all.len(),
            tags_removed(all@, false) == out@ + tags_removed(all@.skip(i as int), in_tag),
        decreases all.len() - i,
    {
        let c = all[i];
        let ghost rest = all@.skip(i as int);
        let ghost before = out@;
        proof {
            assert(rest.drop_first() =~= all@.skip(i as int + 1));
            assert(rest[0] == c);
        }
        if c == '<' {
            in_tag = true;
        } else if c == '>' {
            in_tag = false;
        } else if !in_tag {
            out.push(c);
            proof {
                assert(out@ + tags_removed(rest.drop_first(), false) =~= before + (seq![c]
                    + tags_removed(rest.drop_first(), false)));
            }
        }
        i += 1;
    }
    proof {
        assert(out@ + Seq::<char>::empty() =~= out@);
    }
    let mut pattern: Vec<char> = Vec::new();
    pattern.push('\\');
    pattern.push('n');
    let mut space: Vec<char> = Vec::new();
    space.push(' ');
    proof {
        assert(pattern@ =~= seq!['\\', 'n']);
        assert(space@ =~= seq![' ']);
    }
    let pieces = split(&out, &pattern);
    let joined = join(&pieces, &space);
    let t = trim(&joined);
    string_of(&t)
}

/// The trimmed form of a string.
pub fn trimmed_string(s: &str) -> (r: String)
    ensures
        r@ == trimmed(s@),
{
    let all = chars_of(s);
    let t = trim(&all);
    string_of(&t)
}

/// Whether a text is empty or whitespace only.
pub open spec fn is_blank(s: Seq<char>) -> bool {
    trimmed(s).len() == 0
}

/// Whether a text is empty or whitespace only.
pub fn blank(s: &str) -> (r: bool)
    ensures
        r == is_blank(s@),
{
    let all = chars_of(s);
    trim(&all).len() == 0
}

/// Whether `s` is one of `list`.
pub fn has_string(list: &Vec<String>, s: &String) -> (r: bool)
    ensures
        r == strings(list@).contains(s@),
{
    let mut i: usize = 0;
    while i < list.len()
        invariant
            i <= list.len(),
            forall|k: int| 0 <= k < i ==> (#[trigger] strings(list@)[k]) != s@,
        decreases list.len() - i,
    {
        if list[i] == *s {
            proof {
                assert(strings(list@)[i as int] == s@);
            }
            return true;
        }
        i += 1;
    }
    false
}

/// `alts` with the trimmed `t` at its end, unless there is no `t`, or it is
/// blank, or `alts` holds it already.
pub open spec fn with_alternative(alts: Seq<Seq<char>>, t: Option<Seq<char>>) -> Seq<Seq<char>> {
    match t {
        Some(s) => if trimmed(s).len() > 0 && !alts.contains(trimmed(s)) {
            alts.push(trimmed(s))
        } else {
            alts
        },
        None => alts,
    }
}

/// Adds an alternative title.
pub fn push_alternative(alts: &mut Vec<String>, t: &Option<String>)
    ensures
        strings(final(alts)@) == with_alternative(strings(old(alts)@), optional_text(*t)),
{
    match t {
        Some(s) => {
            let u = trimmed_string(s.as_str());
            if u.as_str().unicode_len() > 0 && !has_string(alts, &u) {
                proof {
                    crate::text::lemma_strings_push(alts@, u);
                }
                alts.push(u);
            }
        },
        None => {},
    }
}

/// `first` followed by `second`.
pub fn concat(first: &str, second: &str) -> (r: String)
    ensures
        r@ == first@ + second@,
{
    let mut r = first.to_owned();
    r.append(second);
    r
}

/// `s` without `prefix` at its front, as often as it stands there.
pub open spec fn without_leading(s: Seq<char>, prefix: Seq<char>) -> Seq<char>
    decreases s.len(),
{
    if prefix.len() > 0 && occurs_at(prefix, s, 0) {
        without_leading(s.skip(prefix.len() as int), prefix)
    } else {
        s
    }
}

/// Removes `prefix` from the front of `s` as often as it stands there.
pub fn trim_start_matches(s: &str, prefix: &str) -> (r: String)
    ensures
        r@ == without_leading(s@, prefix@),
{
    let all = chars_of(s);
    let p = chars_of(prefix);
    if p.len() == 0 {
        return string_of(&all);
    }
    let mut start: usize = 0;
    proof {
        assert(all@.skip(0) =~= all@);
    }
    while matches_at(&p, &all, start)
        invariant
            start <= all.len(),
            p.len() > 0,
            p@ == prefix@,
            all@ == s@,
            without_leading(s@, prefix@) == without_leading(all@.skip(start as int), p@),
        decreases all.len() - start,
    {
        proof {
            let rest = all@.skip(start as int);
            assert(rest.subrange(0, p.len() as int) =~= all@.subrange(
                start as int,
                start + p.len(),
            ));
            assert(rest.skip(p.len() as int) =~= all@.skip(start + p.len()));
        }
        start += p.len();
    }
    proof {
        let rest = all@.skip(start as int);
        if start + p.len() <= all.len() {
            assert(rest.subrange(0, p.len() as int) =~= all@.subrange(
                start as int,
                start + p.len(),
            ));
        }
    }
    let kept = slice(&all, start, all.len());
    proof {
        assert(kept@ =~= all@.skip(start as int));
    }
    string_of(&kept)
}

/// Writes the strings one after another with `sep` between neighbours.
pub fn join_strings(list: &Vec<String>, sep: &str) -> (r: String)
    ensures
        r@ == join_with(strings(list@), sep@),
{
    let mut parts: Vec<Vec<char>> = Vec::new();
    let mut i: usize = 0;
    while i < list.len()
        invariant
            i <= list.len(),
            parts.len() == i,
            forall|k: int| 0 <= k < i ==> (#[trigger] parts@[k])@ == list@[k]@,
        decreases list.len() - i,
    {
        parts.push(chars_of(list[i].as_str()));
        i += 1;
    }
    proof {
        assert(texts(parts@) =~= strings(list@));
    }
    let s = chars_of(sep);
    let joined = join(&parts, &s);
    string_of(&joined)
}

} // verus!
