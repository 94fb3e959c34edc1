//! How texts are taken apart and put together, and how numbers and addresses are read and
//! written.

use vstd::prelude::*;

use crate::address;
use crate::address::{IpAddr, Ipv4Addr};
use crate::number;
use crate::text;
use crate::time::Duration;

verus! {

// Lists.

/// A list is its items with the separator between each two of them.
pub proof fn law_list_has_the_separator_between_its_items(
    parts: Seq<Seq<char>>,
    last: Seq<char>,
    sep: Seq<char>,
)
    ensures
        text::joined(Seq::empty(), sep) == Seq::<char>::empty(),
        text::joined(seq![last], sep) == last,
        parts.len() > 0 ==> text::joined(parts.push(last), sep) == text::joined(parts, sep) + sep
            + last,
{
    assert(parts.push(last).drop_last() =~= parts);
}

/// The pieces of a text, with the separator between each two of them, are the text, and
/// none of them holds the separator.
pub proof fn law_pieces_are_the_text(s: Seq<char>, sep: char)
    ensures
        text::pieces(s, sep).len() > 0,
        text::joined(text::pieces(s, sep), seq![sep]) == s,
        forall|i: int|
            0 <= i < text::pieces(s, sep).len() ==> text::lacks(
                #[trigger] text::pieces(s, sep)[i],
                sep,
            ),
    decreases s.len(),
{
    if s.len() == 0 {
        assert(text::joined(text::pieces(s, sep), seq![sep]) =~= s);
    } else {
        let front = s.drop_last();
        let before = text::pieces(front, sep);
        let all = text::pieces(s, sep);
        law_pieces_are_the_text(front, sep);
        assert(front.push(s.last()) =~= s);
        if s.last() == sep {
            assert(all.drop_last() =~= before);
            assert(text::joined(all, seq![sep]) =~= front.push(sep));
        } else {
            let last = before.last();
            let head = before.drop_last();
            assert(all.drop_last() =~= head);
            assert(all.last() == last.push(s.last()));
            if before.len() == 1 {
                assert(text::joined(before, seq![sep]) == before[0]);
                assert(text::joined(all, seq![sep]) =~= s);
            } else {
                assert(text::joined(all, seq![sep]) =~= text::joined(before, seq![sep]).push(
                    s.last(),
                ));
            }
            assert(text::lacks(before[before.len() - 1], sep));
        }
        assert forall|i: int| 0 <= i < all.len() implies text::lacks(#[trigger] all[i], sep) by {
            if i < all.len() - 1 {
                assert(all[i] == before[i]);
            }
        }
    }
}

/// A word at the end of a text, behind white space or nothing, is its last word; white
/// space at the end of a text adds none.
pub proof fn law_words_are_what_white_space_parts(s: Seq<char>, word: Seq<char>, space: char)
    requires
        s.len() == 0 || text::is_white_space(s.last()),
        word.len() > 0,
        forall|i: int| 0 <= i < word.len() ==> !text::is_white_space(#[trigger] word[i]),
        text::is_white_space(space),
    ensures
        text::words(Seq::empty()).len() == 0,
        text::words(s + word) == text::words(s).push(word),
        text::words((s + word).push(space)) == text::words(s + word),
    decreases word.len(),
{
    let whole = s + word;
    assert(whole.push(space).drop_last() =~= whole);
    assert(!text::is_white_space(word[word.len() - 1]));
    if word.len() == 1 {
        assert(whole.drop_last() =~= s);
        assert(word =~= seq![whole.last()]);
    } else {
        let front = word.drop_last();
        assert forall|i: int| 0 <= i < front.len() implies !text::is_white_space(
            #[trigger] front[i],
        ) by {
            assert(front[i] == word[i]);
        }
        law_words_are_what_white_space_parts(s, front, space);
        assert(whole.drop_last() =~= s + front);
        assert(whole[whole.len() - 2] == word[word.len() - 2]);
        assert(!text::is_white_space(word[word.len() - 2]));
        let before = text::words(s + front);
        assert(before.drop_last() =~= text::words(s));
        assert(before.last() == front);
        assert(front.push(whole.last()) =~= word);
    }
}

/// Of the ASCII characters the blank, the tabs, the line ends and the form feed are white
/// space.
pub proof fn law_ascii_white_space(c: char)
    requires
        (c as u32) < 128,
    ensures
        text::is_white_space(c) <==> c == ' ' || 9 <= c as u32 <= 13,
{
}

pub proof fn lemma_trim_end(s: Seq<char>) -> (behind: Seq<char>)
    ensures
        s == text::trim_end(s) + behind,
        text::is_blank(behind),
        text::trim_end(s).len() > 0 ==> !text::is_white_space(text::trim_end(s).last()),
    decreases s.len(),
{
    if s.len() > 0 && text::is_white_space(s.last()) {
        let rest = lemma_trim_end(s.drop_last());
        let behind = rest.push(s.last());
        assert(s =~= s.drop_last().push(s.last()));
        assert(text::trim_end(s) + behind =~= (text::trim_end(s.drop_last()) + rest).push(
            s.last(),
        ));
        assert forall|i: int| 0 <= i < behind.len() implies text::is_white_space(
            #[trigger] behind[i],
        ) by {
            if i < rest.len() {
                assert(behind[i] == rest[i]);
            }
        }
        behind
    } else {
        assert(s =~= text::trim_end(s) + Seq::<char>::empty());
        Seq::empty()
    }
}

proof fn lemma_trim_start(s: Seq<char>) -> (before: Seq<char>)
    ensures
        s == before + text::trim_start(s),
        text::is_blank(before),
        text::trim_start(s).len() > 0 ==> !text::is_white_space(text::trim_start(s)[0]),
    decreases s.len(),
{
    if s.len() > 0 && text::is_white_space(s[0]) {
        let rest = lemma_trim_start(s.skip(1));
        let before = seq![s[0]] + rest;
        assert(s =~= before + text::trim_start(s)) by {
            assert(s =~= seq![s[0]] + s.skip(1));
        }
        assert forall|i: int| 0 <= i < before.len() implies text::is_white_space(
            #[trigger] before[i],
        ) by {
            if i > 0 {
                assert(before[i] == rest[i - 1]);
            }
        }
        before
    } else {
        assert(s =~= Seq::<char>::empty() + text::trim_start(s));
        Seq::empty()
    }
}

/// A trimmed text is the text without the white space in front and behind, and neither
/// begins nor ends in white space.
pub proof fn law_trimmed_text_lacks_the_white_space_around_it(s: Seq<char>) -> (r: (
    Seq<char>,
    Seq<char>,
))
    ensures
        s == r.0 + text::trim(s) + r.1,
        text::is_blank(r.0),
        text::is_blank(r.1),
        text::trim(s).len() > 0 ==> !text::is_white_space(text::trim(s)[0])
            && !text::is_white_space(text::trim(s).last()),
{
    let before = lemma_trim_start(s);
    let behind = lemma_trim_end(text::trim_start(s));
    assert(s =~= before + text::trim(s) + behind);
    if text::trim(s).len() > 0 {
        assert(text::trim(s)[0] == text::trim_start(s)[0]);
    }
    (before, behind)
}

/// The order of texts is that of their first difference; a text comes behind the texts
/// that it begins with.
pub proof fn law_texts_are_ordered_by_their_first_difference(
    common: Seq<char>,
    a: Seq<char>,
    b: Seq<char>,
)
    ensures
        text::precedes(common + a, common + b) <==> text::precedes(a, b),
        a.len() == 0 && b.len() > 0 ==> text::precedes(a, b),
        b.len() == 0 ==> !text::precedes(a, b),
        a.len() > 0 && b.len() > 0 && a[0] != b[0] ==> (text::precedes(a, b) <==> a[0] < b[0]),
    decreases common.len(),
{
    if common.len() > 0 {
        let rest = common.skip(1);
        law_texts_are_ordered_by_their_first_difference(rest, a, b);
        assert((common + a).skip(1) =~= rest + a);
        assert((common + b).skip(1) =~= rest + b);
        assert((common + a)[0] == common[0]);
        assert((common + b)[0] == common[0]);
    } else {
        assert(common + a =~= a);
        assert(common + b =~= b);
    }
}

/// The four characters spell the placeholder, in any case.
pub open spec fn spells_todo(t: Seq<char>) -> bool {
    &&& t.len() == 4
    &&& t[0] == 'T' || t[0] == 't'
    &&& t[1] == 'O' || t[1] == 'o'
    &&& t[2] == 'D' || t[2] == 'd'
    &&& t[3] == 'O' || t[3] == 'o'
}

/// A text holds a placeholder exactly where it is spelled somewhere in it.
pub proof fn law_placeholder_is_seen_in_any_case(s: Seq<char>)
    ensures
        text::holds_todo(s) <==> exists|i: int|
            0 <= i && i + 4 <= s.len() && spells_todo(#[trigger] s.subrange(i, i + 4)),
{
    if text::holds_todo(s) {
        let i = choose|i: int| #[trigger] text::todo_at(s, i);
        let t = s.subrange(i, i + 4);
        assert(t[0] == s[i] && t[1] == s[i + 1] && t[2] == s[i + 2] && t[3] == s[i + 3]);
        assert(spells_todo(s.subrange(i, i + 4)));
    }
    if exists|i: int|
        0 <= i && i + 4 <= s.len() && spells_todo(#[trigger] s.subrange(i, i + 4)) {
        let i = choose|i: int|
            0 <= i && i + 4 <= s.len() && spells_todo(#[trigger] s.subrange(i, i + 4));
        let t = s.subrange(i, i + 4);
        assert(t[0] == s[i] && t[1] == s[i + 1] && t[2] == s[i + 2] && t[3] == s[i + 3]);
        assert(text::todo_at(s, i));
    }
}

// Numbers.

/// A number below ten is one digit; any other one is its tenth followed by its last
/// digit.
pub proof fn law_decimal_number_is_its_digits(n: nat)
    ensures
        n < 10 ==> number::decimal(n).len() == 1 && number::decimal(n)[0] as u32 == '0' as u32 + n,
        n >= 10 ==> number::decimal(n) == number::decimal(n / 10) + number::decimal(n % 10),
{
    if n >= 10 {
        assert(number::decimal(n % 10) =~= seq![number::digit(n % 10)]);
        assert(number::decimal(n) =~= number::decimal(n / 10) + number::decimal(n % 10));
    }
}

/// A text is a number exactly where it is digits, with or without a plus sign in front,
/// and the number is not too large.
pub proof fn law_number_is_read_digit_by_digit(s: Seq<char>, n: nat, max: nat)
    ensures
        number::unsigned(number::decimal(n), max) == (if n <= max {
            Some(n)
        } else {
            None
        }),
        number::unsigned(seq!['+'] + number::decimal(n), max) == (if n <= max {
            Some(n)
        } else {
            None
        }),
        number::unsigned(Seq::empty(), max) is None,
        number::unsigned(s, max) matches Some(v) ==> v <= max && s.len() > 0 && (s[0] == '+'
            || '0' <= s[0] <= '9') && forall|i: int|
            1 <= i < s.len() ==> '0' <= #[trigger] s[i] <= '9',
{
    number::law_rendered_reads_back(n, 10);
    let d = number::decimal(n);
    assert(number::digit_value(d[0], 10) is Some);
    assert((seq!['+'] + d).skip(1) =~= d);
    if number::unsigned(s, max) is Some {
        let digits = if s[0] == '+' {
            s.skip(1)
        } else {
            s
        };
        assert forall|i: int| 1 <= i < s.len() implies '0' <= #[trigger] s[i] <= '9' by {
            if s[0] == '+' {
                assert(digits[i - 1] == s[i]);
            } else {
                assert(digits[i] == s[i]);
            }
        }
    }
}

// Addresses.

/// An IPv4 address is written with its four numbers, from the first to the last, and dots
/// between them.
pub proof fn law_ipv4_address_is_its_four_numbers(v: Ipv4Addr)
    ensures
        address::shown(IpAddr::V4(v)) == number::decimal(v.a as nat) + seq!['.'] + number::decimal(
            v.b as nat,
        ) + seq!['.'] + number::decimal(v.c as nat) + seq!['.'] + number::decimal(v.d as nat),
{
    let a = number::decimal(v.a as nat);
    let b = number::decimal(v.b as nat);
    let c = number::decimal(v.c as nat);
    let d = number::decimal(v.d as nat);
    let dot = seq!['.'];
    let four = seq![a, b, c, d];
    let three = seq![a, b, c];
    let two = seq![a, b];
    let one = seq![a];
    assert(four.drop_last() =~= three);
    assert(three.drop_last() =~= two);
    assert(two.drop_last() =~= one);
    assert(text::joined(one, dot) == a);
    assert(text::joined(two, dot) == a + dot + b);
    assert(text::joined(three, dot) == a + dot + b + dot + c);
}

proof fn lemma_digit_back(c: char)
    requires
        number::digit_value(c, 10) is Some,
    ensures
        number::digit(number::digit_value(c, 10)->0) == c,
{
}

/// Digits without a zero in front are what their number is written with.
proof fn lemma_digits_are_their_number(s: Seq<char>)
    requires
        s.len() > 0,
        number::all_digits(s, 10),
        s.len() == 1 || s[0] != '0',
    ensures
        number::decimal(number::value_of(s, 10)) == s,
        s.len() > 1 ==> number::value_of(s, 10) >= 10,
        s[0] != '0' ==> number::value_of(s, 10) >= 1,
    decreases s.len(),
{
    let front = s.drop_last();
    let last = number::digit_value(s.last(), 10)->0;
    assert(number::digit_value(s[s.len() - 1], 10) is Some);
    lemma_digit_back(s.last());
    if s.len() == 1 {
        assert(front =~= Seq::empty());
        assert(number::value_of(front, 10) == 0);
        assert(number::value_of(s, 10) == last);
        assert(number::decimal(last) =~= s);
    } else {
        assert(front[0] == s[0]);
        assert forall|i: int| 0 <= i < front.len() implies number::digit_value(
            #[trigger] front[i],
            10,
        ) is Some by {
            assert(front[i] == s[i]);
        }
        lemma_digits_are_their_number(front);
        let m = number::value_of(front, 10);
        let n = number::value_of(s, 10);
        assert(n == m * 10 + last);
        assert(n / 10 == m && n % 10 == last);
        assert(number::decimal(n) =~= s);
    }
}

/// A part of an IPv4 address is read exactly where it is the digits of a number up to
/// 255, without a zero in front.
pub proof fn law_ipv4_part_is_the_digits_of_its_number(s: Seq<char>, n: u8)
    ensures
        address::octet(s) == Some(n) <==> s == number::decimal(n as nat),
{
    if address::octet(s) is Some {
        lemma_digits_are_their_number(s);
    }
    number::law_rendered_reads_back(n as nat, 10);
    let d = number::decimal(n as nat);
    if n < 10 {
        assert(d.len() == 1);
    } else if n < 100 {
        law_decimal_number_is_its_digits(n as nat);
        assert(d.len() == 2);
        assert(number::digit((n / 10) as nat) != '0');
        assert(d[0] == number::decimal((n / 10) as nat)[0]);
    } else {
        law_decimal_number_is_its_digits(n as nat);
        law_decimal_number_is_its_digits((n / 10) as nat);
        let tens = (n / 10) as nat;
        assert(number::decimal(tens).len() == 2);
        assert(d.len() == 3);
        assert(d[0] == number::decimal(tens)[0]);
        assert(number::decimal(tens)[0] == number::decimal(tens / 10)[0]);
        assert(number::digit(tens / 10) != '0');
    }
}

/// An IPv4 address has one text, and no other text is read as it.
pub proof fn law_ipv4_address_has_one_text(s: Seq<char>, v: Ipv4Addr)
    ensures
        address::ipv4_of(s) == Some(v) <==> s == address::shown(IpAddr::V4(v)),
{
    address::law_shown_reads_back(IpAddr::V4(v));
    if address::ipv4_of(s) == Some(v) {
        let p = text::pieces(s, '.');
        law_pieces_are_the_text(s, '.');
        law_ipv4_part_is_the_digits_of_its_number(p[0], v.a);
        law_ipv4_part_is_the_digits_of_its_number(p[1], v.b);
        law_ipv4_part_is_the_digits_of_its_number(p[2], v.c);
        law_ipv4_part_is_the_digits_of_its_number(p[3], v.d);
        assert(p =~= seq![
            number::decimal(v.a as nat),
            number::decimal(v.b as nat),
            number::decimal(v.c as nat),
            number::decimal(v.d as nat),
        ]);
    }
    if s == address::shown(IpAddr::V4(v)) {
        if address::ipv4_of(s) is None {
            assert(address::ip_of(s) is None || address::ip_of(s)->0 is V6);
        }
    }
}

/// A text is blank exactly where nothing is left of it without the white space around it.
pub proof fn law_blank_text_has_nothing_in_it(s: Seq<char>)
    ensures
        text::is_blank(s) <==> text::trim(s).len() == 0,
{
    let (before, behind) = law_trimmed_text_lacks_the_white_space_around_it(s);
    let middle = text::trim(s);
    if middle.len() > 0 {
        assert(s[before.len() as int] == middle[0]);
    } else {
        assert forall|i: int| 0 <= i < s.len() implies text::is_white_space(#[trigger] s[i]) by {
            if i < before.len() {
                assert(s[i] == before[i]);
            } else {
                assert(s[i] == behind[i - before.len()]);
            }
        }
    }
}

/// The characters that are white space.
pub proof fn law_white_space_is_that_of_unicode(c: char)
    ensures
        text::is_white_space(c) <==> seq![
            '\u{9}',
            '\u{a}',
            '\u{b}',
            '\u{c}',
            '\u{d}',
            ' ',
            '\u{85}',
            '\u{a0}',
            '\u{1680}',
            '\u{2000}',
            '\u{2001}',
            '\u{2002}',
            '\u{2003}',
            '\u{2004}',
            '\u{2005}',
            '\u{2006}',
            '\u{2007}',
            '\u{2008}',
            '\u{2009}',
            '\u{200a}',
            '\u{2028}',
            '\u{2029}',
            '\u{202f}',
            '\u{205f}',
            '\u{3000}',
        ].contains(c),
{
    let all = seq![
        '\u{9}',
        '\u{a}',
        '\u{b}',
        '\u{c}',
        '\u{d}',
        ' ',
        '\u{85}',
        '\u{a0}',
        '\u{1680}',
        '\u{2000}',
        '\u{2001}',
        '\u{2002}',
        '\u{2003}',
        '\u{2004}',
        '\u{2005}',
        '\u{2006}',
        '\u{2007}',
        '\u{2008}',
        '\u{2009}',
        '\u{200a}',
        '\u{2028}',
        '\u{2029}',
        '\u{202f}',
        '\u{205f}',
        '\u{3000}',
    ];
    if text::is_white_space(c) {
        let u = c as u32;
        let i: int = if u <= 13 {
            u - 9
        } else if u == 0x20 {
            5
        } else if u == 0x85 {
            6
        } else if u == 0xa0 {
            7
        } else if u == 0x1680 {
            8
        } else if u <= 0x200a {
            u - 0x2000 + 9
        } else if u == 0x2028 {
            20
        } else if u == 0x2029 {
            21
        } else if u == 0x202f {
            22
        } else if u == 0x205f {
            23
        } else {
            24
        };
        assert(all[i] == c);
    }
}

/// The first occurrence of a needle, and nothing else, is replaced.
pub proof fn law_first_occurrence_is_replaced(
    s: &str,
    needle: &str,
    by: &str,
    r: String,
    at: int,
)
    requires
        call_ensures(text::replace_first, (s, needle, by), r),
    ensures
        (text::occurs_at(s@, needle@, at) && forall|i: int|
            0 <= i < at ==> !#[trigger] text::occurs_at(s@, needle@, i)) ==> r@ == s@.take(at) + by@
            + s@.skip(at + needle@.len()),
        (forall|i: int| !#[trigger] text::occurs_at(s@, needle@, i)) ==> r@ == s@,
{
    if text::occurs_at(s@, needle@, at) && forall|i: int|
        0 <= i < at ==> !#[trigger] text::occurs_at(s@, needle@, i) {
        lemma_replaced(s@, needle@, by@, 0, at);
    }
    if forall|i: int| !#[trigger] text::occurs_at(s@, needle@, i) {
        lemma_nothing_replaced(s@, needle@, by@, 0);
    }
}

/// The first occurrence is replaced, searched from any place in front of it.
pub proof fn lemma_replaced(
    s: Seq<char>,
    needle: Seq<char>,
    by: Seq<char>,
    from: int,
    at: int,
)
    requires
        0 <= from <= at,
        text::occurs_at(s, needle, at),
        forall|i: int| 0 <= i < at ==> !#[trigger] text::occurs_at(s, needle, i),
    ensures
        text::replace_first_from(s, needle, by, from) == s.take(at) + by + s.skip(
            at + needle.len(),
        ),
    decreases at - from,
{
    if from < at {
        assert(!text::occurs_at(s, needle, from));
        lemma_replaced(s, needle, by, from + 1, at);
    }
}

proof fn lemma_nothing_replaced(s: Seq<char>, needle: Seq<char>, by: Seq<char>, from: int)
    requires
        0 <= from,
        forall|i: int| !#[trigger] text::occurs_at(s, needle, i),
    ensures
        text::replace_first_from(s, needle, by, from) == s,
    decreases s.len() - from + 1,
{
    if from + needle.len() <= s.len() {
        assert(!text::occurs_at(s, needle, from));
        lemma_nothing_replaced(s, needle, by, from + 1);
    }
}

/// The digits of a hexadecimal number, in any case.
pub proof fn law_digits_have_their_values(c: char)
    ensures
        '0' <= c <= '9' ==> number::digit_value(c, 16) == Some((c as u32 - '0' as u32) as nat)
            && number::digit_value(c, 10) == Some((c as u32 - '0' as u32) as nat),
        'a' <= c <= 'f' ==> number::digit_value(c, 16) == Some((c as u32 - 'a' as u32 + 10) as nat)
            && number::digit_value(c, 10) is None,
        'A' <= c <= 'F' ==> number::digit_value(c, 16) == Some((c as u32 - 'A' as u32 + 10) as nat)
            && number::digit_value(c, 10) is None,
        !('0' <= c <= '9') && !('a' <= c <= 'f') && !('A' <= c <= 'F') ==> number::digit_value(
            c,
            16,
        ) is None,
{
}

/// A hexadecimal number is written with small letters, its last digit last.
pub proof fn law_hexadecimal_number_is_its_digits(n: nat)
    ensures
        n < 10 ==> number::rendered(n, 16).len() == 1 && number::rendered(n, 16)[0] as u32
            == '0' as u32 + n,
        10 <= n < 16 ==> number::rendered(n, 16).len() == 1 && number::rendered(n, 16)[0] as u32
            == 'a' as u32 + n - 10,
        n >= 16 ==> number::rendered(n, 16) == number::rendered(n / 16, 16) + number::rendered(
            n % 16,
            16,
        ),
{
    if n >= 16 {
        assert(number::rendered(n % 16, 16) =~= seq![number::digit(n % 16)]);
        assert(number::rendered(n, 16) =~= number::rendered(n / 16, 16) + number::rendered(
            n % 16,
            16,
        ));
    }
}

/// What an address is written as is read as that address, and as no other one.
pub proof fn law_written_address_is_read(ip: &IpAddr, written: String, s: &str, r: Option<IpAddr>)
    requires
        call_ensures(IpAddr::to_text, (ip,), written),
        call_ensures(address::read_ip, (s,), r),
    ensures
        s@ == written@ ==> r == Some(*ip),
{
    address::law_shown_reads_back(*ip);
}

/// A minute has 60 seconds.
pub proof fn law_durations_are_in_seconds(n: u64, a: Duration, b: Duration, secs: u64)
    requires
        call_ensures(Duration::from_secs, (n,), a),
        n * 60 <= u64::MAX,
        call_ensures(Duration::from_mins, (n,), b),
        call_ensures(Duration::as_secs, (&b,), secs),
    ensures
        a.seconds() == n,
        b.seconds() == n * 60,
        secs == n * 60,
{
}

} // verus!
