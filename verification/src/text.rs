//! Character sequences: white space, splitting, ordering and searching.

use vstd::prelude::*;

verus! {

/// Appends one character to a `String`.
///
/// Trusted: `String::push` leaves the text that was there and adds `c` behind it.
pub assume_specification[ String::push ](s: &mut String, c: char)
    ensures
        final(s)@ == old(s)@.push(c),
;

/// The characters of `s`, in order.
pub fn chars_of(s: &str) -> (r: Vec<char>)
    ensures
        r@ == s@,
{
    let mut v: Vec<char> = Vec::new();
    for c in it: s.chars()
        invariant
            v@ == it.seq().take(it.index()),
            it.seq() == s@,
    {
        proof {
            assert(it.seq().take(it.index() + 1) == it.seq().take(it.index()).push(c));
        }
        v.push(c);
    }
    proof {
        assert(s@.take(s@.len() as int) == s@);
    }
    v
}

/// The text made of `chars`.
pub fn string_of(chars: &Vec<char>) -> (r: String)
    ensures
        r@ == chars@,
{
    let mut s = String::new();
    let mut i: usize = 0;
    while i < chars.len()
        invariant
            i <= chars.len(),
            s@ == chars@.take(i as int),
        decreases chars.len() - i,
    {
        proof {
            assert(chars@.take(i + 1) == chars@.take(i as int).push(chars@[i as int]));
        }
        s.push(chars[i]);
        i = i + 1;
    }
    proof {
        assert(chars@.take(chars@.len() as int) == chars@);
    }
    s
}

/// The characters of `chars` from `from` up to but excluding `to`.
pub fn slice_of(chars: &Vec<char>, from: usize, to: usize) -> (r: Vec<char>)
    requires
        from <= to <= chars.len(),
    ensures
        r@ == chars@.subrange(from as int, to as int),
{
    let mut out: Vec<char> = Vec::new();
    let mut i: usize = from;
    while i < to
        invariant
            from <= i <= to <= chars.len(),
            out@ == chars@.subrange(from as int, i as int),
        decreases to - i,
    {
        proof {
            assert(chars@.subrange(from as int, i + 1) == chars@.subrange(
                from as int,
                i as int,
            ).push(chars@[i as int]));
        }
        out.push(chars[i]);
        i = i + 1;
    }
    out
}

/// Whether two texts hold the same characters.
pub fn same(a: &str, b: &str) -> (r: bool)
    ensures
        r == (a@ == b@),
{
    a.to_owned() == b.to_owned()
}

/// Whether two character sequences are equal.
pub fn same_chars(a: &Vec<char>, b: &Vec<char>) -> (r: bool)
    ensures
        r == (a@ == b@),
{
    if a.len() != b.len() {
        return false;
    }
    let mut i: usize = 0;
    while i < a.len()
        invariant
            i <= a.len(),
            a.len() == b.len(),
            forall|j: int| 0 <= j < i ==> a@[j] == b@[j],
        decreases a.len() - i,
    {
        if a[i] != b[i] {
            return false;
        }
        i = i + 1;
    }
    proof {
        assert(a@ =~= b@);
    }
    true
}

/// The views of the texts in `v`.
pub open spec fn texts(v: Seq<String>) -> Seq<Seq<char>> {
    v.map_values(|s: String| s@)
}

/// A copy of a list of texts.
pub fn clone_texts(v: &Vec<String>) -> (r: Vec<String>)
    ensures
        texts(r@) == texts(v@),
        r@.len() == v@.len(),
        forall|i: int| 0 <= i < v@.len() ==> #[trigger] r@[i] == v@[i],
{
    let mut out: Vec<String> = Vec::new();
    let mut i: usize = 0;
    while i < v.len()
        invariant
            i <= v.len(),
            out@.len() == i,
            forall|j: int| 0 <= j < i ==> #[trigger] out@[j] == v@[j],
        decreases v.len() - i,
    {
        out.push(v[i].clone());
        i = i + 1;
    }
    proof {
        assert(out@ =~= v@);
    }
    out
}

/// A copy of an optional text.
pub fn clone_option(v: &Option<String>) -> (r: Option<String>)
    ensures
        r == *v,
{
    match v {
        Some(s) => Some(s.clone()),
        None => None,
    }
}

/// The view of an optional text.
pub open spec fn option_text(v: Option<String>) -> Option<Seq<char>> {
    match v {
        Some(s) => Some(s@),
        None => None,
    }
}

/// The form in which `{:?}` shows the text `s`: between double quotes, with the
/// quotes, backslashes and unprintable characters of `s` escaped.
pub uninterp spec fn quoted(s: Seq<char>) -> Seq<char>;

/// Shows `s` between double quotes.
///
/// Trusted: the `Debug` form of a `str` depends on the text alone; which
/// characters are escaped, and how, is not said here.
#[verifier::external_body]
pub(crate) fn quote(s: &str) -> (r: String)
    ensures
        r@ == quoted(s@),
{
    format!("{:?}", s)
}

// White space and trimming.

/// The characters with the Unicode property `White_Space`.
pub open spec fn is_white_space(c: char) -> bool {
    let u = c as u32;
    ||| 0x09 <= u <= 0x0d
    ||| u == 0x20
    ||| u == 0x85
    ||| u == 0xa0
    ||| u == 0x1680
    ||| 0x2000 <= u <= 0x200a
    ||| u == 0x2028
    ||| u == 0x2029
    ||| u == 0x202f
    ||| u == 0x205f
    ||| u == 0x3000
}

/// Whether `c` is white space.
pub fn white_space(c: char) -> (r: bool)
    ensures
        r == is_white_space(c),
{
    let u: u32 = c as u32;
    (0x09 <= u && u <= 0x0d) || u == 0x20 || u == 0x85 || u == 0xa0 || u == 0x1680 || (0x2000 <= u
        && u <= 0x200a) || u == 0x2028 || u == 0x2029 || u == 0x202f || u == 0x205f || u == 0x3000
}

/// `s` holds white space only.
pub open spec fn is_blank(s: Seq<char>) -> bool {
    forall|i: int| 0 <= i < s.len() ==> is_white_space(#[trigger] s[i])
}

/// Whether `s` is empty or holds white space only.
pub fn blank(s: &str) -> (r: bool)
    ensures
        r == is_blank(s@),
{
    let chars = chars_of(s);
    let mut i: usize = 0;
    while i < chars.len()
        invariant
            i <= chars.len(),
            chars@ == s@,
            forall|j: int| 0 <= j < i ==> is_white_space(#[trigger] s@[j]),
        decreases chars.len() - i,
    {
        if !white_space(chars[i]) {
            return false;
        }
        i = i + 1;
    }
    true
}

/// `s` without its leading white space.
pub open spec fn trim_start(s: Seq<char>) -> Seq<char>
    decreases s.len(),
{
    if s.len() > 0 && is_white_space(s[0]) {
        trim_start(s.skip(1))
    } else {
        s
    }
}

/// `s` without its trailing white space.
pub open spec fn trim_end(s: Seq<char>) -> Seq<char>
    decreases s.len(),
{
    if s.len() > 0 && is_white_space(s.last()) {
        trim_end(s.drop_last())
    } else {
        s
    }
}

/// `s` without the white space at its two ends.
pub open spec fn trim(s: Seq<char>) -> Seq<char> {
    trim_end(trim_start(s))
}

/// A text without its trailing white space does not end in white space.
proof fn lemma_trim_end(s: Seq<char>)
    ensures
        trim_end(s).len() > 0 ==> !is_white_space(trim_end(s).last()),
    decreases s.len(),
{
    if s.len() > 0 && is_white_space(s.last()) {
        lemma_trim_end(s.drop_last());
    }
}

/// What is left of a text without the white space at its two ends is empty or not
/// blank.
pub proof fn lemma_trimmed_is_not_blank(s: Seq<char>)
    ensures
        trim(s).len() > 0 ==> !is_blank(trim(s)),
{
    let t = trim(s);
    lemma_trim_end(trim_start(s));
    if t.len() > 0 {
        assert(!is_white_space(t[t.len() - 1]));
    }
}

/// `chars` without its trailing white space.
pub fn trim_end_chars(chars: Vec<char>) -> (r: Vec<char>)
    ensures
        r@ == trim_end(chars@),
{
    let mut out = chars;
    while out.len() > 0 && white_space(out[out.len() - 1])
        invariant
            trim_end(out@) == trim_end(chars@),
        decreases out.len(),
    {
        let _ = out.pop();
    }
    out
}

/// `chars` without the white space at its two ends.
pub fn trim_chars(chars: Vec<char>) -> (r: Vec<char>)
    ensures
        r@ == trim(chars@),
{
    let mut from: usize = 0;
    proof {
        assert(chars@.skip(0) == chars@);
    }
    while from < chars.len() && white_space(chars[from])
        invariant
            from <= chars.len(),
            trim_start(chars@.skip(from as int)) == trim_start(chars@),
        decreases chars.len() - from,
    {
        proof {
            assert(chars@.skip(from as int).skip(1) == chars@.skip(from + 1));
        }
        from = from + 1;
    }
    proof {
        assert(chars@.subrange(from as int, chars@.len() as int) == chars@.skip(from as int));
    }
    let rest = slice_of(&chars, from, chars.len());
    trim_end_chars(rest)
}

// Splitting.

/// The pieces of `s` between the occurrences of `sep`: each `sep` closes a piece
/// and opens the next one.
pub open spec fn pieces(s: Seq<char>, sep: char) -> Seq<Seq<char>>
    decreases s.len(),
{
    if s.len() == 0 {
        seq![Seq::empty()]
    } else {
        let before = pieces(s.drop_last(), sep);
        if s.last() == sep {
            before.push(Seq::empty())
        } else {
            before.drop_last().push(before.last().push(s.last()))
        }
    }
}

/// The maximal runs of characters in `s` that are not white space.
pub open spec fn words(s: Seq<char>) -> Seq<Seq<char>>
    decreases s.len(),
{
    if s.len() == 0 {
        Seq::empty()
    } else {
        let before = words(s.drop_last());
        if is_white_space(s.last()) {
            before
        } else if s.len() == 1 || is_white_space(s[s.len() - 2]) {
            before.push(seq![s.last()])
        } else {
            before.drop_last().push(before.last().push(s.last()))
        }
    }
}

/// The views of a list of character vectors.
pub open spec fn char_views(v: Seq<Vec<char>>) -> Seq<Seq<char>> {
    v.map_values(|c: Vec<char>| c@)
}

/// There is at least one piece.
pub proof fn lemma_pieces_nonempty(s: Seq<char>, sep: char)
    ensures
        pieces(s, sep).len() > 0,
    decreases s.len(),
{
    if s.len() > 0 {
        lemma_pieces_nonempty(s.drop_last(), sep);
    }
}

/// Splits `chars` at every `sep`.
pub fn split_pieces(chars: &Vec<char>, sep: char) -> (r: Vec<Vec<char>>)
    ensures
        char_views(r@) == pieces(chars@, sep),
{
    let mut done: Vec<Vec<char>> = Vec::new();
    let mut open: Vec<char> = Vec::new();
    let mut i: usize = 0;
    proof {
        assert(chars@.take(0) =~= Seq::empty());
        assert(char_views(done@).push(open@) =~= pieces(chars@.take(0), sep));
    }
    while i < chars.len()
        invariant
            i <= chars.len(),
            char_views(done@).push(open@) == pieces(chars@.take(i as int), sep),
        decreases chars.len() - i,
    {
        let c = chars[i];
        proof {
            let next = chars@.take(i + 1);
            assert(next.drop_last() == chars@.take(i as int));
            assert(next.last() == c);
            let before = char_views(done@).push(open@);
            assert(before.drop_last() == char_views(done@));
            assert(before.last() == open@);
        }
        if c == sep {
            let ghost closed = open@;
            let ghost prior = done@;
            done.push(open);
            open = Vec::new();
            proof {
                assert(char_views(done@) =~= char_views(prior).push(closed));
            }
        } else {
            open.push(c);
        }
        i = i + 1;
    }
    proof {
        assert(chars@.take(chars@.len() as int) == chars@);
    }
    let ghost closed = open@;
    let ghost prior = done@;
    done.push(open);
    proof {
        assert(char_views(done@) =~= char_views(prior).push(closed));
    }
    done
}

/// Splits `chars` into its words.
pub fn split_words(chars: &Vec<char>) -> (r: Vec<Vec<char>>)
    ensures
        char_views(r@) == words(chars@),
{
    let mut done: Vec<Vec<char>> = Vec::new();
    let mut open: Vec<char> = Vec::new();
    let mut i: usize = 0;
    proof {
        assert(chars@.take(0) =~= Seq::empty());
        assert(char_views(done@) =~= words(chars@.take(0)));
    }
    while i < chars.len()
        invariant
            i <= chars.len(),
            open@.len() == 0 <==> (i == 0 || is_white_space(chars@[i - 1])),
            open@.len() == 0 ==> char_views(done@) == words(chars@.take(i as int)),
            open@.len() > 0 ==> char_views(done@).push(open@) == words(chars@.take(i as int)),
        decreases chars.len() - i,
    {
        let c = chars[i];
        proof {
            let next = chars@.take(i + 1);
            assert(next.drop_last() == chars@.take(i as int));
            assert(next.last() == c);
            if i > 0 {
                assert(next[next.len() - 2] == chars@[i - 1]);
            }
            let before = char_views(done@).push(open@);
            assert(before.drop_last() == char_views(done@));
            assert(before.last() == open@);
            assert(Seq::<char>::empty().push(c) =~= seq![c]);
        }
        if white_space(c) {
            if open.len() > 0 {
                let ghost closed = open@;
                let ghost prior = done@;
                done.push(open);
                open = Vec::new();
                proof {
                    assert(char_views(done@) =~= char_views(prior).push(closed));
                }
            }
        } else {
            let ghost was = open@;
            open.push(c);
            proof {
                if was.len() == 0 {
                    assert(was =~= Seq::empty());
                    assert(open@ == seq![c]);
                }
            }
        }
        i = i + 1;
    }
    proof {
        assert(chars@.take(chars@.len() as int) == chars@);
    }
    if open.len() > 0 {
        let ghost closed = open@;
        let ghost prior = done@;
        done.push(open);
        proof {
            assert(char_views(done@) =~= char_views(prior).push(closed));
        }
    }
    done
}

/// The parts with `sep` between each two of them.
pub open spec fn joined(parts: Seq<Seq<char>>, sep: Seq<char>) -> Seq<char>
    decreases parts.len(),
{
    if parts.len() == 0 {
        Seq::empty()
    } else if parts.len() == 1 {
        parts[0]
    } else {
        joined(parts.drop_last(), sep) + sep + parts.last()
    }
}

/// `c` does not occur in `s`.
pub open spec fn lacks(s: Seq<char>, c: char) -> bool {
    forall|i: int| 0 <= i < s.len() ==> #[trigger] s[i] != c
}

/// A text without the separator is one piece.
pub proof fn lemma_pieces_single(s: Seq<char>, sep: char)
    requires
        lacks(s, sep),
    ensures
        pieces(s, sep) == seq![s],
    decreases s.len(),
{
    if s.len() == 0 {
        assert(s =~= Seq::empty());
    } else {
        assert(lacks(s.drop_last(), sep)) by {
            assert forall|i: int| 0 <= i < s.drop_last().len() implies #[trigger] s.drop_last()[i]
                != sep by {
                assert(s[i] != sep);
            }
        }
        lemma_pieces_single(s.drop_last(), sep);
        assert(s.last() != sep);
        assert(s.drop_last().push(s.last()) =~= s);
        assert(pieces(s, sep) =~= seq![s]);
    }
}

/// A last piece that holds no separator is split off as it is.
pub proof fn lemma_pieces_append(a: Seq<char>, b: Seq<char>, sep: char)
    requires
        lacks(b, sep),
    ensures
        pieces(a.push(sep) + b, sep) == pieces(a, sep).push(b),
    decreases b.len(),
{
    let whole = a.push(sep) + b;
    if b.len() == 0 {
        assert(whole =~= a.push(sep));
        assert(whole.drop_last() =~= a);
        assert(b =~= Seq::empty());
    } else {
        assert(lacks(b.drop_last(), sep)) by {
            assert forall|i: int| 0 <= i < b.drop_last().len() implies #[trigger] b.drop_last()[i]
                != sep by {
                assert(b[i] != sep);
            }
        }
        lemma_pieces_append(a, b.drop_last(), sep);
        assert(whole.drop_last() =~= a.push(sep) + b.drop_last());
        assert(whole.last() == b.last());
        assert(b.last() != sep);
        let before = pieces(a, sep).push(b.drop_last());
        assert(before.drop_last() =~= pieces(a, sep));
        assert(b.drop_last().push(b.last()) =~= b);
    }
}

/// Law: splitting undoes joining, where no part holds the separator.
pub proof fn law_pieces_of_joined(parts: Seq<Seq<char>>, sep: char)
    requires
        parts.len() > 0,
        forall|i: int| 0 <= i < parts.len() ==> lacks(#[trigger] parts[i], sep),
    ensures
        pieces(joined(parts, seq![sep]), sep) == parts,
    decreases parts.len(),
{
    if parts.len() == 1 {
        lemma_pieces_single(parts[0], sep);
        assert(parts =~= seq![parts[0]]);
    } else {
        let front = parts.drop_last();
        assert forall|i: int| 0 <= i < front.len() implies lacks(#[trigger] front[i], sep) by {
            assert(lacks(parts[i], sep));
        }
        law_pieces_of_joined(front, sep);
        let a = joined(front, seq![sep]);
        assert(a + seq![sep] =~= a.push(sep));
        lemma_pieces_append(a, parts.last(), sep);
        assert(front.push(parts.last()) =~= parts);
    }
}

/// Every character of `s` other than the separator stands in a piece.
pub proof fn lemma_piece_holds(s: Seq<char>, sep: char, i: int) -> (k: int)
    requires
        0 <= i < s.len(),
        s[i] != sep,
    ensures
        0 <= k < pieces(s, sep).len(),
        pieces(s, sep)[k].contains(s[i]),
    decreases s.len(),
{
    let before = pieces(s.drop_last(), sep);
    lemma_pieces_nonempty(s.drop_last(), sep);
    if i == s.len() - 1 {
        let last = before.last().push(s.last());
        assert(last[last.len() - 1] == s[i]);
        assert(pieces(s, sep)[before.len() - 1] == last);
        before.len() - 1
    } else {
        let k = lemma_piece_holds(s.drop_last(), sep, i);
        assert(s.drop_last()[i] == s[i]);
        let j = choose|j: int| 0 <= j < before[k].len() && before[k][j] == s[i];
        if s.last() == sep {
            assert(pieces(s, sep)[k] == before[k]);
        } else if k == before.len() - 1 {
            let last = before.last().push(s.last());
            assert(last[j] == s[i]);
            assert(pieces(s, sep)[k] == last);
        } else {
            assert(pieces(s, sep)[k] == before[k]);
        }
        k
    }
}

/// Joins the parts, with `sep` between each two of them.
pub fn join(parts: &Vec<String>, sep: &str) -> (r: String)
    ensures
        r@ == joined(texts(parts@), sep@),
{
    let ghost all = texts(parts@);
    let mut out = String::new();
    let mut i: usize = 0;
    proof {
        assert(all.take(0) =~= Seq::empty());
        assert(out@ =~= joined(all.take(0), sep@));
    }
    while i < parts.len()
        invariant
            i <= parts.len(),
            all == texts(parts@),
            out@ == joined(all.take(i as int), sep@),
        decreases parts.len() - i,
    {
        proof {
            assert(all.take(i + 1).drop_last() =~= all.take(i as int));
            assert(all.take(i + 1).last() == parts@[i as int]@);
        }
        if i > 0 {
            out.append(sep);
        }
        let ghost front = out@;
        out.append(parts[i].as_str());
        proof {
            if i == 0 {
                assert(out@ =~= parts@[0]@);
            }
        }
        i = i + 1;
    }
    proof {
        assert(all.take(all.len() as int) =~= all);
    }
    out
}

// Ordering.

/// `a` comes before `b` when the two are compared character by character.
pub open spec fn precedes(a: Seq<char>, b: Seq<char>) -> bool
    decreases a.len(),
{
    if b.len() == 0 {
        false
    } else if a.len() == 0 {
        true
    } else if a[0] != b[0] {
        a[0] < b[0]
    } else {
        precedes(a.skip(1), b.skip(1))
    }
}

/// No text precedes itself.
pub proof fn lemma_precedes_irreflexive(a: Seq<char>)
    ensures
        !precedes(a, a),
    decreases a.len(),
{
    if a.len() > 0 {
        lemma_precedes_irreflexive(a.skip(1));
    }
}

/// The order of texts is transitive.
pub proof fn lemma_precedes_transitive(a: Seq<char>, b: Seq<char>, c: Seq<char>)
    requires
        precedes(a, b),
        precedes(b, c),
    ensures
        precedes(a, c),
    decreases a.len(),
{
    if a.len() > 0 && b.len() > 0 && c.len() > 0 && a[0] == b[0] && b[0] == c[0] {
        lemma_precedes_transitive(a.skip(1), b.skip(1), c.skip(1));
    }
}

/// Of two different texts one precedes the other.
pub proof fn lemma_precedes_total(a: Seq<char>, b: Seq<char>)
    requires
        a != b,
    ensures
        precedes(a, b) || precedes(b, a),
    decreases a.len(),
{
    if a.len() == 0 {
        if b.len() == 0 {
            assert(a =~= b);
        }
    } else if b.len() > 0 && a[0] == b[0] {
        if a.skip(1) == b.skip(1) {
            assert(a =~= seq![a[0]] + a.skip(1));
            assert(b =~= seq![b[0]] + b.skip(1));
        }
        lemma_precedes_total(a.skip(1), b.skip(1));
    }
}

/// Whether `a` precedes `b`.
pub fn precedes_chars(a: &Vec<char>, b: &Vec<char>) -> (r: bool)
    ensures
        r == precedes(a@, b@),
{
    let mut i: usize = 0;
    proof {
        assert(a@.skip(0) == a@);
        assert(b@.skip(0) == b@);
    }
    while i < a.len() && i < b.len()
        invariant
            i <= a.len(),
            i <= b.len(),
            precedes(a@, b@) == precedes(a@.skip(i as int), b@.skip(i as int)),
        decreases a.len() - i,
    {
        proof {
            assert(a@.skip(i as int).skip(1) == a@.skip(i + 1));
            assert(b@.skip(i as int).skip(1) == b@.skip(i + 1));
        }
        if a[i] != b[i] {
            return a[i] < b[i];
        }
        i = i + 1;
    }
    i < b.len()
}

// Searching.

/// `c` with the letters `a` to `z` in upper case.
pub open spec fn upper(c: char) -> char {
    if 'a' <= c <= 'z' {
        (c as u32 - 32) as char
    } else {
        c
    }
}

/// `needle` stands in `s` at position `i`.
pub open spec fn occurs_at(s: Seq<char>, needle: Seq<char>, i: int) -> bool {
    &&& 0 <= i
    &&& i + needle.len() <= s.len()
    &&& s.subrange(i, i + needle.len()) == needle
}

/// `needle` stands in `s`.
pub open spec fn occurs(s: Seq<char>, needle: Seq<char>) -> bool {
    exists|i: int| #[trigger] occurs_at(s, needle, i)
}

/// What stands in a part of a text stands in the text.
pub proof fn lemma_occurs_within(
    before: Seq<char>,
    part: Seq<char>,
    behind: Seq<char>,
    needle: Seq<char>,
)
    requires
        occurs(part, needle),
    ensures
        occurs(before + part + behind, needle),
{
    let i = choose|i: int| #[trigger] occurs_at(part, needle, i);
    let whole = before + part + behind;
    let at = before.len() + i;
    assert(whole.subrange(at, at + needle.len()) =~= part.subrange(i, i + needle.len()));
    assert(occurs_at(whole, needle, at));
}

/// `s` with its first occurrence of `needle` replaced by `by`, searched from
/// position `from` on.
pub open spec fn replace_first_from(
    s: Seq<char>,
    needle: Seq<char>,
    by: Seq<char>,
    from: int,
) -> Seq<char>
    decreases s.len() - from + 1,
{
    if from < 0 || from + needle.len() > s.len() {
        s
    } else if occurs_at(s, needle, from) {
        s.take(from) + by + s.skip(from + needle.len())
    } else {
        replace_first_from(s, needle, by, from + 1)
    }
}

/// Whether `needle` stands in `chars` at position `i`.
fn occurs_here(chars: &Vec<char>, needle: &Vec<char>, i: usize) -> (r: bool)
    requires
        i + needle.len() <= chars.len(),
    ensures
        r == occurs_at(chars@, needle@, i as int),
{
    let mut j: usize = 0;
    while j < needle.len()
        invariant
            j <= needle.len(),
            i + needle.len() <= chars.len(),
            forall|k: int| 0 <= k < j ==> chars@[i + k] == needle@[k],
        decreases needle.len() - j,
    {
        if chars[i + j] != needle[j] {
            proof {
                assert(chars@.subrange(i as int, i + needle@.len())[j as int] == chars@[i + j]);
            }
            return false;
        }
        j = j + 1;
    }
    proof {
        assert(chars@.subrange(i as int, i + needle@.len()) =~= needle@);
    }
    true
}

/// Replaces the first occurrence of `needle` in `s` by `by`.
pub fn replace_first(s: &str, needle: &str, by: &str) -> (r: String)
    ensures
        r@ == replace_first_from(s@, needle@, by@, 0),
{
    let chars = chars_of(s);
    let pattern = chars_of(needle);
    let mut i: usize = 0;
    while pattern.len() <= chars.len() && i <= chars.len() - pattern.len()
        invariant
            chars@ == s@,
            pattern@ == needle@,
            i <= chars.len(),
            replace_first_from(s@, needle@, by@, 0) == replace_first_from(
                s@,
                needle@,
                by@,
                i as int,
            ),
        decreases chars.len() - i + 1,
    {
        if occurs_here(&chars, &pattern, i) {
            let head = slice_of(&chars, 0, i);
            let tail = slice_of(&chars, i + pattern.len(), chars.len());
            proof {
                assert(s@.take(i as int) == head@);
                assert(s@.skip(i + needle@.len()) == tail@);
            }
            return string_of(&head).concat(by).concat(string_of(&tail).as_str());
        }
        proof {
            if pattern@.len() == 0 {
                assert(s@.subrange(i as int, i as int) =~= needle@);
            }
        }
        i = i + 1;
    }
    s.to_owned()
}

/// `s` holds the word `TODO`, in any mixture of upper and lower case.
pub open spec fn holds_todo(s: Seq<char>) -> bool {
    exists|i: int| #[trigger] todo_at(s, i)
}

/// `TODO` stands in `s` at position `i`, in any mixture of upper and lower case.
pub open spec fn todo_at(s: Seq<char>, i: int) -> bool {
    &&& 0 <= i
    &&& i + 4 <= s.len()
    &&& upper(s[i]) == 'T'
    &&& upper(s[i + 1]) == 'O'
    &&& upper(s[i + 2]) == 'D'
    &&& upper(s[i + 3]) == 'O'
}

/// Whether `s` holds the word `TODO`, in any mixture of upper and lower case.
pub fn mentions_todo(s: &str) -> (r: bool)
    ensures
        r == holds_todo(s@),
{
    let chars = chars_of(s);
    if chars.len() < 4 {
        return false;
    }
    let mut i: usize = 0;
    while i <= chars.len() - 4
        invariant
            chars@ == s@,
            4 <= chars.len(),
            i <= chars.len() - 3,
            forall|j: int| 0 <= j < i ==> !#[trigger] todo_at(s@, j),
        decreases chars.len() - i,
    {
        let first = chars[i] == 'T' || chars[i] == 't';
        let second = chars[i + 1] == 'O' || chars[i + 1] == 'o';
        let third = chars[i + 2] == 'D' || chars[i + 2] == 'd';
        let fourth = chars[i + 3] == 'O' || chars[i + 3] == 'o';
        if first && second && third && fourth {
            proof {
                assert(todo_at(s@, i as int));
            }
            return true;
        }
        i = i + 1;
    }
    false
}

} // verus!
