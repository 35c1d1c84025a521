//! Text helpers: characters, decimal numbers, splitting and searching.

use vstd::prelude::*;
use vstd::string::*;
use vstd::utf8::encode_utf8;

verus! {

/// `String::push` appends one character.
pub assume_specification[ std::string::String::push ](text: &mut std::string::String, c: char)
    ensures
        final(text)@ == old(text)@.push(c),
;

/// The characters of `s`, in order.
pub fn chars_of(s: &str) -> (r: Vec<char>)
    ensures
        r@ == s@,
{
    let mut out: Vec<char> = Vec::new();
    for c in it: s.chars()
        invariant
            out@ == it.seq().take(it.index() as int),
            it.seq() == s@,
    {
        out.push(c);
        assert(out@ =~= it.seq().take(it.index() + 1));
    }
    assert(s@.take(s@.len() as int) =~= s@);
    out
}

/// The text made of the given characters.
pub fn text_of(chars: &[char]) -> (r: String)
    ensures
        r@ == chars@,
{
    let mut out = String::new();
    let mut i: usize = 0;
    while i < chars.len()
        invariant
            i <= chars.len(),
            out@ == chars@.take(i as int),
        decreases chars.len() - i,
    {
        out.push(chars[i]);
        i += 1;
        assert(out@ =~= chars@.take(i as int));
    }
    assert(chars@.take(i as int) =~= chars@);
    out
}

/// Whether the two texts hold the same characters.
pub fn same_text(a: &str, b: &str) -> (r: bool)
    ensures
        r == (a@ == b@),
{
    a.to_owned() == b.to_owned()
}

/// Whether `name` is one of `names`.
pub open spec fn listed(names: Seq<&str>, name: Seq<char>) -> bool {
    exists|i: int| 0 <= i < names.len() && (#[trigger] names[i])@ == name
}

/// Whether `name` is one of `names`.
pub fn is_listed(names: &[&str], name: &str) -> (r: bool)
    ensures
        r == listed(names@, name@),
{
    let mut i: usize = 0;
    while i < names.len()
        invariant
            i <= names.len(),
            forall|j: int| 0 <= j < i ==> (#[trigger] names@[j])@ != name@,
        decreases names.len() - i,
    {
        if same_text(names[i], name) {
            assert(names@[i as int]@ == name@);
            return true;
        }
        i += 1;
    }
    false
}

/// The decimal digit with the given value.
pub open spec fn digit(d: nat) -> char {
    (48 + d % 10) as char
}

/// The decimal notation of a natural number, without leading zeros.
pub open spec fn decimal(n: nat) -> Seq<char>
    decreases n,
{
    if n < 10 {
        seq![digit(n)]
    } else {
        decimal(n / 10).push(digit(n % 10))
    }
}

fn digit_char(d: u8) -> (r: char)
    requires
        d < 10,
    ensures
        r == digit(d as nat),
{
    (48 + d) as char
}

/// Append the decimal notation of `n`.
pub fn push_decimal(out: &mut String, n: u64)
    ensures
        final(out)@ == old(out)@ + decimal(n as nat),
    decreases n,
{
    if n < 10 {
        out.push(digit_char(n as u8));
        assert(old(out)@ + decimal(n as nat) =~= old(out)@.push(digit(n as nat)));
    } else {
        push_decimal(out, n / 10);
        let ghost mid = out@;
        out.push(digit_char((n % 10) as u8));
        assert(old(out)@ + decimal(n as nat) =~= mid.push(digit((n % 10) as nat)));
    }
}

/// The decimal notation of `n`.
pub fn decimal_text(n: u64) -> (r: String)
    ensures
        r@ == decimal(n as nat),
{
    let mut out = String::new();
    push_decimal(&mut out, n);
    assert(out@ =~= decimal(n as nat));
    out
}

/// Whether every character is an ASCII digit.
pub open spec fn all_digits(s: Seq<char>) -> bool {
    forall|i: int| 0 <= i < s.len() ==> '0' <= #[trigger] s[i] <= '9'
}

/// The number that a run of digits denotes.
pub open spec fn digits_value(s: Seq<char>) -> nat
    decreases s.len(),
{
    if s.len() == 0 {
        0
    } else {
        digits_value(s.drop_last()) * 10 + ((s.last() as nat) - 48) as nat
    }
}

/// The number that a text denotes: an optional `+`, then one or more digits, of a value of at
/// most `max`.
pub open spec fn parsed_number(s: Seq<char>, max: nat) -> Option<nat> {
    let digits = if s.len() > 1 && s[0] == '+' {
        s.skip(1)
    } else {
        s
    };
    if digits.len() > 0 && all_digits(digits) && digits_value(digits) <= max {
        Some(digits_value(digits))
    } else {
        None
    }
}

proof fn lemma_digits_value_grows(s: Seq<char>, k: int)
    requires
        all_digits(s),
        0 <= k <= s.len(),
    ensures
        digits_value(s.take(k)) <= digits_value(s),
    decreases s.len(),
{
    if k < s.len() {
        lemma_digits_value_grows(s.drop_last(), k);
        assert(s.drop_last().take(k) =~= s.take(k));
    } else {
        assert(s.take(k) =~= s);
    }
}

/// Read a decimal number, as `str::parse::<usize>` does.
pub fn parse_usize(s: &str) -> (r: Option<usize>)
    ensures
        match r {
            Some(n) => parsed_number(s@, usize::MAX as nat) == Some(n as nat),
            None => parsed_number(s@, usize::MAX as nat) is None,
        },
{
    let chars = chars_of(s);
    let start: usize = if chars.len() > 1 && chars[0] == '+' {
        1
    } else {
        0
    };
    let ghost digits = s@.skip(start as int);
    assert(s@.skip(0) =~= s@);
    if start == chars.len() {
        return None;
    }
    let mut value: usize = 0;
    let mut i: usize = start;
    while i < chars.len()
        invariant
            start <= i <= chars.len(),
            chars@ == s@,
            digits == s@.skip(start as int),
            all_digits(digits.take(i - start)),
            value == digits_value(digits.take(i - start)),
            parsed_number(s@, usize::MAX as nat) == (if digits.len() > 0 && all_digits(digits)
                && digits_value(digits) <= usize::MAX {
                Some(digits_value(digits))
            } else {
                None
            }),
        decreases chars.len() - i,
    {
        let c = chars[i];
        assert(c == digits[i - start]);
        if c < '0' || c > '9' {
            return None;
        }
        let ghost next = digits.take(i - start + 1);
        assert(next.drop_last() =~= digits.take(i - start));
        let d: usize = (c as u32 - 48) as usize;
        proof {
            if all_digits(digits) {
                lemma_digits_value_grows(digits, i - start + 1);
            }
            assert(all_digits(next)) by {
                assert forall|j: int| 0 <= j < next.len() implies '0' <= #[trigger] next[j]
                    <= '9' by {
                    if j < i - start {
                        assert(digits.take(i - start)[j] == next[j]);
                    }
                }
            }
        }
        match value.checked_mul(10) {
            None => {
                return None;
            },
            Some(tens) => match tens.checked_add(d) {
                None => {
                    return None;
                },
                Some(sum) => {
                    value = sum;
                },
            },
        }
        i += 1;
    }
    assert(digits.take(i - start) =~= digits);
    Some(value)
}

/// Reading a decimal notation gives the number back.
pub proof fn lemma_decimal_parses(n: nat, max: nat)
    requires
        n <= max,
    ensures
        parsed_number(decimal(n), max) == Some(n),
{
    lemma_decimal_digits(n);
    assert(decimal(n)[0] != '+');
}

pub proof fn lemma_decimal_digits(n: nat)
    ensures
        decimal(n).len() > 0,
        all_digits(decimal(n)),
        digits_value(decimal(n)) == n,
    decreases n,
{
    if n < 10 {
        assert(decimal(n).drop_last() =~= Seq::<char>::empty());
        assert(digits_value(Seq::<char>::empty()) == 0);
    } else {
        lemma_decimal_digits(n / 10);
        assert(decimal(n).drop_last() =~= decimal(n / 10));
        let s = decimal(n);
        assert forall|i: int| 0 <= i < s.len() implies '0' <= #[trigger] s[i] <= '9' by {
            if i < s.len() - 1 {
                assert(s[i] == decimal(n / 10)[i]);
            }
        }
    }
}

/// The pieces of a text between the occurrences of a separator.
pub open spec fn pieces(s: Seq<char>, sep: char) -> Seq<Seq<char>>
    decreases s.len(),
{
    if s.len() == 0 {
        seq![Seq::<char>::empty()]
    } else {
        let before = pieces(s.drop_last(), sep);
        if s.last() == sep {
            before.push(Seq::<char>::empty())
        } else {
            before.update(before.len() - 1, before.last().push(s.last()))
        }
    }
}

/// There is always at least one piece.
pub proof fn lemma_pieces_nonempty(s: Seq<char>, sep: char)
    ensures
        pieces(s, sep).len() > 0,
    decreases s.len(),
{
    if s.len() > 0 {
        lemma_pieces_nonempty(s.drop_last(), sep);
    }
}

/// Text without a separator after a separator is one more piece.
pub proof fn lemma_pieces_extend(s: Seq<char>, sep: char, tail: Seq<char>)
    requires
        !tail.contains(sep),
    ensures
        pieces(s.push(sep) + tail, sep) == pieces(s, sep).push(tail),
    decreases tail.len(),
{
    let whole = s.push(sep) + tail;
    if tail.len() == 0 {
        assert(whole =~= s.push(sep));
        assert(whole.drop_last() =~= s);
        assert(tail =~= Seq::<char>::empty());
    } else {
        assert(!tail.drop_last().contains(sep)) by {
            if tail.drop_last().contains(sep) {
                let i = choose|i: int| 0 <= i < tail.drop_last().len() && tail.drop_last()[i] == sep;
                assert(tail[i] == sep);
            }
        }
        lemma_pieces_extend(s, sep, tail.drop_last());
        assert(whole.drop_last() =~= s.push(sep) + tail.drop_last());
        assert(whole.last() == tail.last());
        assert(tail[tail.len() - 1] != sep);
        assert(tail.drop_last().push(tail.last()) =~= tail);
        assert(pieces(whole, sep) =~= pieces(s, sep).push(tail));
    }
}

/// Text without a separator is one piece.
pub proof fn lemma_pieces_single(s: Seq<char>, sep: char)
    requires
        !s.contains(sep),
    ensures
        pieces(s, sep) == seq![s],
    decreases s.len(),
{
    if s.len() > 0 {
        assert(s[s.len() - 1] != sep);
        assert(!s.drop_last().contains(sep)) by {
            if s.drop_last().contains(sep) {
                let i = choose|i: int| 0 <= i < s.drop_last().len() && s.drop_last()[i] == sep;
                assert(s[i] == sep);
            }
        }
        lemma_pieces_single(s.drop_last(), sep);
        assert(s.drop_last().push(s.last()) =~= s);
        assert(pieces(s, sep) =~= seq![s]);
    } else {
        assert(s =~= Seq::<char>::empty());
    }
}

/// The texts that a vector of strings holds.
pub open spec fn texts(v: Seq<String>) -> Seq<Seq<char>> {
    v.map_values(|s: String| s@)
}

/// Split a text at every occurrence of a separator.
pub fn split(s: &str, sep: char) -> (r: Vec<String>)
    ensures
        texts(r@) == pieces(s@, sep),
{
    let chars = chars_of(s);
    let mut out: Vec<String> = Vec::new();
    let mut current = String::new();
    let mut i: usize = 0;
    assert(texts(out@).push(current@) =~= pieces(s@.take(0), sep));
    while i < chars.len()
        invariant
            i <= chars.len(),
            chars@ == s@,
            texts(out@).push(current@) == pieces(s@.take(i as int), sep),
        decreases chars.len() - i,
    {
        let c = chars[i];
        let ghost done = s@.take(i as int);
        let ghost before = texts(out@).push(current@);
        assert(s@.take(i + 1).drop_last() =~= done);
        if c == sep {
            let piece = current;
            current = String::new();
            out.push(piece);
            assert(texts(out@) =~= before);
        } else {
            current.push(c);
            assert(texts(out@).push(current@) =~= before.update(
                before.len() - 1,
                before.last().push(c),
            ));
        }
        i += 1;
    }
    assert(s@.take(i as int) =~= s@);
    out.push(current);
    assert(texts(out@) =~= pieces(s@, sep));
    out
}

/// Whether `s` starts with `prefix`.
pub open spec fn begins_with(s: Seq<char>, prefix: Seq<char>) -> bool {
    prefix.len() <= s.len() && s.take(prefix.len() as int) == prefix
}

/// Whether `s` starts with `prefix`.
pub fn starts_with(s: &str, prefix: &str) -> (r: bool)
    ensures
        r == begins_with(s@, prefix@),
{
    let a = chars_of(s);
    let b = chars_of(prefix);
    if b.len() > a.len() {
        return false;
    }
    let mut i: usize = 0;
    while i < b.len()
        invariant
            i <= b.len() <= a.len(),
            a@ == s@,
            b@ == prefix@,
            s@.take(i as int) == prefix@.take(i as int),
        decreases b.len() - i,
    {
        if a[i] != b[i] {
            assert(s@.take(prefix@.len() as int)[i as int] != prefix@[i as int]);
            return false;
        }
        i += 1;
        assert(s@.take(i as int) =~= prefix@.take(i as int));
    }
    assert(prefix@.take(i as int) =~= prefix@);
    true
}

/// Whether `part` occurs in `s`.
pub open spec fn occurs(s: Seq<char>, part: Seq<char>) -> bool {
    exists|i: int|
        0 <= i <= s.len() - part.len() && #[trigger] s.subrange(i, i + part.len()) == part
}

/// Whether `part` occurs in `s`.
pub fn contains(s: &str, part: &str) -> (r: bool)
    ensures
        r == occurs(s@, part@),
{
    let a = chars_of(s);
    let b = chars_of(part);
    if b.len() > a.len() {
        return false;
    }
    let last: usize = a.len() - b.len();
    let mut i: usize = 0;
    loop
        invariant
            i <= last,
            last == a.len() - b.len(),
            a@ == s@,
            b@ == part@,
            forall|k: int| 0 <= k < i ==> #[trigger] s@.subrange(k, k + part@.len()) != part@,
        decreases last - i,
    {
        let mut j: usize = 0;
        let mut matching: bool = true;
        while j < b.len() && matching
            invariant
                j <= b.len(),
                i <= last,
                last == a.len() - b.len(),
                a@ == s@,
                b@ == part@,
                matching ==> s@.subrange(i as int, i + j) == part@.take(j as int),
                !matching ==> s@.subrange(i as int, i + part@.len()) != part@,
            decreases b.len() - j + (if matching {
                1int
            } else {
                0int
            }),
        {
            if a[i + j] != b[j] {
                matching = false;
                assert(s@.subrange(i as int, i + part@.len())[j as int] != part@[j as int]);
            } else {
                j += 1;
                assert(s@.subrange(i as int, i + j) =~= part@.take(j as int));
            }
        }
        if matching {
            assert(part@.take(j as int) =~= part@);
            return true;
        }
        if i == last {
            return false;
        }
        i += 1;
    }
}

/// Unicode `White_Space`.
pub open spec fn white_space(c: char) -> bool {
    ||| '\u{9}' <= c <= '\u{d}'
    ||| c == ' ' || c == '\u{85}' || c == '\u{a0}' || c == '\u{1680}'
    ||| '\u{2000}' <= c <= '\u{200a}'
    ||| c == '\u{2028}' || c == '\u{2029}' || c == '\u{202f}' || c == '\u{205f}' || c == '\u{3000}'
}

/// A text without the white space at either end.
pub open spec fn trimmed(s: Seq<char>) -> Seq<char>
    decreases s.len(),
{
    if s.len() > 0 && white_space(s[0]) {
        trimmed(s.skip(1))
    } else if s.len() > 0 && white_space(s.last()) {
        trimmed(s.drop_last())
    } else {
        s
    }
}

fn is_white_space(c: char) -> (r: bool)
    ensures
        r == white_space(c),
{
    ('\u{9}' <= c && c <= '\u{d}') || c == ' ' || c == '\u{85}' || c == '\u{a0}' || c
        == '\u{1680}' || ('\u{2000}' <= c && c <= '\u{200a}') || c == '\u{2028}' || c
        == '\u{2029}' || c == '\u{202f}' || c == '\u{205f}' || c == '\u{3000}'
}

/// Drop the white space at either end of a text.
pub fn trim(s: &str) -> (r: String)
    ensures
        r@ == trimmed(s@),
{
    let chars = chars_of(s);
    let mut start: usize = 0;
    let mut end: usize = chars.len();
    assert(s@.subrange(0, end as int) =~= s@);
    while start < end && is_white_space(chars[start])
        invariant
            start <= end == chars.len(),
            chars@ == s@,
            trimmed(s@.subrange(start as int, end as int)) == trimmed(s@),
        decreases end - start,
    {
        let ghost cur = s@.subrange(start as int, end as int);
        assert(cur.skip(1) =~= s@.subrange(start + 1, end as int));
        start += 1;
    }
    while start < end && is_white_space(chars[end - 1])
        invariant
            start <= end <= chars.len(),
            chars@ == s@,
            start < end ==> !white_space(s@[start as int]),
            trimmed(s@.subrange(start as int, end as int)) == trimmed(s@),
        decreases end - start,
    {
        let ghost cur = s@.subrange(start as int, end as int);
        assert(cur.drop_last() =~= s@.subrange(start as int, end - 1));
        end -= 1;
    }
    let part = vstd::slice::slice_subrange(chars.as_slice(), start, end);
    text_of(part)
}

/// Two texts, one after the other.
pub fn concat(a: &str, b: &str) -> (r: String)
    ensures
        r@ == a@ + b@,
{
    let mut out = a.to_owned();
    out.append(b);
    out
}

/// How many bytes a text takes in UTF-8.
pub fn byte_len(s: &str) -> (r: usize)
    ensures
        r == encode_utf8(s@).len(),
{
    s.as_bytes().len()
}

/// Texts one after the other, with a separator between them.
pub open spec fn joined(ts: Seq<Seq<char>>, sep: Seq<char>) -> Seq<char>
    decreases ts.len(),
{
    if ts.len() == 0 {
        Seq::empty()
    } else if ts.len() == 1 {
        ts[0]
    } else {
        joined(ts.drop_last(), sep) + sep + ts.last()
    }
}

/// Texts one after the other, with a separator between them.
pub fn join(ts: &Vec<String>, sep: &str) -> (r: String)
    ensures
        r@ == joined(texts(ts@), sep@),
{
    let ghost all = texts(ts@);
    let mut out = String::new();
    let mut i: usize = 0;
    assert(joined(all.take(0), sep@) =~= out@);
    while i < ts.len()
        invariant
            i <= ts.len(),
            all == texts(ts@),
            out@ == joined(all.take(i as int), sep@),
        decreases ts.len() - i,
    {
        let ghost next = all.take(i + 1);
        assert(next.drop_last() =~= all.take(i as int));
        assert(next.last() == ts@[i as int]@);
        if i > 0 {
            out = concat(out.as_str(), sep);
        }
        out = concat(out.as_str(), ts[i].as_str());
        assert(out@ =~= joined(next, sep@));
        i += 1;
    }
    assert(all.take(i as int) =~= all);
    out
}

proof fn lemma_joined_grows(ts: Seq<Seq<char>>, sep: Seq<char>, c: char)
    requires
        ts.len() > 0,
    ensures
        joined(ts.update(ts.len() - 1, ts.last().push(c)), sep) == joined(ts, sep).push(c),
{
    let grown = ts.update(ts.len() - 1, ts.last().push(c));
    if ts.len() > 1 {
        assert(grown.drop_last() =~= ts.drop_last());
        assert(joined(grown, sep) =~= joined(ts, sep).push(c));
    }
}

/// The pieces of a text, put together again with the separator between them, are the text; and no
/// piece holds the separator.
pub proof fn pieces_make_up_the_text(s: Seq<char>, sep: char, i: int)
    ensures
        joined(pieces(s, sep), seq![sep]) == s,
        0 <= i < pieces(s, sep).len() ==> !pieces(s, sep)[i].contains(sep),
    decreases s.len(),
{
    if s.len() > 0 {
        let rest = s.drop_last();
        let before = pieces(rest, sep);
        pieces_make_up_the_text(rest, sep, i);
        lemma_pieces_nonempty(rest, sep);
        if s.last() == sep {
            let all = before.push(Seq::<char>::empty());
            assert(all.drop_last() =~= before);
            assert(joined(all, seq![sep]) =~= s);
        } else {
            lemma_joined_grows(before, seq![sep], s.last());
            assert(joined(pieces(s, sep), seq![sep]) =~= s);
            pieces_make_up_the_text(rest, sep, before.len() - 1);
            if i == before.len() - 1 {
                let piece = before.last().push(s.last());
                assert(pieces(s, sep)[i] == piece);
                if piece.contains(sep) {
                    let at = choose|at: int| 0 <= at < piece.len() && piece[at] == sep;
                    assert(at < before.last().len());
                    assert(before.last()[at] == sep);
                    assert(before.last().contains(sep));
                }
            }
        }
    }
}

/// What is left of a text without the white space around it neither starts nor ends with white
/// space, and white space at either end makes no difference; a text without any at its ends stays
/// as it is.
pub proof fn trimming_takes_off_the_ends(s: Seq<char>, c: char)
    ensures
        trimmed(s).len() > 0 ==> !white_space(trimmed(s)[0]) && !white_space(trimmed(s).last()),
        white_space(c) ==> trimmed(seq![c] + s) == trimmed(s),
        white_space(c) ==> trimmed(s.push(c)) == trimmed(s),
        s.len() == 0 || (!white_space(s[0]) && !white_space(s.last())) ==> trimmed(s) == s,
    decreases s.len(),
{
    assert((seq![c] + s).skip(1) =~= s);
    assert(s.push(c).drop_last() =~= s);
    if s.len() > 0 && white_space(s[0]) {
        trimming_takes_off_the_ends(s.skip(1), c);
        if white_space(c) {
            assert(s.push(c).skip(1) =~= s.skip(1).push(c));
            assert(s.push(c)[0] == s[0]);
        }
    } else if s.len() > 0 && white_space(s.last()) {
        trimming_takes_off_the_ends(s.drop_last(), c);
    }
    if white_space(c) && s.len() == 0 {
        assert(s.push(c).skip(1) =~= s);
    }
}

/// A number is read from a text exactly where the text holds digits and nothing else, save a plus
/// sign before them, and the number is no more than the limit. The number is that of the digits.
pub proof fn numbers_are_read_from_digits(s: Seq<char>, max: nat)
    ensures
        all_digits(s) && s.len() > 0 ==> parsed_number(s, max) == (if digits_value(s) <= max {
            Some(digits_value(s))
        } else {
            None
        }),
        all_digits(s) && s.len() > 0 ==> parsed_number(seq!['+'] + s, max) == parsed_number(s, max),
        s.len() == 0 ==> parsed_number(s, max) is None,
        s.len() > 0 && !all_digits(s) && !(s[0] == '+' && s.len() > 1 && all_digits(s.skip(1)))
            ==> parsed_number(s, max) is None,
        parsed_number(s, max) matches Some(n) ==> n <= max,
{
    let signed = seq!['+'] + s;
    assert(signed.skip(1) =~= s);
    assert(signed[0] == '+');
    if s.len() > 1 && s[0] == '+' {
        assert(!all_digits(s));
    }
}

/// A number is read back from what it is written as, and no two numbers are written alike.
pub proof fn decimals_read_back(n: nat, m: nat)
    ensures
        parsed_number(decimal(n), n) == Some(n),
        decimal(n) == decimal(m) ==> n == m,
        n > 0 ==> decimal(n)[0] != '0',
    decreases n,
{
    lemma_decimal_parses(n, n);
    lemma_decimal_digits(n);
    lemma_decimal_digits(m);
    if n >= 10 {
        decimals_read_back(n / 10, m);
        lemma_decimal_digits(n / 10);
        assert(decimal(n)[0] == decimal(n / 10)[0]);
    }
}

/// A part occurs in a text that holds it, wherever it stands, and a text that it occurs in holds it
/// somewhere.
pub proof fn parts_occur_where_they_stand(a: Seq<char>, part: Seq<char>, b: Seq<char>)
    ensures
        occurs(a + part + b, part),
        occurs(a, part) <==> exists|i: int|
            0 <= i && i + part.len() <= a.len() && #[trigger] a.skip(i).take(part.len() as int) == part,
        begins_with(part + b, part),
        begins_with(a, part) ==> a == part + a.skip(part.len() as int),
{
    let s = a + part + b;
    let at = a.len() as int;
    assert(s.subrange(at, at + part.len()) =~= part);
    assert((part + b).take(part.len() as int) =~= part);
    if begins_with(a, part) {
        assert(a =~= part + a.skip(part.len() as int));
    }
    if occurs(a, part) {
        let i = choose|i: int|
            0 <= i <= a.len() - part.len() && #[trigger] a.subrange(i, i + part.len()) == part;
        assert(a.skip(i).take(part.len() as int) =~= a.subrange(i, i + part.len()));
    }
    if exists|i: int|
        0 <= i && i + part.len() <= a.len() && #[trigger] a.skip(i).take(part.len() as int) == part {
        let i = choose|i: int|
            0 <= i && i + part.len() <= a.len() && #[trigger] a.skip(i).take(part.len() as int) == part;
        assert(a.subrange(i, i + part.len()) =~= a.skip(i).take(part.len() as int));
    }
}

/// A number is written and read back by the functions that do it.
pub proof fn written_numbers_are_parsed(n: u64, s: String, text: &str, read: Option<usize>)
    requires
        call_ensures(decimal_text, (n,), s),
        text@ == s@,
        call_ensures(parse_usize, (text,), read),
    ensures
        n <= usize::MAX ==> read == Some(n as usize),
        n > usize::MAX ==> read is None,
{
    lemma_decimal_digits(n as nat);
    lemma_decimal_parses(n as nat, n as nat);
    numbers_are_read_from_digits(decimal(n as nat), usize::MAX as nat);
}

/// White space, by its codes.
pub proof fn white_space_by_code(c: char)
    ensures
        white_space(c) <==> {
            let n = c as int;
            ||| 9 <= n <= 13 || n == 32 || n == 133 || n == 160 || n == 5760
            ||| 8192 <= n <= 8202 || n == 8232 || n == 8233 || n == 8239 || n == 8287 || n == 12288
        },
{
}

} // verus!
