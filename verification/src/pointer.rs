//! JSON Pointers: escaping a token, and reading a pointer back into its tokens.

use vstd::prelude::*;
use vstd::string::*;
use crate::text::{
    chars_of, decimal, lemma_decimal_digits, lemma_pieces_extend, lemma_pieces_single, pieces,
    split, text_of, texts,
};

verus! {

/// How one character of a token is written.
pub open spec fn escaped_char(c: char) -> Seq<char> {
    if c == '~' {
        seq!['~', '0']
    } else if c == '/' {
        seq!['~', '1']
    } else {
        seq![c]
    }
}

/// How a token is written: `~` as `~0`, and `/` as `~1`.
pub open spec fn escaped(token: Seq<char>) -> Seq<char>
    decreases token.len(),
{
    if token.len() == 0 {
        Seq::empty()
    } else {
        escaped_char(token[0]) + escaped(token.skip(1))
    }
}

/// A text with every occurrence of the two characters `a`, `b`, from the left, replaced by `c`.
pub open spec fn pair_replaced(s: Seq<char>, a: char, b: char, c: char) -> Seq<char>
    decreases s.len(),
{
    if s.len() == 0 {
        Seq::empty()
    } else if s.len() >= 2 && s[0] == a && s[1] == b {
        seq![c] + pair_replaced(s.skip(2), a, b, c)
    } else {
        seq![s[0]] + pair_replaced(s.skip(1), a, b, c)
    }
}

/// What a written token stands for.
pub open spec fn unescaped(s: Seq<char>) -> Seq<char> {
    pair_replaced(pair_replaced(s, '~', '1', '/'), '~', '0', '~')
}

/// Escape a token for use in a pointer.
pub fn escape_pointer(token: &str) -> (r: String)
    ensures
        r@ == escaped(token@),
{
    let chars = chars_of(token);
    let mut out = String::new();
    let mut i: usize = 0;
    assert(token@.skip(0) =~= token@);
    while i < chars.len()
        invariant
            i <= chars.len(),
            chars@ == token@,
            out@ + escaped(token@.skip(i as int)) == escaped(token@),
        decreases chars.len() - i,
    {
        let c = chars[i];
        let ghost rest = token@.skip(i as int);
        let ghost before = out@;
        assert(rest.skip(1) =~= token@.skip(i + 1));
        if c == '~' {
            out.push('~');
            out.push('0');
        } else if c == '/' {
            out.push('~');
            out.push('1');
        } else {
            out.push(c);
        }
        assert(out@ =~= before + escaped_char(c));
        assert(out@ + escaped(rest.skip(1)) =~= before + (escaped_char(c) + escaped(
            rest.skip(1),
        )));
        i += 1;
    }
    assert(out@ + escaped(token@.skip(i as int)) =~= out@);
    out
}

fn replace_pair(s: &str, a: char, b: char, c: char) -> (r: String)
    ensures
        r@ == pair_replaced(s@, a, b, c),
{
    let chars = chars_of(s);
    let mut out = String::new();
    let mut i: usize = 0;
    assert(s@.skip(0) =~= s@);
    while i < chars.len()
        invariant
            i <= chars.len(),
            chars@ == s@,
            out@ + pair_replaced(s@.skip(i as int), a, b, c) == pair_replaced(s@, a, b, c),
        decreases chars.len() - i,
    {
        let ghost rest = s@.skip(i as int);
        let ghost before = out@;
        if i + 1 < chars.len() && chars[i] == a && chars[i + 1] == b {
            out.push(c);
            assert(rest.skip(2) =~= s@.skip(i + 2));
            assert(out@ + pair_replaced(rest.skip(2), a, b, c) =~= before + (seq![c]
                + pair_replaced(rest.skip(2), a, b, c)));
            i += 2;
        } else {
            out.push(chars[i]);
            assert(rest.skip(1) =~= s@.skip(i + 1));
            assert(out@ + pair_replaced(rest.skip(1), a, b, c) =~= before + (seq![rest[0]]
                + pair_replaced(rest.skip(1), a, b, c)));
            i += 1;
        }
    }
    assert(out@ + pair_replaced(s@.skip(i as int), a, b, c) =~= out@);
    out
}

/// The tokens of a pointer: none for the empty pointer, and no answer for one that does not
/// start with `/`.
pub open spec fn tokens(path: Seq<char>) -> Option<Seq<Seq<char>>> {
    if path.len() == 0 {
        Some(Seq::empty())
    } else if path[0] != '/' {
        None
    } else {
        Some(pieces(path.skip(1), '/').map_values(|s: Seq<char>| unescaped(s)))
    }
}

/// Read a pointer into its tokens.
pub fn parse_pointer(path: &str) -> (r: Option<Vec<String>>)
    ensures
        match r {
            Some(v) => tokens(path@) == Some(texts(v@)),
            None => tokens(path@) is None,
        },
{
    let chars = chars_of(path);
    if chars.len() == 0 {
        let none: Vec<String> = Vec::new();
        assert(texts(none@) =~= Seq::empty());
        return Some(none);
    }
    if chars[0] != '/' {
        return None;
    }
    let tail = vstd::slice::slice_subrange(chars.as_slice(), 1, chars.len());
    assert(tail@ =~= path@.skip(1));
    let parts = split(text_of(tail).as_str(), '/');
    let mut out: Vec<String> = Vec::new();
    let mut i: usize = 0;
    while i < parts.len()
        invariant
            i <= parts.len(),
            out.len() == i,
            forall|k: int| 0 <= k < i ==> (#[trigger] out@[k])@ == unescaped(parts@[k]@),
        decreases parts.len() - i,
    {
        let once = replace_pair(parts[i].as_str(), '~', '1', '/');
        let twice = replace_pair(once.as_str(), '~', '0', '~');
        out.push(twice);
        i += 1;
    }
    assert(texts(out@) =~= texts(parts@).map_values(|s: Seq<char>| unescaped(s)));
    Some(out)
}

/// The pointer to a member of what a pointer points to.
pub open spec fn member_path(path: Seq<char>, key: Seq<char>) -> Seq<char> {
    path.push('/') + escaped(key)
}

/// The pointer to an element of what a pointer points to.
pub open spec fn element_path(path: Seq<char>, i: nat) -> Seq<char> {
    path.push('/') + decimal(i)
}

/// A token with only its `~` escaped.
spec fn tilde_escaped(token: Seq<char>) -> Seq<char>
    decreases token.len(),
{
    if token.len() == 0 {
        Seq::empty()
    } else {
        (if token[0] == '~' {
            seq!['~', '0']
        } else {
            seq![token[0]]
        }) + tilde_escaped(token.skip(1))
    }
}

proof fn lemma_first_pass(token: Seq<char>)
    ensures
        pair_replaced(escaped(token), '~', '1', '/') == tilde_escaped(token),
    decreases token.len(),
{
    reveal_with_fuel(pair_replaced, 3);
    if token.len() > 0 {
        lemma_first_pass(token.skip(1));
        let e = escaped(token);
        let tail = escaped(token.skip(1));
        if token[0] == '~' {
            assert(e.skip(1) =~= seq!['0'] + tail);
            assert(e.skip(1).skip(1) =~= tail);
            assert(pair_replaced(e, '~', '1', '/') =~= tilde_escaped(token));
        } else if token[0] == '/' {
            assert(e.skip(2) =~= tail);
        } else {
            assert(e.skip(1) =~= tail);
        }
    }
}

proof fn lemma_second_pass(token: Seq<char>)
    ensures
        pair_replaced(tilde_escaped(token), '~', '0', '~') == token,
    decreases token.len(),
{
    reveal_with_fuel(pair_replaced, 3);
    if token.len() > 0 {
        lemma_second_pass(token.skip(1));
        let e = tilde_escaped(token);
        let tail = tilde_escaped(token.skip(1));
        if token[0] == '~' {
            assert(e.skip(2) =~= tail);
        } else {
            assert(e.skip(1) =~= tail);
        }
        assert(seq![token[0]] + token.skip(1) =~= token);
    } else {
        assert(pair_replaced(tilde_escaped(token), '~', '0', '~') =~= token);
    }
}

/// Reading an escaped token gives the token back.
pub proof fn escape_round_trip(token: Seq<char>)
    ensures
        unescaped(escaped(token)) == token,
{
    lemma_first_pass(token);
    lemma_second_pass(token);
}

/// An escaped token holds no `/`.
pub proof fn escape_hides_slash(token: Seq<char>)
    ensures
        !escaped(token).contains('/'),
    decreases token.len(),
{
    if token.len() > 0 {
        escape_hides_slash(token.skip(1));
        let tail = escaped(token.skip(1));
        let head = escaped_char(token[0]);
        if escaped(token).contains('/') {
            let i = choose|i: int| 0 <= i < escaped(token).len() && escaped(token)[i] == '/';
            if i >= head.len() {
                assert(tail[i - head.len()] == '/');
                assert(tail.contains('/'));
            }
        }
    }
}

proof fn lemma_plain_unescaped(s: Seq<char>, b: char, c: char)
    requires
        !s.contains('~'),
    ensures
        pair_replaced(s, '~', b, c) == s,
    decreases s.len(),
{
    if s.len() > 0 {
        assert(s[0] != '~');
        assert(!s.skip(1).contains('~')) by {
            if s.skip(1).contains('~') {
                let i = choose|i: int| 0 <= i < s.skip(1).len() && s.skip(1)[i] == '~';
                assert(s[i + 1] == '~');
            }
        }
        lemma_plain_unescaped(s.skip(1), b, c);
        assert(seq![s[0]] + s.skip(1) =~= s);
    } else {
        assert(pair_replaced(s, '~', b, c) =~= s);
    }
}

proof fn lemma_tokens_extend(path: Seq<char>, ts: Seq<Seq<char>>, tail: Seq<char>)
    requires
        tokens(path) == Some(ts),
        !tail.contains('/'),
    ensures
        tokens(path.push('/') + tail) == Some(ts.push(unescaped(tail))),
{
    let whole = path.push('/') + tail;
    let f = |s: Seq<char>| unescaped(s);
    if path.len() == 0 {
        lemma_pieces_single(tail, '/');
        assert(whole.skip(1) =~= tail);
        assert(pieces(whole.skip(1), '/').map_values(f) =~= ts.push(unescaped(tail)));
    } else {
        lemma_pieces_extend(path.skip(1), '/', tail);
        assert(whole.skip(1) =~= path.skip(1).push('/') + tail);
        assert(pieces(whole.skip(1), '/').map_values(f) =~= ts.push(unescaped(tail)));
    }
}

/// The pointer to a member has the member's key as its last token.
pub proof fn member_path_tokens(path: Seq<char>, ts: Seq<Seq<char>>, key: Seq<char>)
    requires
        tokens(path) == Some(ts),
    ensures
        tokens(member_path(path, key)) == Some(ts.push(key)),
{
    escape_round_trip(key);
    escape_hides_slash(key);
    lemma_tokens_extend(path, ts, escaped(key));
}

/// The pointer to an element has the element's index as its last token.
pub proof fn element_path_tokens(path: Seq<char>, ts: Seq<Seq<char>>, i: nat)
    requires
        tokens(path) == Some(ts),
    ensures
        tokens(element_path(path, i)) == Some(ts.push(decimal(i))),
{
    let d = decimal(i);
    lemma_decimal_digits(i);
    assert(!d.contains('/'));
    assert(!d.contains('~'));
    lemma_plain_unescaped(d, '1', '/');
    lemma_plain_unescaped(d, '0', '~');
    lemma_tokens_extend(path, ts, d);
}

/// A token that was escaped is a single token of the pointer that it stands in, and is read back.
pub proof fn escaped_tokens_are_read_back(
    token: &str,
    safe: String,
    path: &str,
    read: Option<Vec<String>>,
)
    requires
        call_ensures(escape_pointer, (token,), safe),
        path@ == seq!['/'] + safe@,
        call_ensures(parse_pointer, (path,), read),
    ensures
        read matches Some(ts) && texts(ts@) == seq![token@],
{
    let root = Seq::<char>::empty();
    assert(tokens(root) == Some(Seq::<Seq<char>>::empty()));
    member_path_tokens(root, Seq::empty(), token@);
    assert(member_path(root, token@) =~= path@);
    assert(Seq::<Seq<char>>::empty().push(token@) =~= seq![token@]);
}

/// A pointer has tokens exactly where it is empty or starts with a slash, and each slash starts one
/// more.
pub proof fn slashes_start_tokens(path: Seq<char>, tail: Seq<char>)
    requires
        !tail.contains('/'),
    ensures
        tokens(path) is Some <==> path.len() == 0 || path[0] == '/',
        tokens(path) matches Some(ts) ==> tokens(path.push('/') + tail) == Some(
            ts.push(unescaped(tail)),
        ),
{
    if let Some(ts) = tokens(path) {
        lemma_tokens_extend(path, ts, tail);
    }
}

proof fn lemma_escaped_joined(a: Seq<char>, b: Seq<char>)
    ensures
        escaped(a + b) == escaped(a) + escaped(b),
    decreases a.len(),
{
    if a.len() == 0 {
        assert(a + b =~= b);
        assert(escaped(a) + escaped(b) =~= escaped(b));
    } else {
        assert((a + b)[0] == a[0]);
        assert((a + b).skip(1) =~= a.skip(1) + b);
        lemma_escaped_joined(a.skip(1), b);
        assert(escaped(a + b) =~= escaped(a) + escaped(b));
    }
}

/// A token is escaped character by character: a tilde becomes `~0`, a slash becomes `~1`, and every
/// other character stays.
pub proof fn tildes_and_slashes_are_escaped(before: Seq<char>, c: char, after: Seq<char>)
    ensures
        c == '~' ==> escaped(before + seq![c] + after) == escaped(before) + seq!['~', '0'] + escaped(
            after,
        ),
        c == '/' ==> escaped(before + seq![c] + after) == escaped(before) + seq!['~', '1'] + escaped(
            after,
        ),
        c != '~' && c != '/' ==> escaped(before + seq![c] + after) == escaped(before) + seq![c]
            + escaped(after),
        escaped(Seq::empty()).len() == 0,
{
    let one = seq![c];
    lemma_escaped_joined(before + one, after);
    lemma_escaped_joined(before, one);
    assert(one[0] == c);
    assert(one.skip(1) =~= Seq::empty());
    assert(escaped(Seq::<char>::empty()) =~= Seq::empty());
    assert(escaped(one) =~= escaped_char(c));
}

} // verus!
