//! Keys of objects in storage.

use vstd::prelude::*;
use vstd::string::*;
use crate::text::{
    chars_of, contains, lemma_pieces_extend, lemma_pieces_single, occurs, pieces, same_text, split,
    texts,
};

verus! {

/// Whether a key may hold a character: a letter, a digit, `-`, `_`, `.` or `/`.
pub open spec fn key_char(c: char) -> bool {
    ('a' <= c && c <= 'z') || ('A' <= c && c <= 'Z') || ('0' <= c && c <= '9') || c == '-' || c
        == '_' || c == '.' || c == '/'
}

/// Whether a component of a key names something below the directory that the key is joined to.
pub open spec fn component_ok(component: Seq<char>) -> bool {
    component.len() > 0 && component != "."@ && !occurs(component, ".."@)
}

/// Whether a text is a key.
pub open spec fn valid_key(s: Seq<char>) -> bool {
    &&& s.len() > 0
    &&& forall|i: int| 0 <= i < s.len() ==> key_char(#[trigger] s[i])
    &&& forall|i: int| 0 <= i < pieces(s, '/').len() ==> component_ok(#[trigger] pieces(s, '/')[i])
}

/// The key of an object.
#[derive(Debug)]
pub struct ObjectKey {
    key: String,
}

/// The text is no key.
#[derive(Debug, Clone, Copy, PartialEq, Eq, Structural)]
pub enum ObjectKeyError {
    /// It is empty, or holds a character that keys do not have.
    BadCharacter,
    /// A component is empty, is `.`, or holds `..`.
    PathTraversal,
}

impl View for ObjectKey {
    type V = Seq<char>;

    closed spec fn view(&self) -> Seq<char> {
        self.key@
    }
}

fn has_key_chars(s: &str) -> (r: bool)
    ensures
        r == (s@.len() > 0 && forall|i: int| 0 <= i < s@.len() ==> key_char(#[trigger] s@[i])),
{
    let chars = chars_of(s);
    let mut i: usize = 0;
    while i < chars.len()
        invariant
            i <= chars.len(),
            chars@ == s@,
            forall|j: int| 0 <= j < i ==> key_char(#[trigger] s@[j]),
        decreases chars.len() - i,
    {
        let c = chars[i];
        if !(('a' <= c && c <= 'z') || ('A' <= c && c <= 'Z') || ('0' <= c && c <= '9') || c == '-'
            || c == '_' || c == '.' || c == '/') {
            assert(!key_char(s@[i as int]));
            return false;
        }
        i += 1;
    }
    chars.len() > 0
}

fn has_safe_components(s: &str) -> (r: bool)
    ensures
        r == (forall|i: int|
            0 <= i < pieces(s@, '/').len() ==> component_ok(#[trigger] pieces(s@, '/')[i])),
{
    let parts = split(s, '/');
    let ghost all = pieces(s@, '/');
    let mut i: usize = 0;
    while i < parts.len()
        invariant
            i <= parts.len(),
            texts(parts@) == all,
            all == pieces(s@, '/'),
            forall|j: int| 0 <= j < i ==> component_ok(#[trigger] all[j]),
        decreases parts.len() - i,
    {
        let part = parts[i].as_str();
        assert(all[i as int] == part@);
        if part.is_empty() || same_text(part, ".") || contains(part, "..") {
            assert(!component_ok(all[i as int]));
            return false;
        }
        i += 1;
    }
    true
}

impl ObjectKey {
    #[verifier::type_invariant]
    spec fn inv(self) -> bool {
        valid_key(self.key@)
    }

    /// The key that a text is.
    pub fn try_from(s: &str) -> (r: Result<ObjectKey, ObjectKeyError>)
        ensures
            match r {
                Ok(key) => valid_key(s@) && key@ == s@,
                Err(ObjectKeyError::BadCharacter) => s@.len() == 0 || exists|i: int|
                    0 <= i < s@.len() && !key_char(#[trigger] s@[i]),
                Err(ObjectKeyError::PathTraversal) => s@.len() > 0 && (forall|i: int|
                    0 <= i < s@.len() ==> key_char(#[trigger] s@[i])) && exists|i: int|
                    0 <= i < pieces(s@, '/').len() && !component_ok(#[trigger] pieces(s@, '/')[i]),
            },
    {
        if !has_key_chars(s) {
            return Err(ObjectKeyError::BadCharacter);
        }
        if !has_safe_components(s) {
            return Err(ObjectKeyError::PathTraversal);
        }
        Ok(ObjectKey { key: s.to_owned() })
    }

    /// The text of a key, which is valid.
    pub fn as_str(&self) -> (r: &str)
        ensures
            r@ == self@,
            valid_key(r@),
    {
        proof {
            use_type_invariant(self);
        }
        self.key.as_str()
    }

    /// The text of a key, which is valid.
    pub fn into_string(self) -> (r: String)
        ensures
            r@ == self@,
            valid_key(r@),
    {
        proof {
            use_type_invariant(&self);
        }
        self.key
    }
}

proof fn lemma_first_piece(s: Seq<char>)
    requires
        s.len() > 0,
        s[0] == '/',
    ensures
        pieces(s, '/').len() >= 2,
        pieces(s, '/')[0] == Seq::<char>::empty(),
    decreases s.len(),
{
    reveal_with_fuel(pieces, 2);
    if s.len() == 1 {
        assert(s.drop_last() =~= Seq::empty());
    } else {
        lemma_first_piece(s.drop_last());
    }
}

/// A key does not start at the root, and none of its components leads out of the directory that it
/// is joined to.
pub proof fn keys_stay_inside(s: Seq<char>, i: int)
    requires
        valid_key(s),
        0 <= i < pieces(s, '/').len(),
    ensures
        s[0] != '/',
        pieces(s, '/')[i] != Seq::<char>::empty(),
        pieces(s, '/')[i] != "."@,
        pieces(s, '/')[i] != ".."@,
{
    if s[0] == '/' {
        lemma_first_piece(s);
        assert(component_ok(pieces(s, '/')[0]));
    }
    let part = pieces(s, '/')[i];
    assert(component_ok(part));
    if part == ".."@ {
        assert(part.subrange(0int, 0int + part.len()) =~= part);
        assert(occurs(part, ".."@));
    }
}

/// A key with the bucket and the prefix of its storage.
#[derive(Debug)]
pub struct FullyQualifiedObjectKey {
    key: String,
}

impl View for FullyQualifiedObjectKey {
    type V = Seq<char>;

    closed spec fn view(&self) -> Seq<char> {
        self.key@
    }
}

impl FullyQualifiedObjectKey {
    /// The key that a text is.
    pub fn new(key: String) -> (r: FullyQualifiedObjectKey)
        ensures
            r@ == key@,
    {
        FullyQualifiedObjectKey { key }
    }

    /// The text of a key.
    pub fn as_str(&self) -> (r: &str)
        ensures
            r@ == self@,
    {
        self.key.as_str()
    }

    /// The text of a key.
    pub fn into_string(self) -> (r: String)
        ensures
            r@ == self@,
    {
        self.key
    }
}

/// The characters of a key, by their codes: letters, digits, and four signs.
pub proof fn keys_are_plain_ascii(c: char)
    ensures
        key_char(c) <==> 0x61 <= c as int <= 0x7a || 0x41 <= c as int <= 0x5a || 0x30 <= c as int
            <= 0x39 || c == '-' || c == '_' || c == '.' || c == '/',
{
}

/// A component on its own is a key exactly where it holds a character, holds only the characters of
/// keys, is not `.`, and has no two dots in a row.
pub proof fn components_are_keys(s: Seq<char>)
    requires
        !s.contains('/'),
    ensures
        valid_key(s) <==> s.len() > 0 && (forall|i: int| 0 <= i < s.len() ==> key_char(#[trigger] s[i]))
            && s != seq!['.'] && (forall|i: int|
            0 <= i < s.len() - 1 ==> !(s[i] == '.' && #[trigger] s[i + 1] == '.')),
{
    reveal_strlit(".");
    reveal_strlit("..");
    assert("."@ =~= seq!['.']);
    lemma_pieces_single(s, '/');
    assert(pieces(s, '/')[0] == s);
    assert(occurs(s, ".."@) <==> exists|i: int|
        0 <= i < s.len() - 1 && s[i] == '.' && #[trigger] s[i + 1] == '.') by {
        if occurs(s, ".."@) {
            let i = choose|i: int|
                0 <= i <= s.len() - ".."@.len() && #[trigger] s.subrange(i, i + ".."@.len())
                    == ".."@;
            let part = s.subrange(i, i + ".."@.len());
            assert(part[0] == s[i] && part[1] == s[i + 1]);
            assert(s[i] == '.' && s[i + 1] == '.');
        }
        if exists|i: int| 0 <= i < s.len() - 1 && s[i] == '.' && #[trigger] s[i + 1] == '.' {
            let i = choose|i: int| 0 <= i < s.len() - 1 && s[i] == '.' && #[trigger] s[i + 1] == '.';
            assert(s.subrange(i, i + ".."@.len()) =~= ".."@);
        }
    }
    if component_ok(s) {
        assert(forall|i: int| 0 <= i < pieces(s, '/').len() ==> #[trigger] pieces(s, '/')[i] == s);
    }
}

/// A key with a slash and a component behind it is a key exactly where both the key and the
/// component are.
pub proof fn keys_are_made_of_components(s: Seq<char>, tail: Seq<char>)
    requires
        !tail.contains('/'),
        s.len() > 0,
    ensures
        valid_key(s.push('/') + tail) <==> valid_key(s) && valid_key(tail),
{
    let joint = s.push('/') + tail;
    let before = pieces(s, '/');
    lemma_pieces_extend(s, '/', tail);
    lemma_pieces_single(tail, '/');
    let all = pieces(joint, '/');
    assert(all == before.push(tail));
    assert(pieces(tail, '/')[0] == tail);
    if valid_key(joint) {
        assert forall|i: int| 0 <= i < s.len() implies key_char(#[trigger] s[i]) by {
            assert(joint[i] == s[i]);
        }
        assert forall|i: int| 0 <= i < tail.len() implies key_char(#[trigger] tail[i]) by {
            assert(joint[s.len() + 1 + i] == tail[i]);
        }
        assert forall|i: int| 0 <= i < before.len() implies component_ok(#[trigger] before[i]) by {
            assert(all[i] == before[i]);
        }
        assert(all[before.len() as int] == tail);
        assert(component_ok(tail));
    }
    if valid_key(s) && valid_key(tail) {
        assert forall|i: int| 0 <= i < joint.len() implies key_char(#[trigger] joint[i]) by {
            if i < s.len() {
                assert(joint[i] == s[i]);
            } else if i > s.len() {
                assert(joint[i] == tail[i - s.len() - 1]);
            }
        }
        assert(component_ok(tail));
        assert forall|i: int| 0 <= i < all.len() implies component_ok(#[trigger] all[i]) by {
            if i < before.len() {
                assert(all[i] == before[i]);
            }
        }
    }
}

/// A text is a key, with that text, exactly where it is valid. What is wrong with any other is its
/// characters, or that there are none, before its components.
pub proof fn texts_become_keys(s: &str, read: Result<ObjectKey, ObjectKeyError>)
    requires
        call_ensures(ObjectKey::try_from, (s,), read),
    ensures
        read is Ok <==> valid_key(s@),
        read matches Ok(key) ==> key@ == s@,
        read matches Err(e) ==> (e is BadCharacter <==> s@.len() == 0 || exists|i: int|
            0 <= i < s@.len() && !key_char(#[trigger] s@[i])),
{
}

/// What is taken out of a key is the text that was put in, and reads as a key again.
pub proof fn keys_read_back(
    s: &str,
    read: Result<ObjectKey, ObjectKeyError>,
    text: &str,
    again: Result<ObjectKey, ObjectKeyError>,
)
    requires
        call_ensures(ObjectKey::try_from, (s,), read),
        read is Ok,
        call_ensures(ObjectKey::as_str, (&read->Ok_0,), text),
        call_ensures(ObjectKey::try_from, (text,), again),
    ensures
        text@ == s@,
        again matches Ok(key) && key@ == s@,
{
}

} // verus!
