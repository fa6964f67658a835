//! Text: white space, searching, and UTF-8.

use vstd::prelude::*;
use vstd::utf8::{encode_utf8, is_ascii_chars_encode_utf8, valid_utf8};

verus! {

/// The characters with Unicode's `White_Space` property.
pub open spec fn white_space(c: char) -> bool {
    ||| '\u{9}' <= c <= '\u{d}'
    ||| c == ' '
    ||| c == '\u{85}'
    ||| c == '\u{a0}'
    ||| c == '\u{1680}'
    ||| '\u{2000}' <= c <= '\u{200a}'
    ||| c == '\u{2028}'
    ||| c == '\u{2029}'
    ||| c == '\u{202f}'
    ||| c == '\u{205f}'
    ||| c == '\u{3000}'
}

/// `s` without the white space at its front.
pub open spec fn trimmed_front(s: Seq<char>) -> Seq<char>
    decreases s.len(),
{
    if s.len() > 0 && white_space(s.first()) {
        trimmed_front(s.drop_first())
    } else {
        s
    }
}

/// `s` without the white space at its back.
pub open spec fn trimmed_back(s: Seq<char>) -> Seq<char>
    decreases s.len(),
{
    if s.len() > 0 && white_space(s.last()) {
        trimmed_back(s.drop_last())
    } else {
        s
    }
}

/// `s` without the white space at either end.
pub open spec fn trimmed(s: Seq<char>) -> Seq<char> {
    trimmed_back(trimmed_front(s))
}

/// Calls `str::trim`: the text between the white space at the front and the
/// white space at the back, white space being Unicode's `White_Space`.
#[verifier::external_body]
pub(crate) fn trim(s: &str) -> (r: &str)
    ensures
        r@ == trimmed(s@),
{
    s.trim()
}

/// Words that say why bytes are not UTF-8, as `FromUtf8Error` displays them.
pub uninterp spec fn utf8_error(bytes: Seq<u8>) -> Seq<char>;

/// Calls `String::from_utf8`: the text that the bytes encode, if they are
/// UTF-8, and the words of the error otherwise.
#[verifier::external_body]
pub(crate) fn decode_text(bytes: Vec<u8>) -> (r: Result<String, String>)
    ensures
        match r {
            Ok(text) => valid_utf8(bytes@) && encode_utf8(text@) == bytes@,
            Err(words) => !valid_utf8(bytes@) && words@ == utf8_error(bytes@),
        },
{
    String::from_utf8(bytes).map_err(|error| error.to_string())
}

/// A text is encoded character by character.
pub proof fn lemma_encode_push(s: Seq<char>, c: char)
    ensures
        encode_utf8(s.push(c)) == encode_utf8(s) + encode_utf8(seq![c]),
    decreases s.len(),
{
    if s.len() == 0 {
        assert(s.push(c) =~= seq![c]);
        assert(encode_utf8(s) =~= Seq::empty());
        assert(encode_utf8(s) + encode_utf8(seq![c]) =~= encode_utf8(seq![c]));
    } else {
        assert(s.push(c).drop_first() =~= s.drop_first().push(c));
        assert(s.push(c)[0] == s[0]);
        lemma_encode_push(s.drop_first(), c);
        assert(encode_utf8(s.push(c)) =~= encode_utf8(s) + encode_utf8(seq![c]));
    }
}

/// A line feed is encoded as one byte.
pub proof fn lemma_encode_line_feed(s: Seq<char>)
    ensures
        encode_utf8(s.push('\n')) == encode_utf8(s).push(0x0a),
{
    lemma_encode_push(s, '\n');
    let line = seq!['\n'];
    is_ascii_chars_encode_utf8(line);
    assert(encode_utf8(line) =~= seq![0x0a]);
    assert(encode_utf8(s) + seq![0x0a] =~= encode_utf8(s).push(0x0a));
}

/// Where `p` first holds in `s`: an index, or the length if it holds nowhere.
pub open spec fn first_where<A>(s: Seq<A>, p: spec_fn(A) -> bool) -> nat
    decreases s.len(),
{
    if s.len() == 0 || p(s.first()) {
        0
    } else {
        1 + first_where(s.drop_first(), p)
    }
}

/// What makes an index the first one.
pub proof fn lemma_first_where<A>(s: Seq<A>, p: spec_fn(A) -> bool, i: int)
    requires
        0 <= i <= s.len(),
        forall|j: int| 0 <= j < i ==> !p(#[trigger] s[j]),
        i < s.len() ==> p(s[i]),
    ensures
        first_where(s, p) == i,
    decreases s.len(),
{
    if i > 0 {
        let rest = s.drop_first();
        assert forall|j: int| 0 <= j < i - 1 implies !p(#[trigger] rest[j]) by {
            assert(rest[j] == s[j + 1]);
        }
        lemma_first_where(rest, p, i - 1);
    }
}

/// What the first index is.
pub proof fn lemma_first_where_holds<A>(s: Seq<A>, p: spec_fn(A) -> bool)
    ensures
        ({
            let i = first_where(s, p) as int;
            &&& i <= s.len()
            &&& i < s.len() ==> p(s[i])
            &&& forall|j: int| 0 <= j < i ==> !p(#[trigger] s[j])
        }),
    decreases s.len(),
{
    if s.len() > 0 && !p(s.first()) {
        let rest = s.drop_first();
        lemma_first_where_holds(rest, p);
        assert forall|j: int| 0 <= j < first_where(s, p) implies !p(#[trigger] s[j]) by {
            if j > 0 {
                assert(rest[j - 1] == s[j]);
            }
        }
    }
}

/// The test for being `c`.
pub open spec fn is_char(c: char) -> spec_fn(char) -> bool {
    |x: char| x == c
}

/// Where `c` first stands in `s`: an index, or the length if it stands nowhere.
pub open spec fn first_of(s: Seq<char>, c: char) -> nat {
    first_where(s, is_char(c))
}

/// Finds the first `c`, counting in characters.
pub fn find_char(s: &str, c: char) -> (r: Option<usize>)
    ensures
        match r {
            Some(i) => i == first_of(s@, c) && i < s@.len(),
            None => first_of(s@, c) == s@.len(),
        },
{
    let mut i: usize = 0;
    let length: usize = s.unicode_len();
    for x in it: s.chars()
        invariant
            length == s@.len(),
            it.seq() == s@,
            i == it.index(),
            forall|j: int| 0 <= j < i ==> s@[j] != c,
    {
        if x == c {
            proof {
                lemma_first_where(s@, is_char(c), i as int);
            }
            return Some(i);
        }
        i = i + 1;
    }
    proof {
        lemma_first_where(s@, is_char(c), i as int);
    }
    None
}

} // verus!
