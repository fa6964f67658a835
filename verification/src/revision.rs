//! The revision of a file: a short text that changes when its bytes do.

use vstd::prelude::*;

verus! {

/// The SHA-256 digest of some bytes.
pub uninterp spec fn sha256_digest(bytes: Seq<u8>) -> Seq<u8>;

/// Calls `sha2::Sha256::digest`: a digest of 32 bytes, which depends on the
/// bytes alone.
#[verifier::external_body]
fn digest(bytes: &[u8]) -> (r: Vec<u8>)
    ensures
        r@ == sha256_digest(bytes@),
        r@.len() == 32,
{
    <sha2::Sha256 as sha2::Digest>::digest(bytes).to_vec()
}

/// The hexadecimal digit for a number below sixteen, in lower case.
pub open spec fn hex_digit(n: u8) -> char {
    if n < 10 {
        (0x30 + n) as char
    } else {
        (0x57 + n) as char
    }
}

/// Two hexadecimal digits for each byte.
pub open spec fn hex(bytes: Seq<u8>) -> Seq<char>
    decreases bytes.len(),
{
    if bytes.len() == 0 {
        Seq::empty()
    } else {
        hex(bytes.drop_last()).push(hex_digit(bytes.last() / 16)).push(
            hex_digit(bytes.last() % 16),
        )
    }
}

/// The revision of a file with these bytes.
pub open spec fn revision_of(bytes: Seq<u8>) -> Seq<char> {
    hex(sha256_digest(bytes))
}

/// The hexadecimal digit for a number below sixteen, as text.
fn hex_text(n: u8) -> (r: &'static str)
    requires
        n < 16,
    ensures
        r@ == seq![hex_digit(n)],
{
    let r: &'static str = match n {
        0 => "0",
        1 => "1",
        2 => "2",
        3 => "3",
        4 => "4",
        5 => "5",
        6 => "6",
        7 => "7",
        8 => "8",
        9 => "9",
        10 => "a",
        11 => "b",
        12 => "c",
        13 => "d",
        14 => "e",
        _ => "f",
    };
    proof {
        reveal_strlit("0");
        reveal_strlit("1");
        reveal_strlit("2");
        reveal_strlit("3");
        reveal_strlit("4");
        reveal_strlit("5");
        reveal_strlit("6");
        reveal_strlit("7");
        reveal_strlit("8");
        reveal_strlit("9");
        reveal_strlit("a");
        reveal_strlit("b");
        reveal_strlit("c");
        reveal_strlit("d");
        reveal_strlit("e");
        reveal_strlit("f");
        assert(r@ =~= seq![hex_digit(n)]);
    }
    r
}

/// Writes two hexadecimal digits for each byte.
pub fn to_hex(bytes: &[u8]) -> (r: String)
    ensures
        r@ == hex(bytes@),
{
    let mut out: String = String::new();
    let mut i: usize = 0;
    while i < bytes.len()
        invariant
            i <= bytes@.len(),
            out@ == hex(bytes@.take(i as int)),
        decreases bytes@.len() - i,
    {
        let b: u8 = bytes[i];
        proof {
            assert(bytes@.take(i + 1).drop_last() =~= bytes@.take(i as int));
        }
        out.append(hex_text(b / 16));
        out.append(hex_text(b % 16));
        assert(out@ =~= hex(bytes@.take(i + 1)));
        i = i + 1;
    }
    assert(bytes@.take(i as int) =~= bytes@);
    out
}

/// The revision of a file with these bytes: its SHA-256 digest in hexadecimal
/// digits.
pub fn revision(bytes: &[u8]) -> (r: String)
    ensures
        r@ == revision_of(bytes@),
        r@.len() == 64,
{
    let sum: Vec<u8> = digest(bytes);
    proof {
        lemma_hex_length(sum@);
    }
    to_hex(sum.as_slice())
}

/// Hexadecimal text is twice as long as the bytes.
pub proof fn lemma_hex_length(bytes: Seq<u8>)
    ensures
        hex(bytes).len() == 2 * bytes.len(),
    decreases bytes.len(),
{
    if bytes.len() > 0 {
        lemma_hex_length(bytes.drop_last());
    }
}

/// Different digits stand for different numbers.
proof fn lemma_hex_digit(m: u8, n: u8)
    requires
        m < 16,
        n < 16,
        hex_digit(m) == hex_digit(n),
    ensures
        m == n,
{
}

/// Different bytes have different hexadecimal texts.
pub proof fn law_hex_is_injective(a: Seq<u8>, b: Seq<u8>)
    requires
        hex(a) == hex(b),
    ensures
        a == b,
    decreases a.len(),
{
    lemma_hex_length(a);
    lemma_hex_length(b);
    if a.len() > 0 {
        let (s, t) = (hex(a), hex(b));
        assert(s.drop_last().drop_last() =~= hex(a.drop_last()));
        assert(t.drop_last().drop_last() =~= hex(b.drop_last()));
        assert(s[s.len() - 1] == hex_digit(a.last() % 16));
        assert(t[t.len() - 1] == hex_digit(b.last() % 16));
        assert(s[s.len() - 2] == hex_digit(a.last() / 16));
        assert(t[t.len() - 2] == hex_digit(b.last() / 16));
        law_hex_is_injective(a.drop_last(), b.drop_last());
        lemma_hex_digit(a.last() % 16, b.last() % 16);
        lemma_hex_digit(a.last() / 16, b.last() / 16);
        assert(a =~= a.drop_last().push(a.last()));
        assert(b =~= b.drop_last().push(b.last()));
    }
}

/// Two files have one revision exactly if they have one digest.
pub proof fn law_revision_tells_digests_apart(a: Seq<u8>, b: Seq<u8>)
    ensures
        revision_of(a) == revision_of(b) <==> sha256_digest(a) == sha256_digest(b),
{
    if revision_of(a) == revision_of(b) {
        law_hex_is_injective(sha256_digest(a), sha256_digest(b));
    }
}

} // verus!
