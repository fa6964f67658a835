//! What trimming, searching, reading within the limit and writing hexadecimal
//! digits come to, told by characters and bytes.

use vstd::prelude::*;
use vstd::utf8::{
    encode_utf8, encode_utf8_decode_utf8, encode_utf8_valid_utf8, valid_utf8,
};

use crate::error::ErrorModel;
use crate::files::{json5_file, json5_value, limited, utf8_text};
use crate::json::JsonModel;
use crate::json_text::json5_read;
use crate::revision::{hex, lemma_hex_length};
use crate::text::{
    first_of, is_char, lemma_first_where, trimmed, trimmed_back, trimmed_front, utf8_error,
    white_space,
};

verus! {

/// Every character is white space.
pub open spec fn blank(s: Seq<char>) -> bool {
    forall|i: int| 0 <= i < s.len() ==> white_space(#[trigger] s[i])
}

/// The first place of a character is found, whichever it is: behind a text in
/// which it does not stand.
pub proof fn law_first_place_is_found(front: Seq<char>, c: char, rest: Seq<char>)
    requires
        !front.contains(c),
    ensures
        first_of(front + seq![c] + rest, c) == front.len(),
        first_of(front, c) == front.len(),
{
    let whole = front + seq![c] + rest;
    assert forall|j: int| 0 <= j < front.len() implies !is_char(c)(#[trigger] whole[j]) by {
        assert(whole[j] == front[j]);
        assert(front.contains(front[j]));
    }
    assert forall|j: int| 0 <= j < front.len() implies !is_char(c)(#[trigger] front[j]) by {
        assert(front.contains(front[j]));
    }
    lemma_first_where(whole, is_char(c), front.len() as int);
    lemma_first_where(front, is_char(c), front.len() as int);
}

/// White space in front of a text that does not begin with it is trimmed.
proof fn lemma_trimmed_front(space: Seq<char>, rest: Seq<char>)
    requires
        blank(space),
        rest.len() > 0 ==> !white_space(rest.first()),
    ensures
        trimmed_front(space + rest) == rest,
    decreases space.len(),
{
    if space.len() > 0 {
        let whole = space + rest;
        assert(whole.first() == space[0]);
        assert(whole.drop_first() =~= space.drop_first() + rest);
        assert forall|i: int| 0 <= i < space.drop_first().len() implies white_space(
            #[trigger] space.drop_first()[i],
        ) by {
            assert(space.drop_first()[i] == space[i + 1]);
        }
        lemma_trimmed_front(space.drop_first(), rest);
    } else {
        assert(space + rest =~= rest);
    }
}

/// White space behind a text that does not end with it is trimmed.
proof fn lemma_trimmed_back(rest: Seq<char>, space: Seq<char>)
    requires
        blank(space),
        rest.len() > 0 ==> !white_space(rest.last()),
    ensures
        trimmed_back(rest + space) == rest,
    decreases space.len(),
{
    if space.len() > 0 {
        let whole = rest + space;
        assert(whole.last() == space[space.len() - 1]);
        assert(whole.drop_last() =~= rest + space.drop_last());
        assert forall|i: int| 0 <= i < space.drop_last().len() implies white_space(
            #[trigger] space.drop_last()[i],
        ) by {
            assert(space.drop_last()[i] == space[i]);
        }
        lemma_trimmed_back(rest, space.drop_last());
    } else {
        assert(rest + space =~= rest);
    }
}

/// Trimming leaves what stands between white space, if that neither begins nor
/// ends with white space.
pub proof fn law_trimming_leaves_the_middle(
    front: Seq<char>,
    middle: Seq<char>,
    back: Seq<char>,
)
    requires
        blank(front),
        blank(back),
        middle.len() > 0,
        !white_space(middle.first()),
        !white_space(middle.last()),
    ensures
        trimmed(front + middle + back) == middle,
{
    let rest = middle + back;
    assert(front + middle + back =~= front + rest);
    assert(rest.first() == middle.first());
    lemma_trimmed_front(front, rest);
    lemma_trimmed_back(middle, back);
}

/// Trimming leaves nothing exactly if there is nothing but white space.
pub proof fn law_only_white_space_trims_to_nothing(s: Seq<char>)
    ensures
        trimmed(s).len() == 0 <==> forall|i: int|
            0 <= i < s.len() ==> white_space(#[trigger] s[i]),
{
    let none = Seq::<char>::empty();
    if blank(s) {
        assert(s + none =~= s);
        lemma_trimmed_front(s, none);
        assert(trimmed(s).len() == 0);
    } else {
        lemma_trimmed_keeps_ink(s);
    }
}

/// Trimming leaves something of a text that is more than white space.
proof fn lemma_trimmed_keeps_ink(s: Seq<char>)
    requires
        !blank(s),
    ensures
        trimmed(s).len() > 0,
{
    lemma_front_keeps_ink(s);
    lemma_back_keeps_ink(trimmed_front(s));
}

proof fn lemma_front_keeps_ink(s: Seq<char>)
    requires
        !blank(s),
    ensures
        !blank(trimmed_front(s)),
    decreases s.len(),
{
    let i = choose|i: int| 0 <= i < s.len() && !white_space(#[trigger] s[i]);
    if white_space(s.first()) {
        assert(s.drop_first()[i - 1] == s[i]);
        lemma_front_keeps_ink(s.drop_first());
    }
}

proof fn lemma_back_keeps_ink(s: Seq<char>)
    requires
        !blank(s),
    ensures
        trimmed_back(s).len() > 0,
    decreases s.len(),
{
    let i = choose|i: int| 0 <= i < s.len() && !white_space(#[trigger] s[i]);
    if white_space(s.last()) {
        assert(s.drop_last()[i] == s[i]);
        lemma_back_keeps_ink(s.drop_last());
    }
}

/// A file is taken as it is up to one mebibyte, and refused as invalid input
/// above.
pub proof fn law_limit_is_one_mebibyte(bytes: Seq<u8>, label: Seq<char>, path: Seq<char>)
    ensures
        bytes.len() <= 1_048_576 ==> limited(bytes, label, path) == Ok::<Seq<u8>, ErrorModel>(
            bytes,
        ),
        bytes.len() > 1_048_576 ==> limited(bytes, label, path) == Err::<Seq<u8>, ErrorModel>(
            ErrorModel::InvalidInput(label + " file exceeds the 1 MiB limit: "@ + path),
        ),
{
}

/// The text of a file is the one that its bytes encode.
pub proof fn law_text_is_what_the_bytes_encode(
    text: Seq<char>,
    label: Seq<char>,
    path: Seq<char>,
)
    ensures
        utf8_text(encode_utf8(text), label, path) == Ok::<Seq<char>, ErrorModel>(text),
{
    encode_utf8_valid_utf8(text);
    encode_utf8_decode_utf8(text);
}

/// A file that encodes a text and is within the limit holds the value that JSON5
/// reads in that text, and no value where JSON5 reads none; one that encodes none,
/// or is above the limit, holds none.
pub proof fn law_file_holds_what_its_text_says(
    bytes: Seq<u8>,
    label: Seq<char>,
    path: Seq<char>,
    text: Seq<char>,
)
    ensures
        encode_utf8(text).len() <= 1_048_576 ==> json5_file(encode_utf8(text), label, path)
            == match json5_read(text) {
            Ok(value) => Ok::<JsonModel, ErrorModel>(value),
            Err(words) => Err::<JsonModel, ErrorModel>(
                ErrorModel::Config(
                    label + " file is not valid JSON/JSONC ("@ + path + "): "@ + words,
                ),
            ),
        },
        bytes.len() <= 1_048_576 && !valid_utf8(bytes) ==> json5_file(bytes, label, path) == Err::<
            JsonModel,
            ErrorModel,
        >(
            ErrorModel::Config(
                label + " file must be UTF-8 ("@ + path + "): "@ + utf8_error(bytes),
            ),
        ),
        bytes.len() > 1_048_576 ==> json5_file(bytes, label, path) == Err::<JsonModel, ErrorModel>(
            ErrorModel::InvalidInput(label + " file exceeds the 1 MiB limit: "@ + path),
        ),
        bytes.len() <= 1_048_576 ==> json5_file(bytes, label, path) == json5_value(
            path,
            label,
            bytes,
        ),
{
    encode_utf8_valid_utf8(text);
    encode_utf8_decode_utf8(text);
}

/// The number that a hexadecimal digit stands for.
pub open spec fn digit_value(c: char) -> int {
    if '0' <= c <= '9' {
        c as int - 0x30
    } else if 'a' <= c <= 'f' {
        c as int - 0x57
    } else {
        -1
    }
}

/// The two digits for a byte, wherever it stands, give the byte back, the high
/// one first, and are in lower case.
pub proof fn law_digits_give_the_byte_back(bytes: Seq<u8>, i: int)
    requires
        0 <= i < bytes.len(),
    ensures
        hex(bytes).len() == 2 * bytes.len(),
        0 <= digit_value(hex(bytes)[2 * i]) < 16,
        0 <= digit_value(hex(bytes)[2 * i + 1]) < 16,
        16 * digit_value(hex(bytes)[2 * i]) + digit_value(hex(bytes)[2 * i + 1]) == bytes[i],
    decreases bytes.len(),
{
    lemma_hex_length(bytes);
    lemma_hex_length(bytes.drop_last());
    if i < bytes.len() - 1 {
        law_digits_give_the_byte_back(bytes.drop_last(), i);
    }
}

} // verus!
