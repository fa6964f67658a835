//! What both of OMP's file formats share: the size limit, UTF-8, and JSON5.

use vstd::prelude::*;
use vstd::utf8::{decode_utf8, encode_utf8_decode_utf8, valid_utf8};

use crate::error::{AppError, ErrorModel};
use crate::json::{json_valid, Json, JsonModel};
use crate::json_text::{json5_read, read_json5};
use crate::text::{decode_text, utf8_error};

verus! {

/// The most bytes that a file may have: one mebibyte.
pub const MAX_OMP_FILE_BYTES: u64 = 1024 * 1024;

/// The bytes of a file, or nothing where there is no file.
pub open spec fn file_bytes(file: Option<Vec<u8>>) -> Option<Seq<u8>> {
    match file {
        Some(bytes) => Some(bytes@),
        None => None,
    }
}

/// The error for a file above the limit.
pub open spec fn too_long(label: Seq<char>, path: Seq<char>) -> ErrorModel {
    ErrorModel::InvalidInput(label + " file exceeds the 1 MiB limit: "@ + path)
}

/// The bytes of a file, if they are within the limit.
pub open spec fn limited(bytes: Seq<u8>, label: Seq<char>, path: Seq<char>) -> Result<
    Seq<u8>,
    ErrorModel,
> {
    if bytes.len() > MAX_OMP_FILE_BYTES {
        Err(too_long(label, path))
    } else {
        Ok(bytes)
    }
}

/// The text of a file, if it is UTF-8.
pub open spec fn utf8_text(bytes: Seq<u8>, label: Seq<char>, path: Seq<char>) -> Result<
    Seq<char>,
    ErrorModel,
> {
    if valid_utf8(bytes) {
        Ok(decode_utf8(bytes))
    } else {
        Err(
            ErrorModel::Config(
                label + " file must be UTF-8 ("@ + path + "): "@ + utf8_error(bytes),
            ),
        )
    }
}

/// The value in a file, if it is JSON5.
pub open spec fn json5_value(path: Seq<char>, label: Seq<char>, bytes: Seq<u8>) -> Result<
    JsonModel,
    ErrorModel,
> {
    match utf8_text(bytes, label, path) {
        Err(error) => Err(error),
        Ok(text) => match json5_read(text) {
            Ok(value) => Ok(value),
            Err(words) => Err(
                ErrorModel::Config(
                    label + " file is not valid JSON/JSONC ("@ + path + "): "@ + words,
                ),
            ),
        },
    }
}

/// Refuses a length above the limit.
pub fn check_file_length(length: u64, label: &str, path: &str) -> (r: Result<(), AppError>)
    ensures
        match r {
            Ok(()) => length <= MAX_OMP_FILE_BYTES,
            Err(error) => length > MAX_OMP_FILE_BYTES && error@ == too_long(label@, path@),
        },
{
    if length > MAX_OMP_FILE_BYTES {
        let mut message: String = label.to_owned();
        message.append(" file exceeds the 1 MiB limit: ");
        message.append(path);
        return Err(AppError::InvalidInput(message));
    }
    Ok(())
}

/// Takes the bytes that were read from a file, at most one more than the limit
/// allows, and refuses them if they are above the limit.
pub fn read_file_limited(bytes: Vec<u8>, label: &str, path: &str) -> (r: Result<Vec<u8>, AppError>)
    ensures
        match r {
            Ok(kept) => limited(bytes@, label@, path@) == Ok::<Seq<u8>, ErrorModel>(kept@),
            Err(error) => limited(bytes@, label@, path@) == Err::<Seq<u8>, ErrorModel>(error@),
        },
{
    match check_file_length(bytes.len() as u64, label, path) {
        Ok(()) => Ok(bytes),
        Err(error) => Err(error),
    }
}

/// Takes the bytes of a file as UTF-8 text.
pub fn read_text(bytes: Vec<u8>, label: &str, path: &str) -> (r: Result<String, AppError>)
    ensures
        match r {
            Ok(text) => utf8_text(bytes@, label@, path@) == Ok::<Seq<char>, ErrorModel>(text@),
            Err(error) => utf8_text(bytes@, label@, path@) == Err::<Seq<char>, ErrorModel>(error@),
        },
{
    match decode_text(bytes) {
        Ok(text) => {
            proof {
                encode_utf8_decode_utf8(text@);
            }
            Ok(text)
        },
        Err(words) => {
            let mut message: String = label.to_owned();
            message.append(" file must be UTF-8 (");
            message.append(path);
            message.append("): ");
            message.append(words.as_str());
            Err(AppError::Config(message))
        },
    }
}

/// Takes the bytes of a file as JSON5.
pub fn parse_json5_value(path: &str, label: &str, bytes: Vec<u8>) -> (r: Result<Json, AppError>)
    ensures
        match r {
            Ok(value) => {
                &&& json5_value(path@, label@, bytes@) == Ok::<JsonModel, ErrorModel>(value@)
                &&& json_valid(value@)
            },
            Err(error) => json5_value(path@, label@, bytes@) == Err::<JsonModel, ErrorModel>(
                error@,
            ),
        },
{
    let source: String = match read_text(bytes, label, path) {
        Ok(source) => source,
        Err(error) => return Err(error),
    };
    match read_json5(source.as_str()) {
        Ok(value) => Ok(value),
        Err(words) => {
            let mut message: String = label.to_owned();
            message.append(" file is not valid JSON/JSONC (");
            message.append(path);
            message.append("): ");
            message.append(words.as_str());
            Err(AppError::Config(message))
        },
    }
}

/// The value in a file, if it is within the limit and JSON5.
pub open spec fn json5_file(bytes: Seq<u8>, label: Seq<char>, path: Seq<char>) -> Result<
    JsonModel,
    ErrorModel,
> {
    match limited(bytes, label, path) {
        Err(error) => Err(error),
        Ok(bytes) => json5_value(path, label, bytes),
    }
}

/// Takes the bytes that were read from a file as JSON5, if they are within the
/// limit.
pub fn read_json5_value(bytes: Vec<u8>, path: &str, label: &str) -> (r: Result<Json, AppError>)
    ensures
        match r {
            Ok(value) => {
                &&& json5_file(bytes@, label@, path@) == Ok::<JsonModel, ErrorModel>(value@)
                &&& json_valid(value@)
            },
            Err(error) => json5_file(bytes@, label@, path@) == Err::<JsonModel, ErrorModel>(
                error@,
            ),
        },
{
    match read_file_limited(bytes, label, path) {
        Ok(kept) => parse_json5_value(path, label, kept),
        Err(error) => Err(error),
    }
}

} // verus!
