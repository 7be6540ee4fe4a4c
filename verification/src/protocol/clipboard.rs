//! The clipboard message of a phone: one byte of type, four bytes of length (the most
//! significant first), and so many bytes of UTF-8.
use crate::text::text_strict;
use crate::types::AdbError;
use crate::wire::{copy_bytes, read_be};
use vstd::prelude::*;

verus! {

/// The type of a clipboard message. Messages of all other types are passed over.
pub const TYPE_CLIPBOARD: u8 = 0;

/// `std::io::Error::from` of `std::io::ErrorKind::UnexpectedEof`: the error of a reader
/// whose input ends too early. The error is opaque, so nothing is said of it.
#[verifier::external_body]
fn unexpected_eof() -> (r: std::io::Error) {
    std::io::Error::from(std::io::ErrorKind::UnexpectedEof)
}

/// How many bytes the message at the beginning of `data` has in all, as far as they tell;
/// a message that is passed over has one.
pub open spec fn message_len(data: Seq<u8>) -> nat {
    if data.len() == 0 || data[0] != TYPE_CLIPBOARD {
        1
    } else if data.len() < 5 {
        5
    } else {
        5 + crate::wire::be_value(data.subrange(1, 5))
    }
}

/// How many bytes the message at the beginning of `data` has in all, as far as they tell.
pub fn clipboard_message_len(data: &[u8]) -> (r: u64)
    ensures
        r == message_len(data@),
{
    if data.len() == 0 || data[0] != TYPE_CLIPBOARD {
        1
    } else if data.len() < 5 {
        5
    } else {
        proof {
            crate::wire::lemma_be_value_bound(data@.subrange(1, 5));
            crate::wire::lemma_pow256_values();
        }
        5 + read_be(data, 1, 4)
    }
}

/// Reads the message at the beginning of `data`. A message of another type is passed over
/// (`None`). Input that ends before the message does is an input error; bytes that are no
/// UTF-8 are told as what is wrong with them.
pub fn parse_clipboard_event(data: &[u8]) -> (r: Result<Option<String>, AdbError>)
    ensures
        data@.len() < message_len(data@) <==> r matches Err(AdbError::Io(_)),
        data@.len() >= message_len(data@) ==> {
            let text = data@.subrange(5, message_len(data@) as int);
            if data@[0] != TYPE_CLIPBOARD {
                r matches Ok(None)
            } else if vstd::utf8::valid_utf8(text) {
                r matches Ok(Some(s)) && s@ == vstd::utf8::decode_utf8(text)
            } else {
                r matches Err(AdbError::Other(m)) && m@ == crate::text::utf8_fault(text)
            }
        },
{
    let need: u64 = clipboard_message_len(data);
    if (data.len() as u64) < need {
        return Err(AdbError::Io(unexpected_eof()));
    }
    if data[0] != TYPE_CLIPBOARD {
        return Ok(None);
    }
    let text = &data[5..need as usize];
    assert(text@ =~= data@.subrange(5, message_len(data@) as int));
    match text_strict(copy_bytes(text)) {
        Ok(s) => Ok(Some(s)),
        Err(e) => Err(AdbError::Other(e)),
    }
}

/// The message that carries `text`.
pub open spec fn clipboard_message(text: Seq<u8>) -> Seq<u8> {
    seq![TYPE_CLIPBOARD] + crate::wire::be_bytes(text.len(), 4) + text
}

/// The message that carries a text is as long as it says, and the text is what it carries.
pub proof fn law_message_is_read_back(text: Seq<u8>, rest: Seq<u8>)
    requires
        text.len() <= u32::MAX,
    ensures
        ({
            let data = clipboard_message(text) + rest;
            &&& message_len(data) == clipboard_message(text).len()
            &&& data[0] == TYPE_CLIPBOARD
            &&& data.subrange(5, message_len(data) as int) == text
        }),
{
    let data = clipboard_message(text) + rest;
    crate::wire::lemma_be_bytes_len(text.len(), 4);
    assert(data.subrange(1, 5) =~= crate::wire::be_bytes(text.len(), 4));
    crate::wire::lemma_pow256_values();
    crate::wire::law_be_value_of_be_bytes(text.len(), 4);
    assert(data.subrange(5, message_len(data) as int) =~= text);
}

} // verus!
