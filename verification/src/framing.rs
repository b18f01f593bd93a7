//! The name of the method that a Thrift message calls.
//!
//! A message begins with four bytes of version and type, followed by the length
//! of the method's name in four bytes, big-endian, and by the name itself.

use vstd::prelude::*;

verus! {

/// Where the length of the method's name stands in a message.
pub const LENGTH_OFFSET: usize = 4;

/// How many bytes the length takes.
pub const LENGTH_SIZE: usize = 4;

/// Where the method's name stands in a message.
pub const NAME_OFFSET: usize = 8;

/// The errors of reading bytes as UTF-8.
#[verifier::external_type_specification]
#[verifier::external_body]
pub struct ExFromUtf8Error(std::string::FromUtf8Error);

/// Specifies `String::from_utf8`: it accepts the byte sequences that are valid
/// UTF-8 and no others, and gives the characters that they encode.
pub assume_specification[ String::from_utf8 ](vec: Vec<u8>) -> (text: Result<
    String,
    std::string::FromUtf8Error,
>)
    ensures
        text is Ok <==> vstd::utf8::valid_utf8(vec@),
        text matches Ok(held) ==> held@ == vstd::utf8::decode_utf8(vec@),
;

/// The number that four bytes stand for, the most significant first.
pub open spec fn big_endian(bytes: Seq<u8>) -> int {
    bytes[0] * 0x100_0000 + bytes[1] * 0x1_0000 + bytes[2] * 0x100 + bytes[3]
}

/// The four bytes that stand for a number.
pub open spec fn big_endian_bytes(number: int) -> Seq<u8> {
    seq![
        (number / 0x100_0000) as u8,
        ((number / 0x1_0000) % 0x100) as u8,
        ((number / 0x100) % 0x100) as u8,
        (number % 0x100) as u8,
    ]
}

/// The contents of an optional sequence of bytes.
pub open spec fn bytes_of(reply: Option<Vec<u8>>) -> Option<Seq<u8>> {
    match reply {
        Some(bytes) => Some(bytes@),
        None => None,
    }
}

/// The length of the method's name, read from the bytes that hold it.
pub open spec fn length_in(reply: Option<Seq<u8>>) -> Option<int> {
    match reply {
        Some(bytes) => if bytes.len() == LENGTH_SIZE {
            Some(big_endian(bytes))
        } else {
            None
        },
        None => None,
    }
}

/// The method's name, read from the bytes that hold it. There is none as long
/// as some of these bytes are missing.
pub open spec fn name_in(length: int, reply: Option<Seq<u8>>) -> Option<Seq<char>> {
    match reply {
        Some(bytes) => if bytes.len() == length {
            Some(vstd::utf8::decode_utf8(bytes))
        } else {
            None
        },
        None => None,
    }
}

/// The method's name can be read: the bytes are not those of a whole name, or
/// they are valid UTF-8.
pub open spec fn name_readable(length: int, reply: Option<Seq<u8>>) -> bool {
    reply matches Some(bytes) ==> bytes.len() == length ==> vstd::utf8::valid_utf8(bytes)
}

/// Reads the length of the method's name.
pub fn read_method_length(reply: Option<Vec<u8>>) -> (length: Option<usize>)
    ensures
        match length {
            Some(number) => length_in(bytes_of(reply)) == Some(number as int),
            None => length_in(bytes_of(reply)) is None,
        },
{
    match reply {
        Some(bytes) => if bytes.len() == LENGTH_SIZE {
            let number: u32 = bytes[0] as u32 * 0x100_0000 + bytes[1] as u32 * 0x1_0000 + bytes[2] as u32
                * 0x100 + bytes[3] as u32;
            Some(number as usize)
        } else {
            None
        },
        None => None,
    }
}

/// Reads the method's name.
pub fn read_method_name(length: usize, reply: Option<Vec<u8>>) -> (name: Option<String>)
    requires
        name_readable(length as int, bytes_of(reply)),
    ensures
        match name {
            Some(text) => name_in(length as int, bytes_of(reply)) == Some(text@),
            None => name_in(length as int, bytes_of(reply)) is None,
        },
{
    match reply {
        Some(bytes) => if bytes.len() == length {
            match String::from_utf8(bytes) {
                Ok(name) => Some(name),
                Err(_) => None,
            }
        } else {
            None
        },
        None => None,
    }
}

/// What a read of `size` bytes at `start` gives of a message of which these
/// bytes have come in; what has not come in yet is not given.
pub open spec fn bytes_at(message: Seq<u8>, start: int, size: int) -> Option<Seq<u8>> {
    if start >= message.len() {
        None
    } else if start + size <= message.len() {
        Some(message.subrange(start, start + size))
    } else {
        Some(message.skip(start))
    }
}

/// The method's name in the part of a message that has come in.
pub open spec fn method_in(message: Seq<u8>) -> Option<Seq<char>> {
    match length_in(bytes_at(message, LENGTH_OFFSET as int, LENGTH_SIZE as int)) {
        Some(length) => name_in(length, bytes_at(message, NAME_OFFSET as int, length)),
        None => None,
    }
}

/// Four bytes that stand for a number are read as that number.
pub proof fn law_big_endian(number: int)
    requires
        0 <= number < 0x1_0000_0000,
    ensures
        big_endian_bytes(number).len() == LENGTH_SIZE,
        big_endian(big_endian_bytes(number)) == number,
{
    let low = number / 0x100;
    let middle = low / 0x100;
    let high = middle / 0x100;
    vstd::arithmetic::div_mod::lemma_div_denominator(number, 0x100, 0x100);
    vstd::arithmetic::div_mod::lemma_div_denominator(number, 0x1_0000, 0x100);
    assert(number == low * 0x100 + number % 0x100);
    assert(low == middle * 0x100 + low % 0x100);
    assert(middle == high * 0x100 + middle % 0x100);
    assert(0 <= high < 0x100);
    let bytes = big_endian_bytes(number);
    assert(bytes[0] == high);
    assert(bytes[1] == middle % 0x100);
    assert(bytes[2] == low % 0x100);
    assert(bytes[3] == number % 0x100);
}

/// A message that calls a method is read as calling it, whatever its first four
/// bytes are and whatever follows the name. Left out are a message that ends
/// with an empty name, where nothing is left to read, and names whose length
/// four bytes cannot hold.
pub proof fn law_method_is_read_back(version: Seq<u8>, name: Seq<char>, rest: Seq<u8>)
    requires
        version.len() == LENGTH_OFFSET,
        vstd::utf8::encode_utf8(name).len() < 0x1_0000_0000,
        vstd::utf8::encode_utf8(name).len() + rest.len() > 0,
    ensures
        ({
            let encoded = vstd::utf8::encode_utf8(name);
            let message = version + big_endian_bytes(encoded.len() as int) + encoded + rest;
            method_in(message) == Some(name) && name_readable(
                encoded.len() as int,
                bytes_at(message, NAME_OFFSET as int, encoded.len() as int),
            )
        }),
{
    let encoded = vstd::utf8::encode_utf8(name);
    let length = encoded.len() as int;
    let message = version + big_endian_bytes(length) + encoded + rest;
    law_big_endian(length);
    assert(message.subrange(4, 8) =~= big_endian_bytes(length));
    assert(message.subrange(8, 8 + length) =~= encoded);
    vstd::utf8::encode_utf8_decode_utf8(name);
    vstd::utf8::encode_utf8_valid_utf8(name);
}

/// As long as the name has not come in whole, there is no method: what comes in
/// later decides.
pub proof fn law_no_method_before_its_end(version: Seq<u8>, name: Seq<u8>, arrived: int)
    requires
        version.len() == LENGTH_OFFSET,
        name.len() < 0x1_0000_0000,
        0 <= arrived < NAME_OFFSET + name.len(),
    ensures
        method_in((version + big_endian_bytes(name.len() as int) + name).take(arrived)) is None,
{
    let length = name.len() as int;
    let whole = version + big_endian_bytes(length) + name;
    let message = whole.take(arrived);
    law_big_endian(length);
    if arrived >= 8 {
        assert(message.subrange(4, 8) =~= big_endian_bytes(length));
    }
}

/// Four bytes are read as one number, in which each byte counts as many times more
/// than the next one as a byte has values; fewer or more bytes, or none, are no
/// length.
pub proof fn law_length_is_a_number(bytes: Seq<u8>)
    ensures
        length_in(None) is None,
        bytes.len() != 4 ==> length_in(Some(bytes)) is None,
        bytes.len() == 4 ==> length_in(Some(bytes)) == Some(
            ((bytes[0] * 256 + bytes[1]) * 256 + bytes[2]) * 256 + bytes[3],
        ),
{
}

/// A name is read from as many bytes as its length says, and from all of them; from
/// fewer or more bytes, or from none, no name is read.
pub proof fn law_name_takes_all_its_bytes(length: int, bytes: Seq<u8>)
    ensures
        name_in(length, None) is None,
        bytes.len() != length ==> name_in(length, Some(bytes)) is None,
        bytes.len() == length ==> name_in(length, Some(bytes)) == Some(
            vstd::utf8::decode_utf8(bytes),
        ),
        name_readable(length, None),
        name_readable(length, Some(bytes)) <==> (bytes.len() == length
            ==> vstd::utf8::valid_utf8(bytes)),
{
}

/// The encoding of a name is read as that name, whatever its length.
pub proof fn law_name_is_read_back(name: Seq<char>)
    ensures
        ({
            let encoded = vstd::utf8::encode_utf8(name);
            &&& name_readable(encoded.len() as int, Some(encoded))
            &&& name_in(encoded.len() as int, Some(encoded)) == Some(name)
        }),
{
    vstd::utf8::encode_utf8_decode_utf8(name);
    vstd::utf8::encode_utf8_valid_utf8(name);
}

/// A message has a method exactly if the four bytes behind its first four are there,
/// and behind them as many bytes as they say, at least one byte of the message being
/// left there.
pub proof fn law_when_a_message_has_a_method(message: Seq<u8>)
    ensures
        method_in(message) is Some <==> ({
            &&& message.len() > 8
            &&& message.len() >= 8 + ((message[4] * 256 + message[5]) * 256 + message[6]) * 256
                + message[7]
        }),
        method_in(message) is Some ==> ({
            let length = ((message[4] * 256 + message[5]) * 256 + message[6]) * 256 + message[7];
            method_in(message) == Some(
                vstd::utf8::decode_utf8(message.subrange(8, 8 + length)),
            )
        }),
{
    if message.len() >= 8 {
        let bytes = message.subrange(4, 8);
        assert(bytes[0] == message[4] && bytes[1] == message[5]);
        assert(bytes[2] == message[6] && bytes[3] == message[7]);
        assert(bytes_at(message, 4, 4) == Some(bytes));
    }
}

/// The contents of bytes that may be missing are those bytes.
pub proof fn law_bytes_keep_everything(bytes: Vec<u8>)
    ensures
        bytes_of(Some(bytes)) == Some(bytes@),
        bytes_of(None) is None,
{
}

} // verus!
