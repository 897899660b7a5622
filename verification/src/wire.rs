//! The wire format: a message is a JSON array of an operation code and a document, and its length
//! in bytes stands in front of it in decimal digits.
use crate::bindings::{json_parsed, json_text, utf8_error, utf8_text};
use crate::decimal::{
    decimal_digits, decimal_number, is_digit, law_written_number_is_read_back, lemma_decimal_digits,
    read_decimal, write_decimal,
};
use crate::error::{ClientError, ClientErrorView, ReadError, ReadErrorView};
use crate::json::{items_tree, Json, JsonTree, NumberValue};
use vstd::prelude::*;
use vstd::utf8::{
    decode_utf8, encode_scalar, encode_utf8, encode_utf8_decode_utf8, encode_utf8_valid_utf8,
    is_ascii_chars, is_ascii_chars_encode_utf8, valid_utf8,
};

verus! {

/// The byte `[`, with which every message begins.
pub const BRACKET: u8 = 91;

/// The operations that calibre and the device ask of each other.
#[derive(Debug, Clone, Copy, PartialEq, Eq, Structural)]
pub enum Opcode {
    NOOP,
    OK,
    BookDone,
    CalibreBusy,
    SetLibraryInfo,
    DeleteBook,
    DisplayMessage,
    Error,
    FreeSpace,
    GetBookFileSegment,
    GetBookMetadata,
    GetBookCount,
    GetDeviceInformation,
    GetInitializationInfo,
    SendBooklists,
    SendBook,
    SendBookMetadata,
    SetCalibreDeviceInfo,
    SetCalibreDeviceName,
    TotalSpace,
}

impl Opcode {
    /// The number of the operation on the wire.
    pub open spec fn code_spec(self) -> u8 {
        match self {
            Opcode::NOOP => 12,
            Opcode::OK => 0,
            Opcode::BookDone => 11,
            Opcode::CalibreBusy => 18,
            Opcode::SetLibraryInfo => 19,
            Opcode::DeleteBook => 13,
            Opcode::DisplayMessage => 17,
            Opcode::Error => 20,
            Opcode::FreeSpace => 5,
            Opcode::GetBookFileSegment => 14,
            Opcode::GetBookMetadata => 15,
            Opcode::GetBookCount => 6,
            Opcode::GetDeviceInformation => 3,
            Opcode::GetInitializationInfo => 9,
            Opcode::SendBooklists => 7,
            Opcode::SendBook => 8,
            Opcode::SendBookMetadata => 16,
            Opcode::SetCalibreDeviceInfo => 1,
            Opcode::SetCalibreDeviceName => 2,
            Opcode::TotalSpace => 4,
        }
    }

    /// The number of the operation on the wire.
    pub fn code(self) -> (code: u8)
        ensures
            code == self.code_spec(),
    {
        match self {
            Opcode::NOOP => 12,
            Opcode::OK => 0,
            Opcode::BookDone => 11,
            Opcode::CalibreBusy => 18,
            Opcode::SetLibraryInfo => 19,
            Opcode::DeleteBook => 13,
            Opcode::DisplayMessage => 17,
            Opcode::Error => 20,
            Opcode::FreeSpace => 5,
            Opcode::GetBookFileSegment => 14,
            Opcode::GetBookMetadata => 15,
            Opcode::GetBookCount => 6,
            Opcode::GetDeviceInformation => 3,
            Opcode::GetInitializationInfo => 9,
            Opcode::SendBooklists => 7,
            Opcode::SendBook => 8,
            Opcode::SendBookMetadata => 16,
            Opcode::SetCalibreDeviceInfo => 1,
            Opcode::SetCalibreDeviceName => 2,
            Opcode::TotalSpace => 4,
        }
    }

    /// The operation with a number, where there is one.
    pub open spec fn with_code(n: i64) -> Option<Opcode> {
        match n {
            0 => Some(Opcode::OK),
            1 => Some(Opcode::SetCalibreDeviceInfo),
            2 => Some(Opcode::SetCalibreDeviceName),
            3 => Some(Opcode::GetDeviceInformation),
            4 => Some(Opcode::TotalSpace),
            5 => Some(Opcode::FreeSpace),
            6 => Some(Opcode::GetBookCount),
            7 => Some(Opcode::SendBooklists),
            8 => Some(Opcode::SendBook),
            9 => Some(Opcode::GetInitializationInfo),
            11 => Some(Opcode::BookDone),
            12 => Some(Opcode::NOOP),
            13 => Some(Opcode::DeleteBook),
            14 => Some(Opcode::GetBookFileSegment),
            15 => Some(Opcode::GetBookMetadata),
            16 => Some(Opcode::SendBookMetadata),
            17 => Some(Opcode::DisplayMessage),
            18 => Some(Opcode::CalibreBusy),
            19 => Some(Opcode::SetLibraryInfo),
            20 => Some(Opcode::Error),
            _ => None,
        }
    }

    /// The operation with a number, where there is one.
    pub fn from_i64(n: i64) -> (found: Option<Opcode>)
        ensures
            found == Opcode::with_code(n),
    {
        match n {
            0 => Some(Opcode::OK),
            1 => Some(Opcode::SetCalibreDeviceInfo),
            2 => Some(Opcode::SetCalibreDeviceName),
            3 => Some(Opcode::GetDeviceInformation),
            4 => Some(Opcode::TotalSpace),
            5 => Some(Opcode::FreeSpace),
            6 => Some(Opcode::GetBookCount),
            7 => Some(Opcode::SendBooklists),
            8 => Some(Opcode::SendBook),
            9 => Some(Opcode::GetInitializationInfo),
            11 => Some(Opcode::BookDone),
            12 => Some(Opcode::NOOP),
            13 => Some(Opcode::DeleteBook),
            14 => Some(Opcode::GetBookFileSegment),
            15 => Some(Opcode::GetBookMetadata),
            16 => Some(Opcode::SendBookMetadata),
            17 => Some(Opcode::DisplayMessage),
            18 => Some(Opcode::CalibreBusy),
            19 => Some(Opcode::SetLibraryInfo),
            20 => Some(Opcode::Error),
            _ => None,
        }
    }

    /// The name of the operation.
    pub open spec fn name_spec(self) -> Seq<char> {
        match self {
            Opcode::NOOP => "NOOP"@,
            Opcode::OK => "OK"@,
            Opcode::BookDone => "BookDone"@,
            Opcode::CalibreBusy => "CalibreBusy"@,
            Opcode::SetLibraryInfo => "SetLibraryInfo"@,
            Opcode::DeleteBook => "DeleteBook"@,
            Opcode::DisplayMessage => "DisplayMessage"@,
            Opcode::Error => "Error"@,
            Opcode::FreeSpace => "FreeSpace"@,
            Opcode::GetBookFileSegment => "GetBookFileSegment"@,
            Opcode::GetBookMetadata => "GetBookMetadata"@,
            Opcode::GetBookCount => "GetBookCount"@,
            Opcode::GetDeviceInformation => "GetDeviceInformation"@,
            Opcode::GetInitializationInfo => "GetInitializationInfo"@,
            Opcode::SendBooklists => "SendBooklists"@,
            Opcode::SendBook => "SendBook"@,
            Opcode::SendBookMetadata => "SendBookMetadata"@,
            Opcode::SetCalibreDeviceInfo => "SetCalibreDeviceInfo"@,
            Opcode::SetCalibreDeviceName => "SetCalibreDeviceName"@,
            Opcode::TotalSpace => "TotalSpace"@,
        }
    }

    /// The name of the operation.
    pub fn name(self) -> (name: &'static str)
        ensures
            name@ == self.name_spec(),
    {
        match self {
            Opcode::NOOP => "NOOP",
            Opcode::OK => "OK",
            Opcode::BookDone => "BookDone",
            Opcode::CalibreBusy => "CalibreBusy",
            Opcode::SetLibraryInfo => "SetLibraryInfo",
            Opcode::DeleteBook => "DeleteBook",
            Opcode::DisplayMessage => "DisplayMessage",
            Opcode::Error => "Error",
            Opcode::FreeSpace => "FreeSpace",
            Opcode::GetBookFileSegment => "GetBookFileSegment",
            Opcode::GetBookMetadata => "GetBookMetadata",
            Opcode::GetBookCount => "GetBookCount",
            Opcode::GetDeviceInformation => "GetDeviceInformation",
            Opcode::GetInitializationInfo => "GetInitializationInfo",
            Opcode::SendBooklists => "SendBooklists",
            Opcode::SendBook => "SendBook",
            Opcode::SendBookMetadata => "SendBookMetadata",
            Opcode::SetCalibreDeviceInfo => "SetCalibreDeviceInfo",
            Opcode::SetCalibreDeviceName => "SetCalibreDeviceName",
            Opcode::TotalSpace => "TotalSpace",
        }
    }
}

/// The number of an operation leads back to the operation, and no other number does.
pub proof fn law_codes_identify_operations(opcode: Opcode, n: i64)
    ensures
        Opcode::with_code(opcode.code_spec() as i64) == Some(opcode),
        Opcode::with_code(n) == Some(opcode) <==> n == opcode.code_spec(),
{
}

/// The message that stands for an operation and its document.
pub open spec fn command_tree(opcode: Opcode, message: JsonTree) -> JsonTree {
    JsonTree::Array(seq![JsonTree::Number(NumberValue::Int(opcode.code_spec() as int)), message])
}

/// The bytes on the wire of a message with a text.
pub open spec fn frame(text: Seq<char>) -> Seq<u8> {
    decimal_digits(encode_utf8(text).len()) + encode_utf8(text)
}

/// The length that stands in front of a message.
pub open spec fn announced_length(prefix: Seq<u8>) -> Result<nat, ReadErrorView> {
    if !valid_utf8(prefix) {
        Err(ReadErrorView::Utf8(utf8_error(prefix)))
    } else {
        match decimal_number(prefix, usize::MAX as nat) {
            Ok(length) => Ok(length),
            Err(error) => Err(ReadErrorView::Length(error)),
        }
    }
}

/// The message is an array with fewer than the two items of a command.
pub open spec fn is_short_array(tree: JsonTree) -> bool {
    tree matches JsonTree::Array(items) && items.len() < 2
}

/// The command that a message is, unless it is an array with fewer than two items.
pub open spec fn command_in(tree: JsonTree) -> Result<(Opcode, JsonTree), ReadErrorView>
    recommends
        !is_short_array(tree),
{
    match tree {
        JsonTree::Array(items) => match items[0].as_i64() {
            Some(n) => match Opcode::with_code(n) {
                Some(opcode) => Ok((opcode, items[1])),
                None => Err(
                    ReadErrorView::Client(
                        ClientErrorView::ApplicationError("Opcode not registered"@),
                    ),
                ),
            },
            None => Err(
                ReadErrorView::Client(ClientErrorView::ApplicationError("Opcode is not a number"@)),
            ),
        },
        _ => Err(
            ReadErrorView::Client(
                ClientErrorView::ApplicationError("Unable to parse calibre response"@),
            ),
        ),
    }
}

/// The command in the bytes of a message; none where it is an array with fewer than two items.
pub open spec fn command_in_bytes(body: Seq<u8>) -> Option<
    Result<(Opcode, JsonTree), ReadErrorView>,
> {
    if !valid_utf8(body) {
        Some(Err(ReadErrorView::Utf8(utf8_error(body))))
    } else {
        match json_parsed(decode_utf8(body)) {
            Err(message) => Some(Err(ReadErrorView::Json(message))),
            Ok(tree) => if is_short_array(tree) {
                None
            } else {
                Some(command_in(tree))
            },
        }
    }
}

/// What comes in front of the first bracket.
pub open spec fn before_bracket(stream: Seq<u8>) -> Seq<u8>
    decreases stream.len(),
{
    if stream.len() == 0 || stream[0] == BRACKET {
        seq![]
    } else {
        seq![stream[0]] + before_bracket(stream.drop_first())
    }
}

/// What reading one command from a stream of bytes comes to.
pub enum Reading {
    /// The stream ends before the command does.
    Incomplete,
    /// The message has no bytes, or is an array with fewer than two items.
    Undefined,
    /// The stream does not hold a command.
    Failed(ReadErrorView),
    /// The stream begins with this command, in so many bytes.
    Command(Opcode, JsonTree, nat),
}

/// Reads one command from the beginning of a stream.
pub open spec fn reading(stream: Seq<u8>) -> Reading {
    let prefix = before_bracket(stream);
    if prefix.len() == stream.len() {
        Reading::Incomplete
    } else {
        match announced_length(prefix) {
            Err(error) => Reading::Failed(error),
            Ok(length) => if length == 0 {
                Reading::Undefined
            } else if prefix.len() + length > stream.len() {
                Reading::Incomplete
            } else {
                let end = prefix.len() + length;
                match command_in_bytes(stream.subrange(prefix.len() as int, end as int)) {
                    None => Reading::Undefined,
                    Some(Err(error)) => Reading::Failed(error),
                    Some(Ok((opcode, message))) => Reading::Command(opcode, message, end),
                }
            },
        }
    }
}

/// Reads the length that stands in front of a message.
pub fn message_length(prefix: &[u8]) -> (result: Result<usize, ReadError>)
    ensures
        match result {
            Ok(length) => announced_length(prefix@) is Ok && announced_length(prefix@)->Ok_0
                == length,
            Err(error) => announced_length(prefix@) is Err && announced_length(prefix@)->Err_0
                == error@,
        },
{
    match utf8_text(prefix) {
        Err(message) => Err(ReadError::Utf8(message)),
        Ok(_) => match read_decimal(prefix, usize::MAX as u64) {
            Ok(length) => Ok(length as usize),
            Err(error) => Err(ReadError::Length(error)),
        },
    }
}

/// Takes a message apart into the operation and its document.
pub fn command_from_json(value: Json) -> (result: Result<(Opcode, Json), ReadError>)
    requires
        !is_short_array(value@),
    ensures
        match result {
            Ok((opcode, message)) => command_in(value@) is Ok && command_in(value@)->Ok_0 == (
                opcode,
                message@,
            ),
            Err(error) => command_in(value@) is Err && command_in(value@)->Err_0 == error@,
        },
{
    match value {
        Json::Array(items) => {
            let mut items: Vec<Json> = items;
            proof {
                crate::json::lemma_items_tree(items@);
            }
            let message = items.swap_remove(1);
            match items[0].as_i64() {
                Some(n) => match Opcode::from_i64(n) {
                    Some(opcode) => Ok((opcode, message)),
                    None => Err(
                        ReadError::Client(
                            ClientError::ApplicationError("Opcode not registered".to_owned()),
                        ),
                    ),
                },
                None => Err(
                    ReadError::Client(
                        ClientError::ApplicationError("Opcode is not a number".to_owned()),
                    ),
                ),
            }
        },
        _ => Err(
            ReadError::Client(
                ClientError::ApplicationError("Unable to parse calibre response".to_owned()),
            ),
        ),
    }
}

/// Reads the command in the bytes of a message; none where it is an array with fewer than two
/// items.
pub fn decode_message(body: &[u8]) -> (result: Option<Result<(Opcode, Json), ReadError>>)
    ensures
        match result {
            None => command_in_bytes(body@) is None,
            Some(Ok((opcode, message))) => command_in_bytes(body@) == Some(
                Ok::<(Opcode, JsonTree), ReadErrorView>((opcode, message@)),
            ),
            Some(Err(error)) => command_in_bytes(body@) == Some(
                Err::<(Opcode, JsonTree), ReadErrorView>(error@),
            ),
        },
{
    match utf8_text(body) {
        Err(message) => Some(Err(ReadError::Utf8(message))),
        Ok(text) => match Json::parse(text) {
            Err(message) => Some(Err(ReadError::Json(message))),
            Ok(value) => {
                if let Json::Array(items) = &value {
                    proof {
                        crate::json::lemma_items_tree(items@);
                    }
                    if items.len() < 2 {
                        return None;
                    }
                }
                Some(command_from_json(value))
            },
        },
    }
}

proof fn lemma_digits_before_bracket(digits: Seq<u8>, rest: Seq<u8>)
    requires
        forall|i: int| 0 <= i < digits.len() ==> is_digit(#[trigger] digits[i]),
        rest.len() > 0,
        rest[0] == BRACKET,
    ensures
        before_bracket(digits + rest) == digits,
    decreases digits.len(),
{
    let stream = digits + rest;
    if digits.len() > 0 {
        assert(is_digit(digits[0]));
        assert(stream.drop_first() =~= digits.drop_first() + rest);
        assert forall|i: int| 0 <= i < digits.drop_first().len() implies is_digit(
            #[trigger] digits.drop_first()[i],
        ) by {
            assert(is_digit(digits[i + 1]));
        }
        lemma_digits_before_bracket(digits.drop_first(), rest);
        assert(seq![digits[0]] + digits.drop_first() =~= digits);
    } else {
        assert(stream =~= rest);
    }
}

/// Digits are ASCII, and so UTF-8.
proof fn lemma_digits_valid_utf8(digits: Seq<u8>)
    requires
        forall|i: int| 0 <= i < digits.len() ==> is_digit(#[trigger] digits[i]),
    ensures
        valid_utf8(digits),
{
    let chars = digits.map_values(|byte: u8| byte as char);
    assert forall|i: int| 0 <= i < chars.len() implies '\0' <= #[trigger] chars[i] <= '\u{7f}' by {
        assert(is_digit(digits[i]));
    }
    assert(is_ascii_chars(chars));
    is_ascii_chars_encode_utf8(chars);
    assert forall|i: int| 0 <= i < digits.len() implies digits[i] == encode_utf8(chars)[i] by {
        assert(is_digit(digits[i]));
        assert(chars[i] as u8 == encode_utf8(chars)[i]);
    }
    assert(encode_utf8(chars) =~= digits);
    encode_utf8_valid_utf8(chars);
}

/// A text that begins with a bracket is encoded in bytes that do.
proof fn lemma_bracket_encoded(text: Seq<char>)
    requires
        text.len() > 0,
        text[0] == '[',
    ensures
        encode_utf8(text).len() > 0,
        encode_utf8(text)[0] == BRACKET,
{
    let one = seq!['['];
    assert(is_ascii_chars(one));
    is_ascii_chars_encode_utf8(one);
    assert(one[0] as u8 == encode_utf8(one)[0]);
    reveal_with_fuel(encode_utf8, 2);
    assert(one.drop_first().len() == 0);
    assert(encode_utf8(one) =~= encode_scalar('[' as u32));
}

/// A framed message is read back, whatever follows it on the stream.
proof fn lemma_frame_reads_back(text: Seq<char>, opcode: Opcode, message: JsonTree, rest: Seq<u8>)
    requires
        text.len() > 0,
        text[0] == '[',
        encode_utf8(text).len() <= usize::MAX,
        json_parsed(text) is Ok,
        json_parsed(text)->Ok_0 == command_tree(opcode, message),
    ensures
        reading(frame(text) + rest) == Reading::Command(opcode, message, frame(text).len()),
{
    let body = encode_utf8(text);
    let digits = decimal_digits(body.len());
    let stream = frame(text) + rest;
    lemma_bracket_encoded(text);
    lemma_decimal_digits(body.len());
    assert(stream =~= digits + (body + rest));
    lemma_digits_before_bracket(digits, body + rest);
    lemma_digits_valid_utf8(digits);
    law_written_number_is_read_back(body.len(), usize::MAX as nat);
    assert(stream.subrange(digits.len() as int, (digits.len() + body.len()) as int) =~= body);
    encode_utf8_valid_utf8(text);
    encode_utf8_decode_utf8(text);
    let items = command_tree(opcode, message)->Array_0;
    assert(items[0].as_i64() == Some(opcode.code_spec() as i64));
    law_codes_identify_operations(opcode, 0);
}

/// Frames an operation and its document for the wire. A document without fractional numbers that
/// is nested at most 126 deep is read back from the frame, whatever follows it on the stream.
pub fn encode_command(opcode: Opcode, message: Json) -> (bytes: Vec<u8>)
    ensures
        bytes@ == frame(json_text(command_tree(opcode, message@))),
        message@.has_integers_only() && message@.nests_within(126) ==> forall|rest: Seq<u8>|
            #[trigger] reading(bytes@ + rest) == Reading::Command(
                opcode,
                message@,
                bytes@.len(),
            ),
{
    let ghost tree = message@;
    let mut items: Vec<Json> = Vec::new();
    items.push(Json::integer(opcode.code() as u64));
    items.push(message);
    let command = Json::Array(items);
    proof {
        crate::json::lemma_items_tree(items@);
        assert(items_tree(items@) =~= command_tree(opcode, tree)->Array_0);
    }
    let text = command.render();
    let body = text.as_str().as_bytes();
    let mut bytes = write_decimal(body.len());
    bytes.extend_from_slice(body);
    proof {
        assert(bytes@ =~= frame(text@));
        if tree.has_integers_only() && tree.nests_within(126) {
            let parts = command_tree(opcode, tree)->Array_0;
            assert(parts[0].has_integers_only() && parts[0].nests_within(126));
            assert(command_tree(opcode, tree).has_integers_only());
            assert(command_tree(opcode, tree).nests_within(127));
            assert forall|rest: Seq<u8>| #[trigger]
                reading(bytes@ + rest) == Reading::Command(opcode, tree, bytes@.len()) by {
                lemma_frame_reads_back(text@, opcode, tree, rest);
            }
        }
    }
    bytes
}

/// A message on the wire is its text in UTF-8, behind the number of its bytes in decimal digits;
/// it is an array of the code of the operation and its document.
pub proof fn law_frame_is_length_and_message(opcode: Opcode, message: JsonTree, text: Seq<char>)
    ensures
        frame(text) == decimal_digits(encode_utf8(text).len()) + encode_utf8(text),
        command_tree(opcode, message) == JsonTree::Array(
            seq![JsonTree::Number(NumberValue::Int(opcode.code_spec() as int)), message],
        ),
{
}

/// The length in front of a message is read from its decimal digits, up to the largest that the
/// machine has.
pub proof fn law_length_of_message_is_read(length: nat)
    requires
        length <= usize::MAX,
    ensures
        announced_length(decimal_digits(length)) == Ok::<nat, ReadErrorView>(length),
{
    lemma_decimal_digits(length);
    lemma_digits_valid_utf8(decimal_digits(length));
    law_written_number_is_read_back(length, usize::MAX as nat);
}

/// What stands in front of a message is its length exactly where it is a decimal number that the
/// machine has.
pub proof fn law_length_is_a_decimal_number(prefix: Seq<u8>)
    ensures
        !valid_utf8(prefix) ==> announced_length(prefix) == Err::<nat, ReadErrorView>(
            ReadErrorView::Utf8(utf8_error(prefix)),
        ),
        valid_utf8(prefix) ==> match decimal_number(prefix, usize::MAX as nat) {
            Ok(length) => announced_length(prefix) == Ok::<nat, ReadErrorView>(length),
            Err(error) => announced_length(prefix) == Err::<nat, ReadErrorView>(
                ReadErrorView::Length(error),
            ),
        },
{
}

/// The command in the bytes of a message, by what the message is: an array of a code and a
/// document is that command, one of fewer items is nothing, and all else is refused for its reason.
pub proof fn law_command_is_code_and_document(body: Seq<u8>, opcode: Opcode)
    ensures
        !valid_utf8(body) ==> command_in_bytes(body) == Some(
            Err::<(Opcode, JsonTree), ReadErrorView>(ReadErrorView::Utf8(utf8_error(body))),
        ),
        valid_utf8(body) ==> match json_parsed(decode_utf8(body)) {
            Err(message) => command_in_bytes(body) == Some(
                Err::<(Opcode, JsonTree), ReadErrorView>(ReadErrorView::Json(message)),
            ),
            Ok(JsonTree::Array(items)) => {
                &&& items.len() < 2 ==> command_in_bytes(body) is None
                &&& items.len() >= 2 && items[0] == JsonTree::Number(
                    NumberValue::Int(opcode.code_spec() as int),
                ) ==> command_in_bytes(body) == Some(
                    Ok::<(Opcode, JsonTree), ReadErrorView>((opcode, items[1])),
                )
                &&& items.len() >= 2 && !(items[0] matches JsonTree::Number(NumberValue::Int(n))
                    && i64::MIN <= n <= i64::MAX) ==> command_in_bytes(body) == Some(
                    Err::<(Opcode, JsonTree), ReadErrorView>(
                        ReadErrorView::Client(
                            ClientErrorView::ApplicationError("Opcode is not a number"@),
                        ),
                    ),
                )
                &&& items.len() >= 2 && (items[0] matches JsonTree::Number(NumberValue::Int(n))
                    && i64::MIN <= n <= i64::MAX && forall|other: Opcode|
                    #[trigger] other.code_spec() != n) ==> command_in_bytes(body) == Some(
                    Err::<(Opcode, JsonTree), ReadErrorView>(
                        ReadErrorView::Client(
                            ClientErrorView::ApplicationError("Opcode not registered"@),
                        ),
                    ),
                )
            },
            Ok(_) => command_in_bytes(body) == Some(
                Err::<(Opcode, JsonTree), ReadErrorView>(
                    ReadErrorView::Client(
                        ClientErrorView::ApplicationError("Unable to parse calibre response"@),
                    ),
                ),
            ),
        },
{
    law_codes_identify_operations(opcode, opcode.code_spec() as i64);
    if let Some(Ok((found, _))) = command_in_bytes(body) {
        let items = json_parsed(decode_utf8(body))->Ok_0->Array_0;
        law_codes_identify_operations(found, items[0].as_i64()->0);
        assert(found.code_spec() == items[0]->Number_0->Int_0);
    }
}

/// A stream is read up to the end of its first message: the bytes before the bracket give the
/// length, and so many bytes from the bracket on are the message.
pub proof fn law_first_message_is_read(prefix: Seq<u8>, body: Seq<u8>, rest: Seq<u8>)
    requires
        forall|i: int| 0 <= i < prefix.len() ==> #[trigger] prefix[i] != 91,
        body.len() > 0,
        body[0] == 91,
        announced_length(prefix) == Ok::<nat, ReadErrorView>(body.len()),
    ensures
        reading(prefix + body + rest) == match command_in_bytes(body) {
            None => Reading::Undefined,
            Some(Err(error)) => Reading::Failed(error),
            Some(Ok((opcode, message))) => Reading::Command(
                opcode,
                message,
                prefix.len() + body.len(),
            ),
        },
{
    let stream = prefix + body + rest;
    assert(stream =~= prefix + (body + rest));
    lemma_before_first_bracket(prefix, body + rest);
    assert(stream.subrange(prefix.len() as int, (prefix.len() + body.len()) as int) =~= body);
}

proof fn lemma_before_first_bracket(prefix: Seq<u8>, rest: Seq<u8>)
    requires
        forall|i: int| 0 <= i < prefix.len() ==> #[trigger] prefix[i] != BRACKET,
        rest.len() > 0,
        rest[0] == BRACKET,
    ensures
        before_bracket(prefix + rest) == prefix,
    decreases prefix.len(),
{
    let stream = prefix + rest;
    if prefix.len() > 0 {
        assert(prefix[0] != BRACKET);
        let behind = prefix.drop_first();
        assert(stream.drop_first() =~= behind + rest);
        assert forall|i: int| 0 <= i < behind.len() implies #[trigger] behind[i] != BRACKET by {
            assert(behind[i] == prefix[i + 1]);
        }
        lemma_before_first_bracket(behind, rest);
        assert(seq![prefix[0]] + behind =~= prefix);
    } else {
        assert(stream =~= rest);
    }
}

} // verus!
