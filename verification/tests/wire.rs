use plato_smart_device_client::decimal::NumberError;
use plato_smart_device_client::error::{ClientError, ReadError};
use plato_smart_device_client::json::Json;
use plato_smart_device_client::wire::{decode_message, encode_command, message_length, Opcode};

const OPERATIONS: [(Opcode, u8, &str); 20] = [
    (Opcode::NOOP, 12, "NOOP"),
    (Opcode::OK, 0, "OK"),
    (Opcode::BookDone, 11, "BookDone"),
    (Opcode::CalibreBusy, 18, "CalibreBusy"),
    (Opcode::SetLibraryInfo, 19, "SetLibraryInfo"),
    (Opcode::DeleteBook, 13, "DeleteBook"),
    (Opcode::DisplayMessage, 17, "DisplayMessage"),
    (Opcode::Error, 20, "Error"),
    (Opcode::FreeSpace, 5, "FreeSpace"),
    (Opcode::GetBookFileSegment, 14, "GetBookFileSegment"),
    (Opcode::GetBookMetadata, 15, "GetBookMetadata"),
    (Opcode::GetBookCount, 6, "GetBookCount"),
    (Opcode::GetDeviceInformation, 3, "GetDeviceInformation"),
    (Opcode::GetInitializationInfo, 9, "GetInitializationInfo"),
    (Opcode::SendBooklists, 7, "SendBooklists"),
    (Opcode::SendBook, 8, "SendBook"),
    (Opcode::SendBookMetadata, 16, "SendBookMetadata"),
    (Opcode::SetCalibreDeviceInfo, 1, "SetCalibreDeviceInfo"),
    (Opcode::SetCalibreDeviceName, 2, "SetCalibreDeviceName"),
    (Opcode::TotalSpace, 4, "TotalSpace"),
];

fn refusal(body: &[u8]) -> ReadError {
    match decode_message(body) {
        Some(Err(error)) => error,
        other => panic!("not refused: {:?}", other),
    }
}

fn refused_command(text: &str) -> ReadError {
    ReadError::Client(ClientError::ApplicationError(text.to_string()))
}

#[test]
fn operations_have_their_codes_and_names() {
    for (opcode, code, name) in OPERATIONS {
        assert_eq!(opcode.code(), code);
        assert_eq!(opcode.name(), name);
        assert_eq!(format!("{:?}", opcode), name);
        assert_eq!(Opcode::from_i64(code as i64), Some(opcode));
    }
}

#[test]
fn other_codes_are_no_operations() {
    for code in [-1, 10, 21, 255, 256, 268, i64::MIN, i64::MAX] {
        assert_eq!(Opcode::from_i64(code), None);
    }
}

#[test]
fn commands_are_framed_with_their_length() {
    assert_eq!(encode_command(Opcode::OK, Json::object()), b"6[0,{}]");
    let message = Json::object().with("message", Json::string("no"));
    assert_eq!(
        encode_command(Opcode::Error, message),
        b"21[20,{\"message\":\"no\"}]"
    );
}

#[test]
fn length_counts_bytes_and_not_characters() {
    let message = Json::string("é");
    assert_eq!(
        encode_command(Opcode::OK, message),
        "8[0,\"é\"]".as_bytes()
    );
}

#[test]
fn framed_command_is_read_back() {
    for (opcode, _, _) in OPERATIONS {
        let text = "{\"a\":[1,2,{\"b\":null}],\"c\":\"x[y]\"}";
        let bytes = encode_command(opcode, Json::parse(text).unwrap());
        let start = bytes.iter().position(|byte| *byte == b'[').unwrap();
        let length = message_length(&bytes[..start]).unwrap();
        assert_eq!(start + length, bytes.len());
        match decode_message(&bytes[start..]) {
            Some(Ok((read, message))) => {
                assert_eq!(read, opcode);
                assert_eq!(message.render(), text);
            }
            other => panic!("not read: {:?}", other),
        }
    }
}

#[test]
fn lengths_are_decimal_numbers() {
    assert_eq!(message_length(b"0"), Ok(0));
    assert_eq!(message_length(b"42"), Ok(42));
    assert_eq!(message_length(b"+7"), Ok(7));
    assert_eq!(message_length(b"007"), Ok(7));
    let largest = usize::MAX.to_string();
    assert_eq!(message_length(largest.as_bytes()), Ok(usize::MAX));
}

#[test]
fn other_lengths_are_refused() {
    assert_eq!(message_length(b""), Err(ReadError::Length(NumberError::Empty)));
    for text in ["+", "-", "-1", "1 2", " 1", "x", "1e3", "é"] {
        assert_eq!(
            message_length(text.as_bytes()),
            Err(ReadError::Length(NumberError::InvalidDigit))
        );
    }
    let too_large = (usize::MAX as u128 + 1).to_string();
    assert_eq!(
        message_length(too_large.as_bytes()),
        Err(ReadError::Length(NumberError::TooLarge))
    );
}

#[test]
fn lengths_in_other_encodings_are_refused_with_the_cause() {
    let bytes = [49, 255];
    let cause = std::str::from_utf8(&bytes).unwrap_err().to_string();
    assert_eq!(message_length(&bytes), Err(ReadError::Utf8(cause)));
}

#[test]
fn messages_that_are_no_commands_are_refused() {
    assert_eq!(refusal(b"{}"), refused_command("Unable to parse calibre response"));
    assert_eq!(refusal(b"[null,{}]"), refused_command("Opcode is not a number"));
    assert_eq!(refusal(b"[\"12\",{}]"), refused_command("Opcode is not a number"));
    assert_eq!(refusal(b"[12.0,{}]"), refused_command("Opcode is not a number"));
    assert_eq!(
        refusal(b"[9223372036854775808,{}]"),
        refused_command("Opcode is not a number")
    );
    assert_eq!(refusal(b"[10,{}]"), refused_command("Opcode not registered"));
    assert_eq!(refusal(b"[-1,{}]"), refused_command("Opcode not registered"));
}

#[test]
fn messages_that_are_no_text_or_no_json_are_refused_with_the_cause() {
    let bytes = [91, 255];
    let cause = std::str::from_utf8(&bytes).unwrap_err().to_string();
    assert_eq!(refusal(&bytes), ReadError::Utf8(cause));
    let cause = serde_json::from_str::<serde_json::Value>("[12,").unwrap_err().to_string();
    assert_eq!(refusal(b"[12,"), ReadError::Json(cause));
}

#[test]
fn more_than_two_items_are_allowed_and_fewer_mean_nothing() {
    match decode_message(b"[12,{\"count\":3},true]") {
        Some(Ok((opcode, message))) => {
            assert_eq!(opcode, Opcode::NOOP);
            assert_eq!(message.render(), "{\"count\":3}");
        }
        other => panic!("not read: {:?}", other),
    }
    assert_eq!(decode_message(b"[12]"), None);
    assert_eq!(decode_message(b"[]"), None);
}

#[test]
fn read_errors_are_reported_by_their_cause() {
    assert_eq!(ReadError::Io("gone".to_string()).report(), "gone");
    assert_eq!(ReadError::Utf8("bad".to_string()).report(), "bad");
    assert_eq!(ReadError::Json("worse".to_string()).report(), "worse");
    assert_eq!(
        ReadError::Length(NumberError::InvalidDigit).report(),
        "invalid digit found in string"
    );
    assert_eq!(
        refused_command("Opcode not registered").report(),
        "An error occured doing our own thing"
    );
}

#[test]
fn client_errors_are_reported_with_their_cause() {
    assert_eq!(
        ClientError::ProtocolError(Json::object()).report(),
        "An error occured carrying out a command from Calibre"
    );
    assert_eq!(
        ClientError::ApplicationError("x".to_string()).report(),
        "An error occured doing our own thing"
    );
    assert_eq!(ClientError::Json("x".to_string()).report(), "JSON!: x");
    assert_eq!(ClientError::File("x".to_string()).report(), "Files!: x");
    assert_eq!(ClientError::Other("x".to_string()).report(), "Other: x");
}
