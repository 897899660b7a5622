use plato_smart_device_client::decimal::NumberError;
use plato_smart_device_client::discovery::{
    after_greeting, calibre_server, first_probe, server_with_port, DiscoveryError, IpAddress, Probe,
    ServerAddress, BROADCAST_MSG, BROADCAST_PORTS,
};
use plato_smart_device_client::error::{ClientError, SetupError};
use plato_smart_device_client::json::Json;
use plato_smart_device_client::logger::Logger;
use plato_smart_device_client::message::Message;
use plato_smart_device_client::metadata::{Metadata, Timestamp};
use plato_smart_device_client::program::{
    farewell, is_over, prepare_directory, prepare_network, Preparation,
};
use plato_smart_device_client::smart_device_client::{
    device_name, Outcome, SmartDeviceClient, VolumeStats,
};
use plato_smart_device_client::types::{FileInfo, Info};
use plato_smart_device_client::wire::{decode_message, encode_command, message_length, Opcode};

const LOCAL: ServerAddress = ServerAddress::V4 { ip: 0x7f000001, port: 9090 };

fn client_with(password: Option<&str>) -> SmartDeviceClient {
    SmartDeviceClient::new(
        Some(LOCAL),
        Ok(None),
        password.map(|password| password.to_string()),
        "/mnt/onboard/calibre".to_string(),
        "/mnt/onboard".to_string(),
        0,
    )
    .unwrap()
}

fn client() -> SmartDeviceClient {
    client_with(None)
}

fn parsed(text: &str) -> Json {
    Json::parse(text).unwrap()
}

fn answer(outcome: Outcome) -> String {
    match outcome {
        Ok(Some(json)) => json.render(),
        other => panic!("no answer: {:?}", other),
    }
}

fn complaint(error: ClientError) -> String {
    match error {
        ClientError::ProtocolError(json) => json.render(),
        other => panic!("no complaint: {:?}", other),
    }
}

fn metadata() -> Metadata {
    Metadata {
        uuid: "u-1".to_string(),
        lpath: "Ann/Book.epub".to_string(),
        last_modified: Timestamp::new(1637952063, 0).unwrap(),
        size: 3,
        title: "Book".to_string(),
        authors: vec!["Ann".to_string(), "Bob".to_string()],
        tags: vec![],
        series: None,
    }
}

fn volume(fragment_size: u64, blocks: u64, blocks_available: u64) -> Option<VolumeStats> {
    Some(VolumeStats { fragment_size, blocks, blocks_available })
}

#[test]
fn address_that_is_set_wins() {
    let other = ServerAddress::V4 { ip: 1, port: 2 };
    let made = |addr, search| {
        SmartDeviceClient::new(addr, search, None, "s".to_string(), "l".to_string(), 2)
    };
    assert_eq!(made(Some(LOCAL), Ok(Some(other))).unwrap().addr, LOCAL);
    assert_eq!(made(None, Ok(Some(other))).unwrap().addr, other);
    assert_eq!(made(Some(LOCAL), Ok(None)).unwrap().addr, LOCAL);
    let text = "Unable to find calibre server address".to_string();
    let missing = made(None, Ok(None)).unwrap_err();
    assert_eq!(missing.report(), "An error occured doing our own thing");
    assert_eq!(missing, SetupError::Client(ClientError::ApplicationError(text)));
}

#[test]
fn failed_search_leaves_no_client() {
    for addr in [None, Some(LOCAL)] {
        let search = Err("timed out".to_string());
        let made =
            SmartDeviceClient::new(addr, search, None, "s".to_string(), "l".to_string(), 2);
        let error = made.unwrap_err();
        assert_eq!(error.report(), "timed out");
        assert_eq!(error, SetupError::Search("timed out".to_string()));
    }
}

#[test]
fn ports_are_greeted_in_order_until_one_can_be() {
    assert_eq!(BROADCAST_PORTS, [54982, 48123, 39001, 44044, 59678]);
    assert_eq!(&BROADCAST_MSG, b"hello");
    assert_eq!(first_probe(), Probe::Greet(0));
    for index in 0..5 {
        assert_eq!(after_greeting(index, true), Probe::Listen);
    }
    for index in 0..4 {
        assert_eq!(after_greeting(index, false), Probe::Greet(index + 1));
    }
    assert_eq!(after_greeting(4, false), Probe::GiveUp);
}

#[test]
fn server_is_taken_from_the_answer() {
    let from = IpAddress::V4(0xc0a80002);
    let found = calibre_server(b"calibre wireless device client (on my host);8080,9090", from);
    assert_eq!(found, Ok(Some(ServerAddress::V4 { ip: 0xc0a80002, port: 9090 })));
    let found = calibre_server(b"hi: calibre wireless device client (on x);1,2 bye", from);
    assert_eq!(found, Ok(Some(ServerAddress::V4 { ip: 0xc0a80002, port: 2 })));
    let found = calibre_server(
        b"calibre wireless device client (on x);1,2",
        IpAddress::V6(1),
    );
    let expected = ServerAddress::V6 { ip: 1, port: 2, flowinfo: 0, scope_id: 0 };
    assert_eq!(found, Ok(Some(expected)));
}

#[test]
fn other_answers_announce_no_server() {
    let from = IpAddress::V4(1);
    assert_eq!(calibre_server(b"", from), Ok(None));
    assert_eq!(calibre_server(b"calibre wireless device client (on );1,2", from), Ok(None));
    assert_eq!(calibre_server(b"calibre wireless device client (on x);1", from), Ok(None));
    let cause = std::str::from_utf8(&[255]).unwrap_err().to_string();
    assert_eq!(calibre_server(&[255], from), Err(DiscoveryError::Utf8(cause)));
    assert_eq!(
        calibre_server(b"calibre wireless device client (on x);1,65536", from),
        Err(DiscoveryError::Port(NumberError::TooLarge))
    );
}

#[test]
fn port_of_the_server_is_a_decimal_number() {
    let from = IpAddress::V4(7);
    let at = |text: &str| server_with_port(from, Some(text.to_string()));
    assert_eq!(server_with_port(from, None), Ok(None));
    assert_eq!(at("65535"), Ok(Some(ServerAddress::V4 { ip: 7, port: 65535 })));
    assert_eq!(at(""), Err(DiscoveryError::Port(NumberError::Empty)));
    assert_eq!(at("\u{663}"), Err(DiscoveryError::Port(NumberError::InvalidDigit)));
}

#[test]
fn noop_is_answered_unless_it_counts() {
    let client = client();
    let (told, outcome) = client.on_noop(&parsed("{\"ejecting\":true,\"count\":1}"));
    assert_eq!(told, Some(Message::Exit));
    assert_eq!(answer(outcome), "{}");
    let (told, outcome) = client.on_noop(&parsed("{\"count\":1}"));
    assert_eq!(told, None);
    assert_eq!(outcome, Ok(None));
    for text in ["{\"priKey\":1}", "{}", "null"] {
        let (told, outcome) = client.on_noop(&parsed(text));
        assert_eq!(told, None);
        assert_eq!(answer(outcome), "{}");
    }
}

#[test]
fn plain_commands_are_answered_or_not() {
    let client = client();
    assert_eq!(client.on_calibre_busy(), Ok(None));
    assert_eq!(client.on_get_book_metadata(), Ok(None));
    assert_eq!(client.on_send_booklists(), Ok(None));
    assert_eq!(client.on_send_book_metadata(), Ok(None));
    assert_eq!(answer(client.on_set_library_info()), "{}");
    assert_eq!(answer(client.on_delete_book()), "{}");
    assert_eq!(answer(client.on_display_message()), "{}");
    assert_eq!(answer(client.on_set_calibre_device_name()), "{}");
    assert_eq!(answer(client.on_get_book_file_segment()), "{\"fileLength\":0}");
}

#[test]
fn sizes_are_blocks_times_their_size() {
    let client = client();
    let stats = volume(4096, 1000, 10);
    assert_eq!(answer(client.on_free_space(stats)), "{\"free_space_on_device\":40960}");
    assert_eq!(answer(client.on_total_space(stats)), "{\"total_space_on_device\":4096000}");
    let refused = "{\"message\":\"Unable to get size information\"}";
    assert_eq!(complaint(client.on_free_space(None).unwrap_err()), refused);
    assert_eq!(complaint(client.on_total_space(None).unwrap_err()), refused);
}

#[test]
fn free_space_is_within_total_space() {
    let client = client();
    let stats = volume(512, 7, 7);
    let free = client.on_free_space(stats).unwrap().unwrap();
    let total = client.on_total_space(stats).unwrap().unwrap();
    assert_eq!(free.get("free_space_on_device"), total.get("total_space_on_device"));
}

#[test]
fn password_is_hashed_in_front_of_the_challenge() {
    let digest = "a9993e364706816aba3e25717850c26c9cd0d89d";
    assert_eq!(client_with(Some("abc")).get_password_hash(Some("")), digest);
    assert_eq!(client_with(Some("a")).get_password_hash(Some("bc")), digest);
    assert_eq!(client_with(Some("")).get_password_hash(Some("abc")), digest);
    assert_ne!(client_with(Some("bc")).get_password_hash(Some("a")), digest);
}

#[test]
fn there_is_no_hash_without_password_or_challenge() {
    assert_eq!(client_with(Some("abc")).get_password_hash(None), "");
    assert_eq!(client_with(None).get_password_hash(Some("abc")), "");
    assert_eq!(client_with(None).get_password_hash(None), "");
}

#[test]
fn client_tells_about_itself() {
    let client = client_with(Some("a"));
    let message = parsed("{\"passwordChallenge\":\"bc\"}");
    let expected = [
        "{\"acceptedExtensions\":[\"epub\"],",
        "\"appName\":\"plato-smart-device-client\",",
        "\"cacheUsesLpaths\":true,",
        "\"canAcceptLibraryInfo\":true,",
        "\"canDeleteMultipleBooks\":true,",
        "\"canReceiveBookBinary\":true,",
        "\"canSendOkToSendbook\":false,",
        "\"canStreamBooks\":true,",
        "\"canStreamMetadata\":true,",
        "\"canUseCachedMetadata\":false,",
        "\"ccVersionNumber\":\"0.1.0\",",
        "\"coverHeight\":240,",
        "\"deviceKind\":\"Kobo\",",
        "\"deviceName\":\"plato-smart-device-client (0.1.0)\",",
        "\"extensionPathLengths\":{\"epub\":37},",
        "\"maxBookContentPacketLen\":4096,",
        "\"passwordHash\":\"a9993e364706816aba3e25717850c26c9cd0d89d\",",
        "\"useUuidFileNames\":false,",
        "\"versionOK\":true}",
    ]
    .concat();
    assert_eq!(answer(client.on_get_initialization_info(&message)), expected);
}

#[test]
fn challenge_that_is_no_text_counts_as_none() {
    let client = client_with(Some("a"));
    for text in ["{\"passwordChallenge\":7}", "{}", "[]"] {
        let info = client.on_get_initialization_info(&parsed(text)).unwrap().unwrap();
        assert_eq!(info.get("passwordHash"), Some(&Json::string("")));
    }
}

#[test]
fn device_without_a_name_is_told_about() {
    assert_eq!(device_name(), "plato-smart-device-client (0.1.0)");
    let expected = [
        "{\"device_info\":{\"device_name\":\"plato-smart-device-client (0.1.0)\"},",
        "\"device_version\":\"0.1.0\",\"version\":\"0.1.0\"}",
    ]
    .concat();
    assert_eq!(answer(client().on_get_device_information(None)), expected);
}

#[test]
fn name_of_the_device_is_kept_and_told_again() {
    let client = client();
    assert_eq!(client.drive_info_path(), "/mnt/onboard/calibre/.driveinfo.calibre");
    let message = parsed("{\"prefix\":\"\",\"device_store_uuid\":\"ae9f\"}");
    let contents = client.on_set_calibre_device_info(&message);
    assert_eq!(contents, b"{\"device_store_uuid\":\"ae9f\",\"prefix\":\"\"}");
    let told = client.on_get_device_information(Some(contents)).unwrap().unwrap();
    let device = told.get("device_info").unwrap();
    assert_eq!(device.get("device_store_uuid"), Some(&Json::string("ae9f")));
    assert_eq!(device.get("device_name"), Some(&Json::String(device_name())));
}

#[test]
fn missing_name_of_the_device_is_null() {
    for text in ["{}", "[1]", "null"] {
        let contents = text.as_bytes().to_vec();
        let told = client().on_get_device_information(Some(contents)).unwrap().unwrap();
        let device = told.get("device_info").unwrap();
        assert_eq!(device.get("device_store_uuid"), Some(&Json::Null));
    }
}

#[test]
fn malformed_name_of_the_device_is_an_error() {
    let cause = serde_json::from_str::<serde_json::Value>("{").unwrap_err().to_string();
    let outcome = client().on_get_device_information(Some(b"{".to_vec()));
    assert_eq!(outcome, Err(ClientError::Json(cause)));
}

#[test]
fn books_are_listed_after_their_number() {
    let book = Info {
        title: "Book".to_string(),
        identifier: "u-1".to_string(),
        author: "Ann, Bob".to_string(),
        file: FileInfo { path: "a.epub".to_string(), kind: "epub".to_string(), size: 12 },
        added: Timestamp::new(0, 0).unwrap(),
    };
    let (stream, outcome) = client().on_get_book_count(Some(vec![book]));
    assert_eq!(outcome, Ok(None));
    let texts: Vec<String> = stream.iter().map(|json| json.render()).collect();
    let described = [
        "{\"authors\":\"AnnBob\",\"last_modified\":\"1970-01-01T00:00:00+00:00\",",
        "\"lpath\":\"a.epub\",\"size\":12,\"title\":\"Book\"}",
    ]
    .concat();
    assert_eq!(
        texts,
        vec!["{\"count\":1,\"willScan\":true,\"willStream\":true}".to_string(), described]
    );
}

#[test]
fn failed_search_counts_as_no_books() {
    let (stream, outcome) = client().on_get_book_count(None);
    assert!(stream.is_empty());
    assert_eq!(answer(outcome), "{\"count\":0,\"willScan\":true,\"willStream\":true}");
    let (stream, outcome) = client().on_get_book_count(Some(vec![]));
    assert_eq!(stream.len(), 1);
    assert_eq!(outcome, Ok(None));
}

#[test]
fn announced_book_has_a_length() {
    let client = client();
    let message = parsed("{\"length\":3,\"lpath\":\"a.epub\",\"metadata\":{\"title\":\"x\"}}");
    let request = client.on_send_book(message).unwrap();
    assert_eq!(request.length, 3);
    assert_eq!(request.lpath, Some("a.epub".to_string()));
    assert_eq!(request.metadata.render(), "{\"title\":\"x\"}");
    let request = client.on_send_book(parsed("{\"length\":0,\"lpath\":7}")).unwrap();
    assert_eq!(request.length, 0);
    assert_eq!(request.lpath, None);
    assert_eq!(request.metadata, Json::Null);
    for text in ["{}", "{\"length\":-1}", "{\"length\":\"3\"}", "{\"length\":3.0}", "[3]"] {
        let error = client.on_send_book(parsed(text)).unwrap_err();
        assert_eq!(complaint(error), "{\"message\":\"You didn't send me a length!\"}");
    }
}

#[test]
fn book_goes_below_the_directory_for_books() {
    let client = client();
    let lpath = Some("Ann/Book.epub".to_string());
    assert_eq!(
        client.book_path(&lpath),
        Ok("/mnt/onboard/calibre/Ann/Book.epub".to_string())
    );
    let error = client.book_path(&None).unwrap_err();
    assert_eq!(complaint(error), "{\"message\":\"Bad or missing lpath\"}");
}

#[test]
fn book_in_the_library_becomes_a_document() {
    let info = client().book_info("/mnt/onboard/calibre/Book.epub", metadata(), 3).unwrap();
    let expected = Info {
        title: "Book".to_string(),
        identifier: "u-1".to_string(),
        author: "Ann, Bob".to_string(),
        file: FileInfo {
            path: "calibre/Book.epub".to_string(),
            kind: "epub".to_string(),
            size: 3,
        },
        added: Timestamp::new(1637952063, 0).unwrap(),
    };
    assert_eq!(info, expected);
    assert_eq!(client().book_info("/tmp/Book.epub", metadata(), 3), None);
    assert_eq!(client().book_info("/mnt/onboard2/Book.epub", metadata(), 3), None);
}

#[test]
fn stored_book_is_listed_as_calibre_described_it() {
    let info = client().book_info("/mnt/onboard/Book.epub", metadata(), 3).unwrap();
    let (stream, _) = client().on_get_book_count(Some(vec![info]));
    let listed = &stream[1];
    assert_eq!(listed.get("lpath"), Some(&Json::string("Book.epub")));
    assert_eq!(listed.get("size"), Some(&Json::integer(3)));
    assert_eq!(listed.get("title"), Some(&Json::string("Book")));
    assert_eq!(listed.get("authors"), Some(&Json::string("AnnBob")));
    assert_eq!(listed.get("last_modified"), Some(&Json::string("2021-11-26T18:41:03+00:00")));
}

#[test]
fn answers_are_read_back_from_their_frames() {
    let client = client_with(Some("a"));
    let stats = volume(512, 7, 3);
    let contents = b"{\"device_store_uuid\":\"ae9f\"}".to_vec();
    let info = client.book_info("/mnt/onboard/Book.epub", metadata(), 3).unwrap();
    let (mut answers, _) = client.on_get_book_count(Some(vec![info]));
    for outcome in [
        client.on_set_library_info(),
        client.on_get_book_file_segment(),
        client.on_free_space(stats),
        client.on_total_space(stats),
        client.on_get_device_information(None),
        client.on_get_device_information(Some(contents)),
        client.on_get_initialization_info(&parsed("{\"passwordChallenge\":\"bc\"}")),
    ] {
        answers.push(outcome.unwrap().unwrap());
    }
    assert_eq!(answers.len(), 9);
    for answer in answers {
        let text = answer.render();
        let bytes = encode_command(Opcode::OK, answer);
        let start = bytes.iter().position(|byte| *byte == b'[').unwrap();
        assert_eq!(message_length(&bytes[..start]), Ok(bytes.len() - start));
        match decode_message(&bytes[start..]) {
            Some(Ok((opcode, message))) => {
                assert_eq!(opcode, Opcode::OK);
                assert_eq!(message.render(), text);
            }
            other => panic!("not read: {:?}", other),
        }
    }
}

fn notify(text: &str) -> Preparation {
    Preparation::Notify(text.to_string())
}

#[test]
fn network_is_brought_up_where_it_is_down() {
    let logger = Logger::new(3);
    let start = "Starting plato-smart-device-client!";
    assert_eq!(prepare_network(&logger, true, true), vec![notify(start)]);
    assert_eq!(prepare_network(&logger, false, true), vec![notify(start)]);
    assert_eq!(
        prepare_network(&logger, false, false),
        vec![
            notify(start),
            notify("Not online!"),
            notify("Wifi is off!"),
            notify("Establishing a network connection."),
            Preparation::SwitchWifiOn,
        ]
    );
    assert_eq!(
        prepare_network(&Logger::new(1), true, false),
        vec![notify("Waiting for the network to come up."), Preparation::AwaitNetwork]
    );
    assert_eq!(
        prepare_network(&Logger::new(0), true, false),
        vec![Preparation::AwaitNetwork]
    );
}

#[test]
fn directory_is_created_where_it_is_missing() {
    let logger = Logger::new(3);
    assert_eq!(prepare_directory(&logger, true), vec![]);
    assert_eq!(
        prepare_directory(&logger, false),
        vec![notify("Creating save directory"), Preparation::CreateDirectory]
    );
    assert_eq!(
        prepare_directory(&Logger::new(2), false),
        vec![Preparation::CreateDirectory]
    );
}

#[test]
fn program_ends_with_the_session() {
    assert!(is_over(&Some(Message::Exit)));
    assert!(!is_over(&Some(Message::Notify("x".to_string()))));
    assert!(!is_over(&Some(Message::AddBook(vec![1]))));
    assert!(!is_over(&None));
    assert_eq!(farewell(&Logger::new(1)), Some("Bye bye!".to_string()));
    assert_eq!(farewell(&Logger::new(0)), None);
}
