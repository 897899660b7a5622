use plato_smart_device_client::discovery::ServerAddress;
use plato_smart_device_client::json::Json;
use plato_smart_device_client::message::Message;
use plato_smart_device_client::metadata::{Metadata, Timestamp};
use plato_smart_device_client::session::{Effect, Event, Phase, Request, Step};
use plato_smart_device_client::smart_device_client::{SmartDeviceClient, VolumeStats};
use plato_smart_device_client::types::{FileInfo, Info};
use plato_smart_device_client::wire::{encode_command, Opcode};

fn client(level: u8) -> SmartDeviceClient {
    SmartDeviceClient::new(
        Some(ServerAddress::V4 { ip: 1, port: 2 }),
        Ok(None),
        None,
        "/books/calibre".to_string(),
        "/books".to_string(),
        level,
    )
    .unwrap()
}

fn metadata() -> Metadata {
    Metadata {
        uuid: "u-1".to_string(),
        lpath: "a.epub".to_string(),
        last_modified: Timestamp::new(0, 0).unwrap(),
        size: 3,
        title: "Book".to_string(),
        authors: vec!["Ann".to_string()],
        tags: vec![],
        series: None,
    }
}

fn book(path: &str) -> Info {
    Info {
        title: "Book".to_string(),
        identifier: "u-1".to_string(),
        author: "Ann".to_string(),
        file: FileInfo { path: path.to_string(), kind: "epub".to_string(), size: 3 },
        added: Timestamp::new(0, 0).unwrap(),
    }
}

/// The step after a message in a frame, from the beginning of a session.
fn after_frame(client: &SmartDeviceClient, bytes: &[u8]) -> Step {
    let mut step = client.serve(Phase::Idle, Event::Continue).unwrap();
    let mut at = 0;
    loop {
        let event = match step.request {
            Request::ReadByte => {
                at = at + 1;
                Event::Byte(bytes[at - 1])
            }
            Request::ReadExact(length) => {
                let from = at;
                at = at + length as usize;
                Event::Bytes(bytes[from..at].to_vec())
            }
            _ => panic!("does not read: {:?}", step),
        };
        step = client.serve(step.phase, event).unwrap();
        if at == bytes.len() {
            return step;
        }
    }
}

fn after_message(client: &SmartDeviceClient, opcode: Opcode, text: &str) -> Step {
    after_frame(client, &encode_command(opcode, Json::parse(text).unwrap()))
}

fn goes_on(client: &SmartDeviceClient, step: Step, event: Event) -> Step {
    client.serve(step.phase, event).unwrap()
}

fn failed(cause: &str) -> Event {
    Event::Failed(cause.to_string())
}

fn alarm(line: &str, cause: &str) -> Vec<Effect> {
    vec![
        Effect::Warn(line.to_string()),
        Effect::Notify(format!("Error communicating with calibre... {}", cause)),
    ]
}

fn assert_sends(step: &Step, text: &str) {
    let expected = format!("{}{}", text.len(), text).into_bytes();
    assert_eq!(step.request, Request::Send(expected));
}

fn assert_ready(step: &Step, effects: Vec<Effect>) {
    assert_eq!(step.phase, Phase::Idle);
    assert_eq!(step.effects, effects);
    assert_eq!(step.request, Request::Poll);
}

#[test]
fn session_polls_reads_and_stops() {
    let client = client(0);
    let step = client.serve(Phase::Idle, Event::Continue).unwrap();
    assert_eq!(step.phase, Phase::Prefix(vec![]));
    assert_eq!(step.request, Request::ReadByte);
    let step = goes_on(&client, step, Event::Byte(b'4'));
    assert_eq!(step.phase, Phase::Prefix(vec![b'4']));
    let step = goes_on(&client, step, Event::Byte(b'2'));
    let step = goes_on(&client, step, Event::Byte(b'['));
    assert_eq!(step.phase, Phase::Body(41));
    assert_eq!(step.request, Request::ReadExact(41));
    let step = client.serve(Phase::Idle, Event::Stop).unwrap();
    assert_eq!(step.phase, Phase::Finished);
    assert_eq!(step.request, Request::Nothing);
    assert_eq!(client.serve(Phase::Finished, Event::Continue), None);
}

#[test]
fn commands_are_shown_when_debugging() {
    let step = after_message(&client(3), Opcode::SetLibraryInfo, "{\"a\":1}");
    assert_eq!(step.effects, vec![Effect::Notify("SET_LIBRARY_INFO {\"a\":1}".to_string())]);
    let step = after_message(&client(2), Opcode::SetLibraryInfo, "{\"a\":1}");
    assert_eq!(step.effects, vec![]);
    let step = after_message(&client(3), Opcode::BookDone, "{}");
    assert_eq!(step.effects, vec![]);
}

#[test]
fn every_command_is_shown_under_its_name() {
    for (opcode, name) in [
        (Opcode::NOOP, "NOOP"),
        (Opcode::CalibreBusy, "CALIBRE_BUSY"),
        (Opcode::SetLibraryInfo, "SET_LIBRARY_INFO"),
        (Opcode::DeleteBook, "DELETE_BOOK"),
        (Opcode::DisplayMessage, "DISPLAY_MESSAGE"),
        (Opcode::FreeSpace, "FREE_SPACE"),
        (Opcode::GetBookFileSegment, "GET_BOOK_FILE_SEGMENT"),
        (Opcode::GetBookMetadata, "GET_BOOK_METADATA"),
        (Opcode::GetBookCount, "GET_BOOK_COUNT"),
        (Opcode::GetDeviceInformation, "GET_DEVICE_INFORMATION"),
        (Opcode::GetInitializationInfo, "GET_INITIALIZATION_INFO"),
        (Opcode::SendBooklists, "SEND_BOOKLISTS"),
        (Opcode::SendBook, "SEND_BOOK"),
        (Opcode::SendBookMetadata, "SEND_BOOK_METADATA"),
        (Opcode::SetCalibreDeviceInfo, "SET_CALIBRE_DEVICE_INFO"),
        (Opcode::SetCalibreDeviceName, "SET_CALIBRE_DEVICE_NAME"),
        (Opcode::TotalSpace, "TOTAL_SPACE"),
    ] {
        let step = after_message(&client(3), opcode, "{}");
        assert_eq!(step.effects[0], Effect::Notify(format!("{} {{}}", name)));
    }
}

#[test]
fn questions_are_answered_at_once_where_they_can_be() {
    let client = client(0);
    for opcode in [
        Opcode::NOOP,
        Opcode::SetLibraryInfo,
        Opcode::DeleteBook,
        Opcode::DisplayMessage,
        Opcode::SetCalibreDeviceName,
    ] {
        let step = after_message(&client, opcode, "{}");
        assert_eq!(step.phase, Phase::Reply(opcode));
        assert_sends(&step, "[0,{}]");
        assert_ready(&goes_on(&client, step, Event::Sent), vec![]);
    }
    let step = after_message(&client, Opcode::GetBookFileSegment, "{}");
    assert_sends(&step, "[0,{\"fileLength\":0}]");
    let step = after_message(&client, Opcode::GetInitializationInfo, "{}");
    match step.request {
        Request::Send(bytes) => {
            assert!(String::from_utf8(bytes).unwrap().contains("\"passwordHash\":\"\""))
        }
        other => panic!("not answered: {:?}", other),
    }
}

#[test]
fn announcements_are_not_answered() {
    for opcode in [
        Opcode::CalibreBusy,
        Opcode::GetBookMetadata,
        Opcode::SendBooklists,
        Opcode::SendBookMetadata,
        Opcode::OK,
        Opcode::BookDone,
        Opcode::Error,
    ] {
        assert_ready(&after_message(&client(0), opcode, "{}"), vec![]);
    }
    assert_ready(&after_message(&client(0), Opcode::NOOP, "{\"count\":2}"), vec![]);
}

#[test]
fn main_thread_is_told_when_the_device_is_ejected() {
    let step = after_message(&client(3), Opcode::NOOP, "{\"ejecting\":true}");
    assert_eq!(
        step.effects,
        vec![
            Effect::Notify("NOOP {\"ejecting\":true}".to_string()),
            Effect::Tell(Message::Exit),
        ]
    );
    assert_sends(&step, "[0,{}]");
}

#[test]
fn command_that_cannot_be_read_ends_the_session() {
    let client = client(0);
    let mut expected = alarm("Error reading command timed out.", "timed out");
    expected.push(Effect::Tell(Message::Exit));
    assert_ready(&client.serve(Phase::Prefix(vec![]), failed("timed out")).unwrap(), expected);

    let mut expected = alarm("Error reading command gone.", "gone");
    expected.push(Effect::Tell(Message::Exit));
    assert_ready(&client.serve(Phase::Body(3), failed("gone")).unwrap(), expected);

    let cause = "cannot parse integer from empty string";
    let mut expected = alarm(&format!("Error reading command {}.", cause), cause);
    expected.push(Effect::Tell(Message::Exit));
    assert_ready(&client.serve(Phase::Prefix(vec![]), Event::Byte(b'[')).unwrap(), expected);

    let cause = "An error occured doing our own thing";
    let mut expected = alarm(&format!("Error reading command {}.", cause), cause);
    expected.push(Effect::Tell(Message::Exit));
    assert_ready(&after_frame(&client, b"7[10,{}]"), expected);
}

#[test]
fn some_messages_have_no_step() {
    let client = client(0);
    assert_eq!(client.serve(Phase::Prefix(vec![b'0']), Event::Byte(b'[')), None);
    assert_eq!(client.serve(Phase::Body(3), Event::Bytes(b"12]".to_vec())), None);
    assert_eq!(client.serve(Phase::Body(4), Event::Bytes(b"12]".to_vec())), None);
    assert_eq!(client.serve(Phase::Idle, Event::Sent), None);
    let large = VolumeStats { fragment_size: 2, blocks: u64::MAX, blocks_available: 1 };
    assert_eq!(client.serve(Phase::TotalSpace, Event::Volume(Some(large))), None);
    assert!(client.serve(Phase::FreeSpace, Event::Volume(Some(large))).is_some());
}

#[test]
fn sizes_are_asked_for_and_told() {
    let client = client(0);
    let stats = VolumeStats { fragment_size: 10, blocks: 7, blocks_available: 3 };
    let step = after_message(&client, Opcode::FreeSpace, "{}");
    assert_eq!(step.request, Request::Volume("/books/calibre".to_string()));
    let step = goes_on(&client, step, Event::Volume(Some(stats)));
    assert_sends(&step, "[0,{\"free_space_on_device\":30}]");
    let step = after_message(&client, Opcode::TotalSpace, "{}");
    assert_eq!(step.request, Request::Volume("/books/calibre".to_string()));
    let step = goes_on(&client, step, Event::Volume(Some(stats)));
    assert_sends(&step, "[0,{\"total_space_on_device\":70}]");
    let step = after_message(&client, Opcode::TotalSpace, "{}");
    let step = goes_on(&client, step, Event::Volume(None));
    assert_sends(&step, "[20,{\"message\":\"Unable to get size information\"}]");
}

#[test]
fn book_list_is_sent_whole() {
    let client = client(0);
    let step = after_message(&client, Opcode::GetBookCount, "{}");
    assert_eq!(
        step.request,
        Request::Search { path: "/books/calibre".to_string(), query: String::new() }
    );
    let books = vec![book("a.epub"), book("b.epub")];
    let step = goes_on(&client, step, Event::Books(Some(books)));
    assert_sends(&step, "[0,{\"count\":2,\"willScan\":true,\"willStream\":true}]");
    let mut step = goes_on(&client, step, Event::Sent);
    for name in ["a.epub", "b.epub"] {
        let text = format!(
            "[0,{{\"authors\":\"Ann\",\"last_modified\":\"1970-01-01T00:00:00+00:00\",\
             \"lpath\":\"{}\",\"size\":3,\"title\":\"Book\"}}]",
            name
        );
        assert_sends(&step, &text);
        step = goes_on(&client, step, Event::Sent);
    }
    assert_ready(&step, vec![]);
}

#[test]
fn book_list_is_given_up_when_it_cannot_be_sent() {
    let client = client(0);
    let step = client.serve(Phase::BookSearch, Event::Books(Some(vec![]))).unwrap();
    let step = goes_on(&client, step, failed("broken pipe"));
    let expected = alarm(
        "Error handling GetBookCount: Other: broken pipe.",
        "Other: broken pipe",
    );
    assert_ready(&step, expected);
    let step = client.serve(Phase::BookSearch, Event::Books(None)).unwrap();
    assert_sends(&step, "[0,{\"count\":0,\"willScan\":true,\"willStream\":true}]");
}

#[test]
fn device_name_is_read_where_it_was_written() {
    let client = client(0);
    let step = after_message(
        &client,
        Opcode::SetCalibreDeviceInfo,
        "{\"device_store_uuid\":\"x\"}",
    );
    let path = "/books/calibre/.driveinfo.calibre".to_string();
    let contents = b"{\"device_store_uuid\":\"x\"}".to_vec();
    assert_eq!(
        step.request,
        Request::WriteFile { path: path.clone(), contents: contents.clone() }
    );
    let step = goes_on(&client, step, Event::Stored(25));
    assert_sends(&step, "[0,{}]");
    let step = after_message(&client, Opcode::GetDeviceInformation, "{}");
    assert_eq!(step.request, Request::ReadFile(path));
    let step = goes_on(&client, step, Event::Contents(Some(contents)));
    let device = "{\"device_name\":\"plato-smart-device-client (0.1.0)\",\"device_store_uuid\":\"x\"}";
    let text = format!(
        "[0,{{\"device_info\":{},\"device_version\":\"0.1.0\",\"version\":\"0.1.0\"}}]",
        device
    );
    assert_sends(&step, &text);
}

#[test]
fn files_that_fail_are_reported() {
    let client = client(0);
    let step = client.serve(Phase::DriveInfo, failed("denied")).unwrap();
    let line = "Error handling GetDeviceInformation: Files!: denied.";
    assert_ready(&step, alarm(line, "Files!: denied"));
    let step = client.serve(Phase::DriveInfo, Event::Malformed("eof".to_string())).unwrap();
    let line = "Error handling GetDeviceInformation: JSON!: eof.";
    assert_ready(&step, alarm(line, "JSON!: eof"));
    let step = client.serve(Phase::DriveInfoFile, failed("full")).unwrap();
    let line = "Error handling SetCalibreDeviceInfo: Files!: full.";
    assert_ready(&step, alarm(line, "Files!: full"));
    let step = client.serve(Phase::DriveInfo, Event::Contents(None)).unwrap();
    assert_eq!(step.phase, Phase::Reply(Opcode::GetDeviceInformation));
}

#[test]
fn reply_that_cannot_be_sent_is_reported() {
    let step = client(0).serve(Phase::Reply(Opcode::NOOP), failed("reset")).unwrap();
    assert_ready(&step, alarm("Error handling NOOP: reset.", "reset"));
}

#[test]
fn sent_book_is_stored_and_added() {
    let client = client(0);
    let step = after_message(
        &client,
        Opcode::SendBook,
        "{\"length\":3,\"lpath\":\"a.epub\",\"metadata\":{\"title\":\"Book\"}}",
    );
    assert_eq!(step.request, Request::Describe("{\"title\":\"Book\"}".to_string()));
    let step = goes_on(&client, step, Event::Described(metadata()));
    assert_eq!(step.request, Request::ReadExact(3));
    let step = goes_on(&client, step, Event::Bytes(b"xyz".to_vec()));
    assert_eq!(
        step.request,
        Request::WriteFile {
            path: "/books/calibre/a.epub".to_string(),
            contents: b"xyz".to_vec(),
        }
    );
    let step = goes_on(&client, step, Event::Stored(3));
    assert_ready(&step, vec![Effect::AddDocument(book("calibre/a.epub"))]);
}

#[test]
fn book_outside_the_library_is_only_stored() {
    let client = client(0);
    let step = after_message(
        &client,
        Opcode::SendBook,
        "{\"length\":1,\"lpath\":\"/tmp/a.epub\",\"metadata\":null}",
    );
    let step = goes_on(&client, step, Event::Described(metadata()));
    let step = goes_on(&client, step, Event::Bytes(vec![1]));
    let step = goes_on(&client, step, Event::Stored(1));
    assert_ready(&step, vec![]);
}

#[test]
fn book_that_fails_is_reported() {
    let client = client(0);
    let step = after_message(&client, Opcode::SendBook, "{}");
    assert_eq!(step.phase, Phase::Reply(Opcode::SendBook));
    assert_sends(&step, "[20,{\"message\":\"You didn't send me a length!\"}]");

    let announced = || after_message(&client, Opcode::SendBook, "{\"length\":1}");
    let step = goes_on(&client, announced(), Event::Malformed("no title".to_string()));
    let line = "Error handling SendBook: JSON!: no title.";
    assert_ready(&step, alarm(line, "JSON!: no title"));

    let described = || goes_on(&client, announced(), Event::Described(metadata()));
    let step = goes_on(&client, described(), failed("eof"));
    assert_ready(&step, alarm("Error handling SendBook: Other: eof.", "Other: eof"));

    let step = goes_on(&client, described(), Event::Bytes(vec![7]));
    assert_sends(&step, "[20,{\"message\":\"Bad or missing lpath\"}]");

    let stored = Phase::BookFile { path: "/books/a.epub".to_string(), metadata: metadata() };
    let step = client.serve(stored, failed("full")).unwrap();
    assert_ready(&step, alarm("Error handling SendBook: Files!: full.", "Files!: full"));
}
