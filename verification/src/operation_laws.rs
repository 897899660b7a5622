//! What calibre and the user get to see of each operation, in terms of what came in.
use crate::answer_laws::law_client_tells_about_itself;
use crate::bindings::{hex_text, json_parsed, json_read, json_text, sha1_digest, utf8_error};
use crate::decimal::{decimal_digits, NumberError};
use crate::error::{ClientErrorView, ReadErrorView};
use crate::json::{JsonTree, NumberValue};
use crate::logger::law_errors_are_always_shown;
use crate::message::Message;
use crate::metadata::Metadata;
use crate::path::{below, joined};
use crate::session::{
    book_frames, label, EffectView, EventView, PhaseView, RequestView, StepView,
};
use crate::smart_device_client::{initialization_info, SmartDeviceClient, VolumeStats, NAME, VERSION};
use crate::text::{joined_with, owned_texts};
use crate::types::{Info, InfoView};
use crate::wire::{
    announced_length, command_in_bytes, command_tree, frame, law_length_of_message_is_read, Opcode,
};
use vstd::prelude::*;
use vstd::utf8::{decode_utf8, encode_utf8, valid_utf8};

verus! {

/// A session begins to read, or ends, as it is told to; a byte in front of a message is kept behind
/// those that came before it.
pub proof fn law_session_reads_byte_by_byte(client: SmartDeviceClient, prefix: Seq<u8>, byte: u8)
    requires
        byte != 91,
    ensures
        client.next(PhaseView::Idle, EventView::Continue) == Some(
            StepView {
                phase: PhaseView::Prefix(seq![]),
                effects: seq![],
                request: RequestView::ReadByte,
            },
        ),
        client.next(PhaseView::Idle, EventView::Stop) == Some(
            StepView { phase: PhaseView::Finished, effects: seq![], request: RequestView::Nothing },
        ),
        client.next(PhaseView::Prefix(prefix), EventView::Byte(byte)) == Some(
            StepView {
                phase: PhaseView::Prefix(prefix.push(byte)),
                effects: seq![],
                request: RequestView::ReadByte,
            },
        ),
{
}

/// Behind the digits of a length and a bracket, as many bytes as the length says are read, less
/// the bracket.
pub proof fn law_announced_message_is_read_whole(client: SmartDeviceClient, length: nat)
    requires
        0 < length <= usize::MAX,
    ensures
        client.next(PhaseView::Prefix(decimal_digits(length)), EventView::Byte(91)) == Some(
            StepView {
                phase: PhaseView::Body((length - 1) as u64),
                effects: seq![],
                request: RequestView::ReadExact((length - 1) as u64),
            },
        ),
{
    law_length_of_message_is_read(length);
}

/// A message that is an array of a code and a document is carried out as the operation with that
/// code and that document.
pub proof fn law_message_is_carried_out(
    client: SmartDeviceClient,
    rest: Seq<u8>,
    items: Seq<JsonTree>,
    opcode: Opcode,
)
    requires
        rest.len() <= u64::MAX,
        valid_utf8(seq![91u8] + rest),
        json_parsed(decode_utf8(seq![91u8] + rest)) is Ok,
        json_parsed(decode_utf8(seq![91u8] + rest))->Ok_0 == JsonTree::Array(items),
        items.len() >= 2,
        items[0] == JsonTree::Number(NumberValue::Int(opcode.code_spec() as int)),
    ensures
        client.next(PhaseView::Body(rest.len() as u64), EventView::Bytes(rest)) == Some(
            client.dispatched(opcode, items[1]),
        ),
{
    crate::wire::law_codes_identify_operations(opcode, opcode.code_spec() as i64);
}

/// What is done when no command can be read: the cause goes to the error output and to the user,
/// and the main thread is told that the session is over.
pub open spec fn reading_ended(step: Option<StepView>, cause: Seq<char>) -> bool {
    step == Some(
        StepView {
            phase: PhaseView::Idle,
            effects: seq![
                EffectView::Warn("Error reading command "@ + cause + "."@),
                EffectView::Notify("Error communicating with calibre... "@ + cause),
                EffectView::Tell(Message::Exit),
            ],
            request: RequestView::Poll,
        },
    )
}

/// The step after a command could not be read, with the error in words.
proof fn lemma_read_failed(client: SmartDeviceClient, error: ReadErrorView)
    ensures
        reading_ended(Some(client.read_failed(error)), error.report()),
{
    let words = seq!["Error communicating with calibre... "@ + error.report()];
    law_errors_are_always_shown(client.logger, words);
    assert(joined_with(words, seq![' ']) == words[0]);
    assert(client.read_failed(error).effects =~= seq![
        EffectView::Warn("Error reading command "@ + error.report() + "."@),
        EffectView::Notify(words[0]),
        EffectView::Tell(Message::Exit),
    ]);
}

/// A command that cannot be read ends the session with its cause: that of the connection, of the
/// encoding, of the length, of the document, or that the document is no command.
pub proof fn law_unreadable_command_ends_the_session(
    client: SmartDeviceClient,
    cause: Seq<char>,
    prefix: Seq<u8>,
    rest: Seq<u8>,
    length: u64,
)
    requires
        rest.len() == length,
    ensures
        reading_ended(
            client.next(PhaseView::Prefix(prefix), EventView::Failed(cause)),
            cause,
        ),
        reading_ended(client.next(PhaseView::Body(length), EventView::Failed(cause)), cause),
        !valid_utf8(prefix) ==> reading_ended(
            client.next(PhaseView::Prefix(prefix), EventView::Byte(91)),
            utf8_error(prefix),
        ),
        prefix.len() == 0 ==> reading_ended(
            client.next(PhaseView::Prefix(prefix), EventView::Byte(91)),
            "cannot parse integer from empty string"@,
        ),
        !valid_utf8(seq![91u8] + rest) ==> reading_ended(
            client.next(PhaseView::Body(length), EventView::Bytes(rest)),
            utf8_error(seq![91u8] + rest),
        ),
        valid_utf8(seq![91u8] + rest) ==> match json_parsed(decode_utf8(seq![91u8] + rest)) {
            Err(message) => reading_ended(
                client.next(PhaseView::Body(length), EventView::Bytes(rest)),
                message,
            ),
            Ok(JsonTree::Array(items)) => items.len() >= 2 && (forall|opcode: Opcode|
                items[0] != JsonTree::Number(
                    NumberValue::Int(#[trigger] opcode.code_spec() as int),
                )) ==> reading_ended(
                client.next(PhaseView::Body(length), EventView::Bytes(rest)),
                "An error occured doing our own thing"@,
            ),
            Ok(_) => reading_ended(
                client.next(PhaseView::Body(length), EventView::Bytes(rest)),
                "An error occured doing our own thing"@,
            ),
        },
{
    lemma_read_failed(client, ReadErrorView::Io(cause));
    lemma_read_failed(client, ReadErrorView::Utf8(utf8_error(prefix)));
    lemma_read_failed(client, ReadErrorView::Length(NumberError::Empty));
    if prefix.len() == 0 {
        vstd::utf8::encode_utf8_valid_utf8(seq![]);
        assert(encode_utf8(seq![]) =~= prefix);
    }
    let body = seq![91u8] + rest;
    lemma_read_failed(client, ReadErrorView::Utf8(utf8_error(body)));
    if valid_utf8(body) {
        match json_parsed(decode_utf8(body)) {
            Err(message) => lemma_read_failed(client, ReadErrorView::Json(message)),
            Ok(tree) => {
                if let Some(Err(error)) = command_in_bytes(body) {
                    lemma_read_failed(client, error);
                }
                if let JsonTree::Array(items) = tree {
                    if let Some(Ok((opcode, message))) = command_in_bytes(body) {
                        let n = items[0].as_i64()->0;
                        crate::wire::law_codes_identify_operations(opcode, n);
                        assert(items[0] == JsonTree::Number(
                            NumberValue::Int(opcode.code_spec() as int),
                        ));
                    }
                }
            },
        }
    }
}

/// An incoming command is shown by its name and its whole document, with a space between them, to
/// those who debug and to nobody else; answers of calibre are never shown.
pub proof fn law_commands_are_shown_to_those_who_debug(
    client: SmartDeviceClient,
    opcode: Opcode,
    message: JsonTree,
)
    ensures
        client.logger.level() >= 3 && label(opcode) is Some ==> client.announcement(opcode, message)
            == seq![EffectView::Notify(label(opcode)->0 + seq![' '] + json_text(message))],
        client.logger.level() < 3 || label(opcode) is None ==> client.announcement(opcode, message)
            == Seq::<EffectView>::empty(),
        label(opcode) is None <==> opcode == Opcode::OK || opcode == Opcode::BookDone || opcode
            == Opcode::Error,
{
    if label(opcode) is Some {
        let words = seq![label(opcode)->0, json_text(message)];
        assert(words.drop_last() =~= seq![label(opcode)->0]);
        assert(joined_with(words.drop_last(), seq![' ']) == label(opcode)->0);
        assert(joined_with(words, seq![' ']) == label(opcode)->0 + seq![' '] + json_text(message));
    }
}

/// What is done about a command that failed: the operation and the cause go to the error output,
/// and the cause to the user at every level.
pub proof fn law_failure_is_reported_with_its_cause(
    client: SmartDeviceClient,
    opcode: Opcode,
    cause: Seq<char>,
)
    ensures
        client.handling_alarm(opcode, cause) == seq![
            EffectView::Warn("Error handling "@ + opcode.name_spec() + ": "@ + cause + "."@),
            EffectView::Notify("Error communicating with calibre... "@ + cause),
        ],
{
    let words = seq!["Error communicating with calibre... "@ + cause];
    law_errors_are_always_shown(client.logger, words);
    assert(joined_with(words, seq![' ']) == words[0]);
    assert(client.handling_alarm(opcode, cause) =~= seq![
        EffectView::Warn("Error handling "@ + opcode.name_spec() + ": "@ + cause + "."@),
        EffectView::Notify(words[0]),
    ]);
}

/// The session waits until a document was sent as the answer to an operation.
pub open spec fn answered(
    step: Option<StepView>,
    opcode: Opcode,
    effects: Seq<EffectView>,
    reply: Opcode,
    document: JsonTree,
) -> bool {
    step == Some(
        StepView {
            phase: PhaseView::Reply(opcode),
            effects,
            request: RequestView::Send(frame(json_text(command_tree(reply, document)))),
        },
    )
}

/// The session is ready for the next command.
pub open spec fn ready(step: Option<StepView>, effects: Seq<EffectView>) -> bool {
    step == Some(StepView { phase: PhaseView::Idle, effects, request: RequestView::Poll })
}

/// Once an answer was sent the session is ready; where it could not be sent, that is reported.
pub proof fn law_session_is_ready_after_an_answer(
    client: SmartDeviceClient,
    opcode: Opcode,
    cause: Seq<char>,
)
    ensures
        ready(client.next(PhaseView::Reply(opcode), EventView::Sent), seq![]),
        ready(
            client.next(PhaseView::Reply(opcode), EventView::Failed(cause)),
            client.handling_alarm(opcode, cause),
        ),
{
}

/// The operations that only wait to be acknowledged are answered with an empty object, whatever
/// their document; and a file segment with the length 0.
pub proof fn law_acknowledged_operations(client: SmartDeviceClient, message: JsonTree)
    ensures
        forall|opcode: Opcode|
            opcode == Opcode::SetLibraryInfo || opcode == Opcode::DeleteBook || opcode
                == Opcode::DisplayMessage || opcode == Opcode::SetCalibreDeviceName ==> answered(
                Some(#[trigger] client.dispatched(opcode, message)),
                opcode,
                client.announcement(opcode, message),
                Opcode::OK,
                JsonTree::Object(Map::empty()),
            ),
        answered(
            Some(client.dispatched(Opcode::GetBookFileSegment, message)),
            Opcode::GetBookFileSegment,
            client.announcement(Opcode::GetBookFileSegment, message),
            Opcode::OK,
            JsonTree::Object(
                Map::empty().insert("fileLength"@, JsonTree::Number(NumberValue::Int(0))),
            ),
        ),
{
}

/// The operations that are not answered leave the session ready, whatever their document.
pub proof fn law_unanswered_operations(client: SmartDeviceClient, message: JsonTree)
    ensures
        forall|opcode: Opcode|
            opcode == Opcode::CalibreBusy || opcode == Opcode::GetBookMetadata || opcode
                == Opcode::SendBooklists || opcode == Opcode::SendBookMetadata || opcode
                == Opcode::OK || opcode == Opcode::BookDone || opcode == Opcode::Error ==> ready(
                Some(#[trigger] client.dispatched(opcode, message)),
                client.announcement(opcode, message),
            ),
{
}

/// A message without an operation: one with an entry for ejecting is passed on to the main thread
/// and answered; one that only counts is not answered; every other is answered.
pub proof fn law_noop(client: SmartDeviceClient, entries: Map<Seq<char>, JsonTree>, other: JsonTree)
    requires
        !(other is Object),
    ensures
        ({
            let message = JsonTree::Object(entries);
            let step = Some(client.dispatched(Opcode::NOOP, message));
            let shown = client.announcement(Opcode::NOOP, message);
            if entries.dom().contains("ejecting"@) {
                answered(
                    step,
                    Opcode::NOOP,
                    shown.push(EffectView::Tell(Message::Exit)),
                    Opcode::OK,
                    JsonTree::Object(Map::empty()),
                )
            } else if entries.dom().contains("count"@) {
                ready(step, shown)
            } else {
                answered(step, Opcode::NOOP, shown, Opcode::OK, JsonTree::Object(Map::empty()))
            }
        }),
        answered(
            Some(client.dispatched(Opcode::NOOP, other)),
            Opcode::NOOP,
            client.announcement(Opcode::NOOP, other),
            Opcode::OK,
            JsonTree::Object(Map::empty()),
        ),
{
}

/// The free and the whole space are asked for where the books are, and told in bytes: blocks times
/// the size of a block. Where the volume cannot be asked, calibre is told so; of more bytes than a
/// `u64` holds nothing is said.
pub proof fn law_space_is_told_in_bytes(
    client: SmartDeviceClient,
    message: JsonTree,
    stats: VolumeStats,
)
    ensures
        ({
            let step = client.dispatched(Opcode::FreeSpace, message);
            let bytes = stats.blocks_available * stats.fragment_size;
            &&& step.effects == client.announcement(Opcode::FreeSpace, message)
            &&& step.request == RequestView::Volume(client.save_path@)
            &&& bytes <= u64::MAX ==> answered(
                client.next(step.phase, EventView::Volume(Some(stats))),
                Opcode::FreeSpace,
                seq![],
                Opcode::OK,
                JsonTree::Object(
                    Map::empty().insert(
                        "free_space_on_device"@,
                        JsonTree::Number(NumberValue::Int(bytes)),
                    ),
                ),
            )
            &&& bytes > u64::MAX ==> client.next(step.phase, EventView::Volume(Some(stats))) is None
            &&& answered(
                client.next(step.phase, EventView::Volume(None)),
                Opcode::FreeSpace,
                seq![],
                Opcode::Error,
                JsonTree::Object(
                    Map::empty().insert(
                        "message"@,
                        JsonTree::String("Unable to get size information"@),
                    ),
                ),
            )
        }),
        ({
            let step = client.dispatched(Opcode::TotalSpace, message);
            let bytes = stats.blocks * stats.fragment_size;
            &&& step.effects == client.announcement(Opcode::TotalSpace, message)
            &&& step.request == RequestView::Volume(client.save_path@)
            &&& bytes <= u64::MAX ==> answered(
                client.next(step.phase, EventView::Volume(Some(stats))),
                Opcode::TotalSpace,
                seq![],
                Opcode::OK,
                JsonTree::Object(
                    Map::empty().insert(
                        "total_space_on_device"@,
                        JsonTree::Number(NumberValue::Int(bytes)),
                    ),
                ),
            )
            &&& bytes > u64::MAX ==> client.next(step.phase, EventView::Volume(Some(stats))) is None
            &&& answered(
                client.next(step.phase, EventView::Volume(None)),
                Opcode::TotalSpace,
                seq![],
                Opcode::Error,
                JsonTree::Object(
                    Map::empty().insert(
                        "message"@,
                        JsonTree::String("Unable to get size information"@),
                    ),
                ),
            )
        }),
{
}

/// The books are searched for where they are stored, all of them; a search without an outcome is
/// told as no books, and a list that cannot be sent on is reported.
pub proof fn law_books_are_searched_for(
    client: SmartDeviceClient,
    message: JsonTree,
    frames: Seq<Seq<u8>>,
    cause: Seq<char>,
)
    ensures
        ({
            let step = client.dispatched(Opcode::GetBookCount, message);
            &&& step.effects == client.announcement(Opcode::GetBookCount, message)
            &&& step.request == RequestView::Search { path: client.save_path@, query: seq![] }
            &&& answered(
                client.next(step.phase, EventView::Books(None)),
                Opcode::GetBookCount,
                seq![],
                Opcode::OK,
                JsonTree::Object(
                    Map::empty().insert("willStream"@, JsonTree::Bool(true)).insert(
                        "willScan"@,
                        JsonTree::Bool(true),
                    ).insert("count"@, JsonTree::Number(NumberValue::Int(0))),
                ),
            )
        }),
        ready(
            client.next(PhaseView::BookStream(frames), EventView::Failed(cause)),
            client.handling_alarm(Opcode::GetBookCount, "Other: "@ + cause),
        ),
{
    assert(Seq::<EffectView>::empty() + client.handling_alarm(
        Opcode::GetBookCount,
        "Other: "@ + cause,
    ) =~= client.handling_alarm(Opcode::GetBookCount, "Other: "@ + cause));
}

/// The frames for books that were found: the first announces exactly as many as follow, and each
/// of those tells the path, the size, the title, the authors and the time of its book.
pub proof fn law_book_frames_tell_the_books(client: SmartDeviceClient, books: Seq<Info>)
    ensures
        client.next(
            client.dispatched(Opcode::GetBookCount, JsonTree::Null).phase,
            EventView::Books(Some(books)),
        ) == Some(
            StepView {
                phase: PhaseView::BookStream(book_frames(books).skip(1)),
                effects: seq![],
                request: RequestView::Send(book_frames(books)[0]),
            },
        ),
        book_frames(books).len() == books.len() + 1,
        book_frames(books)[0] == frame(
            json_text(
                command_tree(
                    Opcode::OK,
                    JsonTree::Object(
                        Map::empty().insert("willStream"@, JsonTree::Bool(true)).insert(
                            "willScan"@,
                            JsonTree::Bool(true),
                        ).insert(
                            "count"@,
                            JsonTree::Number(NumberValue::Int(books.len() as int)),
                        ),
                    ),
                ),
            ),
        ),
        forall|i: int|
            0 <= i < books.len() ==> #[trigger] book_frames(books)[i + 1] == frame(
                json_text(
                    command_tree(
                        Opcode::OK,
                        JsonTree::Object(
                            Map::empty().insert(
                                "lpath"@,
                                JsonTree::String(books[i].file.path@),
                            ).insert(
                                "size"@,
                                JsonTree::Number(NumberValue::Int(books[i].file.size as int)),
                            ).insert("title"@, JsonTree::String(books[i].title@)).insert(
                                "authors"@,
                                JsonTree::String(
                                    crate::text::without(books[i].author@, seq![',', ' ']),
                                ),
                            ).insert(
                                "last_modified"@,
                                JsonTree::String(
                                    crate::bindings::time_text(
                                        books[i].added.secs_spec(),
                                        books[i].added.nanos_spec(),
                                    )->0,
                                ),
                            ),
                        ),
                    ),
                ),
            ),
{
    reveal_strlit(", ");
    assert(", "@ =~= seq![',', ' ']);
    assert(book_frames(books).drop_first() =~= book_frames(books).skip(1));
}

/// The file with calibre's record of the device is read where the books are; without such a file
/// calibre is told the client's own name and version.
pub proof fn law_device_without_a_record(client: SmartDeviceClient, message: JsonTree)
    ensures
        ({
            let step = client.dispatched(Opcode::GetDeviceInformation, message);
            let own = JsonTree::String(NAME@ + " ("@ + VERSION@ + ")"@);
            &&& step.effects == client.announcement(Opcode::GetDeviceInformation, message)
            &&& step.request == RequestView::ReadFile(
                joined(client.save_path@, ".driveinfo.calibre"@),
            )
            &&& answered(
                client.next(step.phase, EventView::Contents(None)),
                Opcode::GetDeviceInformation,
                seq![],
                Opcode::OK,
                JsonTree::Object(
                    Map::empty().insert(
                        "device_info"@,
                        JsonTree::Object(Map::empty().insert("device_name"@, own)),
                    ).insert("version"@, JsonTree::String(VERSION@)).insert(
                        "device_version"@,
                        JsonTree::String(VERSION@),
                    ),
                ),
            )
        }),
{
}

/// Whatever document the file with calibre's record of the device holds, calibre is told its own
/// identifier out of it, null where it has none, and beside it the client's own name and version
/// and nothing else of the record.
pub proof fn law_device_with_a_record(
    client: SmartDeviceClient,
    message: JsonTree,
    contents: Seq<u8>,
    record: JsonTree,
)
    requires
        json_read(contents) is Ok,
        json_read(contents)->Ok_0 == record,
    ensures
        ({
            let step = client.dispatched(Opcode::GetDeviceInformation, message);
            let own = JsonTree::String(NAME@ + " ("@ + VERSION@ + ")"@);
            let uuid = match record {
                JsonTree::Object(entries) => if entries.dom().contains("device_store_uuid"@) {
                    entries["device_store_uuid"@]
                } else {
                    JsonTree::Null
                },
                _ => JsonTree::Null,
            };
            answered(
                client.next(step.phase, EventView::Contents(Some(contents))),
                Opcode::GetDeviceInformation,
                seq![],
                Opcode::OK,
                JsonTree::Object(
                    Map::empty().insert(
                        "device_info"@,
                        JsonTree::Object(
                            Map::empty().insert("device_store_uuid"@, uuid).insert(
                                "device_name"@,
                                own,
                            ),
                        ),
                    ).insert("version"@, JsonTree::String(VERSION@)).insert(
                        "device_version"@,
                        JsonTree::String(VERSION@),
                    ),
                ),
            )
        }),
{
}

/// A record of the device that is no JSON, or cannot be read, is reported with its cause.
pub proof fn law_unreadable_record_is_reported(
    client: SmartDeviceClient,
    contents: Seq<u8>,
    cause: Seq<char>,
)
    ensures
        json_read(contents) is Err ==> ready(
            client.next(PhaseView::DriveInfo, EventView::Contents(Some(contents))),
            client.handling_alarm(
                Opcode::GetDeviceInformation,
                "JSON!: "@ + json_read(contents)->Err_0,
            ),
        ),
        ready(
            client.next(PhaseView::DriveInfo, EventView::Malformed(cause)),
            client.handling_alarm(Opcode::GetDeviceInformation, "JSON!: "@ + cause),
        ),
        ready(
            client.next(PhaseView::DriveInfo, EventView::Failed(cause)),
            client.handling_alarm(Opcode::GetDeviceInformation, "Files!: "@ + cause),
        ),
{
    let none = Seq::<EffectView>::empty();
    let opcode = Opcode::GetDeviceInformation;
    assert forall|text: Seq<char>| none + #[trigger] client.handling_alarm(opcode, text)
        == client.handling_alarm(opcode, text) by {
        assert(none + client.handling_alarm(opcode, text) =~= client.handling_alarm(opcode, text));
    }
}

/// Calibre's record of the device is written whole, as JSON, where it is read again; calibre is
/// answered when it was written, and a failure is reported.
pub proof fn law_record_is_written_whole(
    client: SmartDeviceClient,
    message: JsonTree,
    size: u64,
    cause: Seq<char>,
)
    ensures
        ({
            let step = client.dispatched(Opcode::SetCalibreDeviceInfo, message);
            &&& step.effects == client.announcement(Opcode::SetCalibreDeviceInfo, message)
            &&& step.request == (RequestView::WriteFile {
                path: joined(client.save_path@, ".driveinfo.calibre"@),
                contents: encode_utf8(json_text(message)),
            })
            &&& answered(
                client.next(step.phase, EventView::Stored(size)),
                Opcode::SetCalibreDeviceInfo,
                seq![],
                Opcode::OK,
                JsonTree::Object(Map::empty()),
            )
            &&& ready(
                client.next(step.phase, EventView::Failed(cause)),
                client.handling_alarm(Opcode::SetCalibreDeviceInfo, "Files!: "@ + cause),
            )
        }),
{
    let alarm = client.handling_alarm(Opcode::SetCalibreDeviceInfo, "Files!: "@ + cause);
    assert(Seq::<EffectView>::empty() + alarm =~= alarm);
}

/// A challenge is answered with the digest of the whole password and the whole challenge, one
/// behind the other, in hexadecimal notation; without a password, or without a challenge that is a
/// text, with nothing.
pub proof fn law_challenge_is_answered(
    client: SmartDeviceClient,
    message: JsonTree,
    challenge: Seq<char>,
)
    ensures
        ({
            let step = client.dispatched(Opcode::GetInitializationInfo, message);
            let asked = message.field("passwordChallenge"@) == Some(JsonTree::String(challenge));
            let unasked = !(message.field("passwordChallenge"@) matches Some(value)
                && value is String);
            let digest = sha1_digest(
                encode_utf8(client.password->0@) + encode_utf8(challenge),
            );
            &&& initialization_info(hex_text(digest)).field("passwordHash"@) == Some(
                JsonTree::String(hex_text(digest)),
            )
            &&& initialization_info(seq![]).field("passwordHash"@) == Some(
                JsonTree::String(seq![]),
            )
            &&& client.password is Some && asked ==> answered(
                Some(step),
                Opcode::GetInitializationInfo,
                client.announcement(Opcode::GetInitializationInfo, message),
                Opcode::OK,
                initialization_info(hex_text(digest)),
            )
            &&& client.password is None || unasked ==> answered(
                Some(step),
                Opcode::GetInitializationInfo,
                client.announcement(Opcode::GetInitializationInfo, message),
                Opcode::OK,
                initialization_info(seq![]),
            )
        }),
{
    law_client_tells_about_itself(seq![]);
    law_client_tells_about_itself(
        hex_text(sha1_digest(encode_utf8(client.password->0@) + encode_utf8(challenge))),
    );
}

/// A book is read with exactly as many bytes as the message announces, once its description is
/// understood; the description is the whole one in the message, null where it has none.
pub proof fn law_book_is_read_with_its_announced_length(
    client: SmartDeviceClient,
    message: JsonTree,
    metadata: Metadata,
    length: int,
)
    requires
        0 <= length <= u64::MAX,
        message.field("length"@) == Some(JsonTree::Number(NumberValue::Int(length))),
    ensures
        ({
            let step = client.dispatched(Opcode::SendBook, message);
            let described = client.next(step.phase, EventView::Described(metadata));
            &&& step.effects == client.announcement(Opcode::SendBook, message)
            &&& step.request == RequestView::Describe(
                json_text(
                    match message.field("metadata"@) {
                        Some(description) => description,
                        None => JsonTree::Null,
                    },
                ),
            )
            &&& described is Some
            &&& described->0.effects.len() == 0
            &&& described->0.request == RequestView::ReadExact(length as u64)
        }),
{
}

/// A book without a length that is an integer in the range of `u64` is refused.
pub proof fn law_book_without_a_length_is_refused(client: SmartDeviceClient, message: JsonTree)
    requires
        !(message.field("length"@) matches Some(JsonTree::Number(NumberValue::Int(length))) && 0
            <= length <= u64::MAX),
    ensures
        answered(
            Some(client.dispatched(Opcode::SendBook, message)),
            Opcode::SendBook,
            client.announcement(Opcode::SendBook, message),
            Opcode::Error,
            JsonTree::Object(
                Map::empty().insert(
                    "message"@,
                    JsonTree::String("You didn't send me a length!"@),
                ),
            ),
        ),
{
}

/// The bytes of a book are written as they came in to the path in the message, taken from where
/// the books are; a book without such a path is refused.
pub proof fn law_book_is_written_where_calibre_wants_it(
    client: SmartDeviceClient,
    message: JsonTree,
    metadata: Metadata,
    length: int,
    lpath: Seq<char>,
    book: Seq<u8>,
)
    requires
        0 <= length <= u64::MAX,
        message.field("length"@) == Some(JsonTree::Number(NumberValue::Int(length))),
    ensures
        ({
            let step = client.dispatched(Opcode::SendBook, message);
            let described = client.next(step.phase, EventView::Described(metadata))->0;
            let received = client.next(described.phase, EventView::Bytes(book));
            let path = joined(client.save_path@, lpath);
            &&& message.field("lpath"@) == Some(JsonTree::String(lpath)) ==> received == Some(
                StepView {
                    phase: PhaseView::BookFile { path, metadata },
                    effects: seq![],
                    request: RequestView::WriteFile { path, contents: book },
                },
            )
            &&& !(message.field("lpath"@) matches Some(value) && value is String) ==> answered(
                received,
                Opcode::SendBook,
                seq![],
                Opcode::Error,
                JsonTree::Object(
                    Map::empty().insert("message"@, JsonTree::String("Bad or missing lpath"@)),
                ),
            )
        }),
{
}

/// A book that was written is added to the library with what calibre told about it, if it is in
/// the library; otherwise nothing is done. Calibre is not answered.
pub proof fn law_written_book_is_added(
    client: SmartDeviceClient,
    path: Seq<char>,
    metadata: Metadata,
    size: u64,
)
    ensures
        ready(
            client.next(PhaseView::BookFile { path, metadata }, EventView::Stored(size)),
            match below(path, client.library_path@) {
                None => seq![],
                Some(relative) => seq![
                    EffectView::AddDocument(
                        InfoView {
                            title: metadata.title@,
                            identifier: metadata.uuid@,
                            author: joined_with(
                                owned_texts(metadata.authors@),
                                seq![',', ' '],
                            ),
                            path: relative,
                            kind: seq!['e', 'p', 'u', 'b'],
                            size,
                            added: metadata.last_modified,
                        },
                    ),
                ],
            },
        ),
{
    reveal_strlit(", ");
    reveal_strlit("epub");
    assert(", "@ =~= seq![',', ' ']);
    assert("epub"@ =~= seq!['e', 'p', 'u', 'b']);
}

/// A book whose description is malformed, that does not come in whole, or that cannot be written
/// is reported with the cause.
pub proof fn law_failed_book_is_reported(
    client: SmartDeviceClient,
    length: u64,
    lpath: Option<Seq<char>>,
    path: Seq<char>,
    metadata: Metadata,
    cause: Seq<char>,
)
    ensures
        ready(
            client.next(PhaseView::BookMetadata { length, lpath }, EventView::Malformed(cause)),
            client.handling_alarm(Opcode::SendBook, "JSON!: "@ + cause),
        ),
        ready(
            client.next(PhaseView::BookBody { lpath, metadata }, EventView::Failed(cause)),
            client.handling_alarm(Opcode::SendBook, "Other: "@ + cause),
        ),
        ready(
            client.next(PhaseView::BookFile { path, metadata }, EventView::Failed(cause)),
            client.handling_alarm(Opcode::SendBook, "Files!: "@ + cause),
        ),
{
    let none = Seq::<EffectView>::empty();
    let opcode = Opcode::SendBook;
    assert forall|text: Seq<char>| none + #[trigger] client.handling_alarm(opcode, text)
        == client.handling_alarm(opcode, text) by {
        assert(none + client.handling_alarm(opcode, text) =~= client.handling_alarm(opcode, text));
    }
}

/// What comes of a command is told to calibre, or reported, behind what was done before.
pub proof fn law_outcomes_are_told(
    client: SmartDeviceClient,
    opcode: Opcode,
    reply: JsonTree,
    cause: Seq<char>,
    effects: Seq<EffectView>,
)
    ensures
        answered(
            Some(client.concluded(opcode, Ok(Some(reply)), effects)),
            opcode,
            effects,
            Opcode::OK,
            reply,
        ),
        ready(Some(client.concluded(opcode, Ok(None), effects)), effects),
        answered(
            Some(client.concluded(opcode, Err(ClientErrorView::ProtocolError(reply)), effects)),
            opcode,
            effects,
            Opcode::Error,
            reply,
        ),
        ready(
            Some(client.concluded(opcode, Err(ClientErrorView::File(cause)), effects)),
            effects + client.handling_alarm(opcode, "Files!: "@ + cause),
        ),
        ready(
            Some(client.concluded(opcode, Err(ClientErrorView::Json(cause)), effects)),
            effects + client.handling_alarm(opcode, "JSON!: "@ + cause),
        ),
        ready(
            Some(client.concluded(opcode, Err(ClientErrorView::Other(cause)), effects)),
            effects + client.handling_alarm(opcode, "Other: "@ + cause),
        ),
        ready(
            Some(client.concluded(opcode, Err(ClientErrorView::ApplicationError(cause)), effects)),
            effects + client.handling_alarm(opcode, "An error occured doing our own thing"@),
        ),
{
}

/// Whatever stands in front of a bracket decides how much is read: as much as the length there says,
/// less the bracket. A length of 0 has no next step, and what is no length ends the session.
pub proof fn law_length_decides_how_much_is_read(client: SmartDeviceClient, prefix: Seq<u8>)
    ensures
        match announced_length(prefix) {
            Ok(length) => {
                &&& length == 0 ==> client.next(
                    PhaseView::Prefix(prefix),
                    EventView::Byte(91),
                ) is None
                &&& length > 0 ==> client.next(PhaseView::Prefix(prefix), EventView::Byte(91))
                    == Some(
                    StepView {
                        phase: PhaseView::Body((length - 1) as u64),
                        effects: seq![],
                        request: RequestView::ReadExact((length - 1) as u64),
                    },
                )
            },
            Err(error) => reading_ended(
                client.next(PhaseView::Prefix(prefix), EventView::Byte(91)),
                error.report(),
            ),
        },
{
    if let Err(error) = announced_length(prefix) {
        lemma_read_failed(client, error);
    }
}

} // verus!
