//! The session with calibre, as a machine: each step takes what came of the last request and
//! gives what is to be done and asked for next.
use crate::bindings::json_text;
use crate::error::{ClientError, ClientErrorView, ReadError, ReadErrorView};
use crate::json::{Json, JsonTree};
use crate::message::Message;
use crate::metadata::Metadata;
use crate::path::joined;
use crate::smart_device_client::{
    announced_book, book_count, book_stream, challenge_in, complaint, device_outcome, empty_object,
    entry, free_space_outcome, initialization_info, integer, noop_outcome, outcome_view,
    password_hash, stored_book, total_space_outcome, trees, BookRequest, Outcome, OutcomeView,
    SmartDeviceClient, VolumeStats,
};
use crate::text::{optional_text, texts};
use crate::types::{Info, InfoView};
use crate::wire::{
    announced_length, command_in_bytes, command_tree, decode_message, encode_command, frame,
    message_length, Opcode, BRACKET,
};
use vstd::prelude::*;
use vstd::utf8::encode_utf8;

verus! {

/// Where the session stands: what it waits for, and what it has to remember until then.
#[derive(Debug, PartialEq)]
pub enum Phase {
    /// Between two commands.
    Idle,
    /// The bytes of the length that have come in.
    Prefix(Vec<u8>),
    /// So many bytes of the message are still to come.
    Body(u64),
    FreeSpace,
    TotalSpace,
    BookSearch,
    /// What is still to be sent about the books.
    BookStream(Vec<Vec<u8>>),
    DriveInfo,
    BookMetadata { length: u64, lpath: Option<String> },
    BookBody { lpath: Option<String>, metadata: Metadata },
    BookFile { path: String, metadata: Metadata },
    DriveInfoFile,
    /// An answer to a command with this operation is on its way.
    Reply(Opcode),
    Finished,
}

/// [`Phase`] as a mathematical value.
pub enum PhaseView {
    Idle,
    Prefix(Seq<u8>),
    Body(u64),
    FreeSpace,
    TotalSpace,
    BookSearch,
    BookStream(Seq<Seq<u8>>),
    DriveInfo,
    BookMetadata { length: u64, lpath: Option<Seq<char>> },
    BookBody { lpath: Option<Seq<char>>, metadata: Metadata },
    BookFile { path: Seq<char>, metadata: Metadata },
    DriveInfoFile,
    Reply(Opcode),
    Finished,
}

/// The bytes in some lists of bytes.
pub open spec fn byte_lists(lists: Seq<Vec<u8>>) -> Seq<Seq<u8>> {
    lists.map_values(|list: Vec<u8>| list@)
}

impl View for Phase {
    type V = PhaseView;

    open spec fn view(&self) -> PhaseView {
        match self {
            Phase::Idle => PhaseView::Idle,
            Phase::Prefix(bytes) => PhaseView::Prefix(bytes@),
            Phase::Body(length) => PhaseView::Body(*length),
            Phase::FreeSpace => PhaseView::FreeSpace,
            Phase::TotalSpace => PhaseView::TotalSpace,
            Phase::BookSearch => PhaseView::BookSearch,
            Phase::BookStream(frames) => PhaseView::BookStream(byte_lists(frames@)),
            Phase::DriveInfo => PhaseView::DriveInfo,
            Phase::BookMetadata { length, lpath } => PhaseView::BookMetadata {
                length: *length,
                lpath: optional_text(*lpath),
            },
            Phase::BookBody { lpath, metadata } => PhaseView::BookBody {
                lpath: optional_text(*lpath),
                metadata: *metadata,
            },
            Phase::BookFile { path, metadata } => PhaseView::BookFile {
                path: path@,
                metadata: *metadata,
            },
            Phase::DriveInfoFile => PhaseView::DriveInfoFile,
            Phase::Reply(opcode) => PhaseView::Reply(*opcode),
            Phase::Finished => PhaseView::Finished,
        }
    }
}

/// What came of a request.
#[derive(Debug, PartialEq)]
pub enum Event {
    /// The session may go on.
    Continue,
    /// The session is to end.
    Stop,
    Byte(u8),
    Bytes(Vec<u8>),
    /// The bytes were sent.
    Sent,
    /// The sizes of the volume, if they could be had.
    Volume(Option<VolumeStats>),
    /// The books, if the search gave an answer.
    Books(Option<Vec<Info>>),
    /// The contents of the file, if it exists.
    Contents(Option<Vec<u8>>),
    Described(Metadata),
    /// The file was written; with its size.
    Stored(u64),
    /// What was asked for is not the JSON document that it should be; with the cause.
    Malformed(String),
    /// The request failed; with the cause.
    Failed(String),
}

/// [`Event`] as a mathematical value.
pub enum EventView {
    Continue,
    Stop,
    Byte(u8),
    Bytes(Seq<u8>),
    Sent,
    Volume(Option<VolumeStats>),
    Books(Option<Seq<Info>>),
    Contents(Option<Seq<u8>>),
    Described(Metadata),
    Stored(u64),
    Malformed(Seq<char>),
    Failed(Seq<char>),
}

impl View for Event {
    type V = EventView;

    open spec fn view(&self) -> EventView {
        match self {
            Event::Continue => EventView::Continue,
            Event::Stop => EventView::Stop,
            Event::Byte(byte) => EventView::Byte(*byte),
            Event::Bytes(bytes) => EventView::Bytes(bytes@),
            Event::Sent => EventView::Sent,
            Event::Volume(volume) => EventView::Volume(*volume),
            Event::Books(Some(books)) => EventView::Books(Some(books@)),
            Event::Books(None) => EventView::Books(None),
            Event::Contents(Some(bytes)) => EventView::Contents(Some(bytes@)),
            Event::Contents(None) => EventView::Contents(None),
            Event::Described(metadata) => EventView::Described(*metadata),
            Event::Stored(size) => EventView::Stored(*size),
            Event::Malformed(cause) => EventView::Malformed(cause@),
            Event::Failed(cause) => EventView::Failed(cause@),
        }
    }
}

/// What the session asks for.
#[derive(Debug, PartialEq)]
pub enum Request {
    /// Whether the session is to go on.
    Poll,
    ReadByte,
    ReadExact(u64),
    Send(Vec<u8>),
    /// The sizes of the volume with this directory.
    Volume(String),
    /// The books in a directory that match a query.
    Search { path: String, query: String },
    /// The contents of a file.
    ReadFile(String),
    /// The description of a book that this document is.
    Describe(String),
    WriteFile { path: String, contents: Vec<u8> },
    /// Nothing any more.
    Nothing,
}

/// [`Request`] as a mathematical value.
pub enum RequestView {
    Poll,
    ReadByte,
    ReadExact(u64),
    Send(Seq<u8>),
    Volume(Seq<char>),
    Search { path: Seq<char>, query: Seq<char> },
    ReadFile(Seq<char>),
    Describe(Seq<char>),
    WriteFile { path: Seq<char>, contents: Seq<u8> },
    Nothing,
}

impl View for Request {
    type V = RequestView;

    open spec fn view(&self) -> RequestView {
        match self {
            Request::Poll => RequestView::Poll,
            Request::ReadByte => RequestView::ReadByte,
            Request::ReadExact(length) => RequestView::ReadExact(*length),
            Request::Send(bytes) => RequestView::Send(bytes@),
            Request::Volume(path) => RequestView::Volume(path@),
            Request::Search { path, query } => RequestView::Search { path: path@, query: query@ },
            Request::ReadFile(path) => RequestView::ReadFile(path@),
            Request::Describe(text) => RequestView::Describe(text@),
            Request::WriteFile { path, contents } => RequestView::WriteFile {
                path: path@,
                contents: contents@,
            },
            Request::Nothing => RequestView::Nothing,
        }
    }
}

/// What the session does without waiting for anything.
#[derive(Debug, PartialEq)]
pub enum Effect {
    /// Shows the user a message.
    Notify(String),
    /// Writes a line to the error output.
    Warn(String),
    /// Tells the main thread.
    Tell(Message),
    /// Adds a document to the library.
    AddDocument(Info),
}

/// [`Effect`] as a mathematical value.
pub enum EffectView {
    Notify(Seq<char>),
    Warn(Seq<char>),
    Tell(Message),
    AddDocument(InfoView),
}

impl View for Effect {
    type V = EffectView;

    open spec fn view(&self) -> EffectView {
        match self {
            Effect::Notify(text) => EffectView::Notify(text@),
            Effect::Warn(text) => EffectView::Warn(text@),
            Effect::Tell(message) => EffectView::Tell(*message),
            Effect::AddDocument(info) => EffectView::AddDocument(info@),
        }
    }
}

/// Some effects as mathematical values.
pub open spec fn effect_views(effects: Seq<Effect>) -> Seq<EffectView> {
    effects.map_values(|effect: Effect| effect@)
}

/// What a step comes to.
#[derive(Debug, PartialEq)]
pub struct Step {
    pub phase: Phase,
    pub effects: Vec<Effect>,
    pub request: Request,
}

/// [`Step`] as a mathematical value.
pub struct StepView {
    pub phase: PhaseView,
    pub effects: Seq<EffectView>,
    pub request: RequestView,
}

impl View for Step {
    type V = StepView;

    open spec fn view(&self) -> StepView {
        StepView {
            phase: self.phase@,
            effects: effect_views(self.effects@),
            request: self.request@,
        }
    }
}

/// [`Step`], where there is one, as a mathematical value.
pub open spec fn step_view(step: Option<Step>) -> Option<StepView> {
    match step {
        Some(step) => Some(step@),
        None => None,
    }
}

/// The name under which a command appears among the messages of the client.
pub open spec fn label(opcode: Opcode) -> Option<Seq<char>> {
    match opcode {
        Opcode::NOOP => Some("NOOP"@),
        Opcode::CalibreBusy => Some("CALIBRE_BUSY"@),
        Opcode::SetLibraryInfo => Some("SET_LIBRARY_INFO"@),
        Opcode::DeleteBook => Some("DELETE_BOOK"@),
        Opcode::DisplayMessage => Some("DISPLAY_MESSAGE"@),
        Opcode::FreeSpace => Some("FREE_SPACE"@),
        Opcode::GetBookFileSegment => Some("GET_BOOK_FILE_SEGMENT"@),
        Opcode::GetBookMetadata => Some("GET_BOOK_METADATA"@),
        Opcode::GetBookCount => Some("GET_BOOK_COUNT"@),
        Opcode::GetDeviceInformation => Some("GET_DEVICE_INFORMATION"@),
        Opcode::GetInitializationInfo => Some("GET_INITIALIZATION_INFO"@),
        Opcode::SendBooklists => Some("SEND_BOOKLISTS"@),
        Opcode::SendBook => Some("SEND_BOOK"@),
        Opcode::SendBookMetadata => Some("SEND_BOOK_METADATA"@),
        Opcode::SetCalibreDeviceInfo => Some("SET_CALIBRE_DEVICE_INFO"@),
        Opcode::SetCalibreDeviceName => Some("SET_CALIBRE_DEVICE_NAME"@),
        Opcode::TotalSpace => Some("TOTAL_SPACE"@),
        Opcode::OK => None,
        Opcode::BookDone => None,
        Opcode::Error => None,
    }
}

/// The name under which a command appears among the messages of the client.
fn label_of(opcode: Opcode) -> (result: Option<&'static str>)
    ensures
        match result {
            Some(text) => label(opcode) == Some(text@),
            None => label(opcode) is None,
        },
{
    match opcode {
        Opcode::NOOP => Some("NOOP"),
        Opcode::CalibreBusy => Some("CALIBRE_BUSY"),
        Opcode::SetLibraryInfo => Some("SET_LIBRARY_INFO"),
        Opcode::DeleteBook => Some("DELETE_BOOK"),
        Opcode::DisplayMessage => Some("DISPLAY_MESSAGE"),
        Opcode::FreeSpace => Some("FREE_SPACE"),
        Opcode::GetBookFileSegment => Some("GET_BOOK_FILE_SEGMENT"),
        Opcode::GetBookMetadata => Some("GET_BOOK_METADATA"),
        Opcode::GetBookCount => Some("GET_BOOK_COUNT"),
        Opcode::GetDeviceInformation => Some("GET_DEVICE_INFORMATION"),
        Opcode::GetInitializationInfo => Some("GET_INITIALIZATION_INFO"),
        Opcode::SendBooklists => Some("SEND_BOOKLISTS"),
        Opcode::SendBook => Some("SEND_BOOK"),
        Opcode::SendBookMetadata => Some("SEND_BOOK_METADATA"),
        Opcode::SetCalibreDeviceInfo => Some("SET_CALIBRE_DEVICE_INFO"),
        Opcode::SetCalibreDeviceName => Some("SET_CALIBRE_DEVICE_NAME"),
        Opcode::TotalSpace => Some("TOTAL_SPACE"),
        Opcode::OK => None,
        Opcode::BookDone => None,
        Opcode::Error => None,
    }
}

/// The notification for a message, if it is shown.
pub open spec fn notification(shown: Option<Seq<char>>) -> Seq<EffectView> {
    match shown {
        Some(text) => seq![EffectView::Notify(text)],
        None => seq![],
    }
}

/// Between two commands, after some effects.
pub open spec fn idle(effects: Seq<EffectView>) -> StepView {
    StepView { phase: PhaseView::Idle, effects, request: RequestView::Poll }
}

/// An answer on its way, after some effects.
pub open spec fn replying(
    opcode: Opcode,
    reply: Opcode,
    message: JsonTree,
    effects: Seq<EffectView>,
) -> StepView {
    StepView {
        phase: PhaseView::Reply(opcode),
        effects,
        request: RequestView::Send(frame(json_text(command_tree(reply, message)))),
    }
}

impl SmartDeviceClient {
    /// What is shown of an incoming command.
    pub open spec fn announcement(self, opcode: Opcode, message: JsonTree) -> Seq<EffectView> {
        match label(opcode) {
            Some(name) => notification(
                self.logger.shown(seq![name, json_text(message)], crate::logger::DEBUG),
            ),
            None => seq![],
        }
    }

    /// What is done about an error: a line to the error output, and a message to the user.
    pub open spec fn alarm(self, line: Seq<char>, cause: Seq<char>) -> Seq<EffectView> {
        seq![EffectView::Warn(line)] + notification(
            self.logger.shown(
                seq!["Error communicating with calibre... "@ + cause],
                crate::logger::ERROR,
            ),
        )
    }

    /// What is done when a command could not be carried out.
    pub open spec fn handling_alarm(self, opcode: Opcode, cause: Seq<char>) -> Seq<EffectView> {
        self.alarm("Error handling "@ + opcode.name_spec() + ": "@ + cause + "."@, cause)
    }

    /// The step after a command could not be read: the main thread is told that the session is
    /// over.
    pub open spec fn read_failed(self, error: ReadErrorView) -> StepView {
        let cause = error.report();
        idle(
            self.alarm("Error reading command "@ + cause + "."@, cause).push(
                EffectView::Tell(Message::Exit),
            ),
        )
    }

    /// The step after a command was carried out: its outcome is sent to calibre where it is an
    /// answer or a protocol error, and reported where it is another error.
    pub open spec fn concluded(
        self,
        opcode: Opcode,
        outcome: OutcomeView,
        effects: Seq<EffectView>,
    ) -> StepView {
        match outcome {
            Ok(Some(reply)) => replying(opcode, Opcode::OK, reply, effects),
            Ok(None) => idle(effects),
            Err(ClientErrorView::ProtocolError(reply)) => replying(
                opcode,
                Opcode::Error,
                reply,
                effects,
            ),
            Err(error) => idle(effects + self.handling_alarm(opcode, error.report())),
        }
    }
}

/// A request without effects.
pub open spec fn asking(phase: PhaseView, request: RequestView) -> StepView {
    StepView { phase, effects: seq![], request }
}

/// The frames for the books that were found.
pub open spec fn book_frames(books: Seq<Info>) -> Seq<Seq<u8>> {
    book_stream(books).map_values(
        |tree: JsonTree| frame(json_text(command_tree(Opcode::OK, tree))),
    )
}

/// Sends the first of some frames.
pub open spec fn streaming(frames: Seq<Seq<u8>>) -> StepView {
    asking(PhaseView::BookStream(frames.drop_first()), RequestView::Send(frames[0]))
}

impl SmartDeviceClient {
    /// The step after a command has come in: what can be answered at once is answered, and what
    /// the answer depends on is asked for.
    pub open spec fn dispatched(self, opcode: Opcode, message: JsonTree) -> StepView {
        let effects = self.announcement(opcode, message);
        match opcode {
            Opcode::NOOP => self.concluded(
                opcode,
                noop_outcome(message),
                if message.field("ejecting"@) is Some {
                    effects.push(EffectView::Tell(Message::Exit))
                } else {
                    effects
                },
            ),
            Opcode::SetLibraryInfo => self.concluded(opcode, Ok(Some(empty_object())), effects),
            Opcode::DeleteBook => self.concluded(opcode, Ok(Some(empty_object())), effects),
            Opcode::DisplayMessage => self.concluded(opcode, Ok(Some(empty_object())), effects),
            Opcode::SetCalibreDeviceName => self.concluded(
                opcode,
                Ok(Some(empty_object())),
                effects,
            ),
            Opcode::GetBookFileSegment => self.concluded(
                opcode,
                Ok(Some(entry("fileLength"@, integer(0)))),
                effects,
            ),
            Opcode::GetInitializationInfo => self.concluded(
                opcode,
                Ok(
                    Some(
                        initialization_info(
                            password_hash(optional_text(self.password), challenge_in(message)),
                        ),
                    ),
                ),
                effects,
            ),
            Opcode::FreeSpace => StepView {
                phase: PhaseView::FreeSpace,
                effects,
                request: RequestView::Volume(self.save_path@),
            },
            Opcode::TotalSpace => StepView {
                phase: PhaseView::TotalSpace,
                effects,
                request: RequestView::Volume(self.save_path@),
            },
            Opcode::GetBookCount => StepView {
                phase: PhaseView::BookSearch,
                effects,
                request: RequestView::Search { path: self.save_path@, query: seq![] },
            },
            Opcode::GetDeviceInformation => StepView {
                phase: PhaseView::DriveInfo,
                effects,
                request: RequestView::ReadFile(self.drive_info_path_spec()),
            },
            Opcode::SetCalibreDeviceInfo => StepView {
                phase: PhaseView::DriveInfoFile,
                effects,
                request: RequestView::WriteFile {
                    path: self.drive_info_path_spec(),
                    contents: encode_utf8(json_text(message)),
                },
            },
            Opcode::SendBook => match announced_book(message) {
                Ok((length, metadata, lpath)) => StepView {
                    phase: PhaseView::BookMetadata { length, lpath },
                    effects,
                    request: RequestView::Describe(json_text(metadata)),
                },
                Err(error) => self.concluded(opcode, Err(error), effects),
            },
            _ => self.concluded(opcode, Ok(None), effects),
        }
    }

    /// The step after a byte in front of a message.
    pub open spec fn prefixed(self, prefix: Seq<u8>, byte: u8) -> Option<StepView> {
        if byte != BRACKET {
            Some(asking(PhaseView::Prefix(prefix.push(byte)), RequestView::ReadByte))
        } else {
            match announced_length(prefix) {
                Err(error) => Some(self.read_failed(error)),
                Ok(length) => if length == 0 {
                    None
                } else {
                    Some(
                        asking(
                            PhaseView::Body((length - 1) as u64),
                            RequestView::ReadExact((length - 1) as u64),
                        ),
                    )
                },
            }
        }
    }

    /// The step after the rest of a message.
    pub open spec fn received(self, rest: Seq<u8>) -> Option<StepView> {
        match command_in_bytes(seq![BRACKET] + rest) {
            None => None,
            Some(Err(error)) => Some(self.read_failed(error)),
            Some(Ok((opcode, message))) => Some(self.dispatched(opcode, message)),
        }
    }

    /// The step after a question for the size of the volume was answered.
    pub open spec fn measured(self, opcode: Opcode, volume: Option<VolumeStats>) -> Option<
        StepView,
    > {
        let bytes = if opcode == Opcode::FreeSpace {
            volume->0.free()
        } else {
            volume->0.total()
        };
        let outcome = if opcode == Opcode::FreeSpace {
            free_space_outcome(volume)
        } else {
            total_space_outcome(volume)
        };
        if volume is Some && bytes > u64::MAX {
            None
        } else {
            Some(self.concluded(opcode, outcome, seq![]))
        }
    }

    /// The step after a book was stored: the reading application is told of it, where it is in
    /// the library.
    pub open spec fn stored(self, path: Seq<char>, metadata: Metadata, size: u64) -> StepView {
        self.concluded(
            Opcode::SendBook,
            Ok(None),
            match stored_book(self.library_path@, path, metadata, size) {
                Some(info) => seq![EffectView::AddDocument(info)],
                None => seq![],
            },
        )
    }

    /// The step after an event. There is none where the event does not belong to the phase, where
    /// a message has no bytes or is an array with fewer than two items, and where the size of the
    /// volume in bytes is too large a number.
    pub open spec fn next(self, phase: PhaseView, event: EventView) -> Option<StepView> {
        match (phase, event) {
            (PhaseView::Idle, EventView::Continue) => Some(
                asking(PhaseView::Prefix(seq![]), RequestView::ReadByte),
            ),
            (PhaseView::Idle, EventView::Stop) => Some(
                asking(PhaseView::Finished, RequestView::Nothing),
            ),
            (PhaseView::Prefix(prefix), EventView::Byte(byte)) => self.prefixed(prefix, byte),
            (PhaseView::Prefix(_), EventView::Failed(cause)) => Some(
                self.read_failed(ReadErrorView::Io(cause)),
            ),
            (PhaseView::Body(length), EventView::Bytes(rest)) => if rest.len() == length {
                self.received(rest)
            } else {
                None
            },
            (PhaseView::Body(_), EventView::Failed(cause)) => Some(
                self.read_failed(ReadErrorView::Io(cause)),
            ),
            (PhaseView::FreeSpace, EventView::Volume(volume)) => self.measured(
                Opcode::FreeSpace,
                volume,
            ),
            (PhaseView::TotalSpace, EventView::Volume(volume)) => self.measured(
                Opcode::TotalSpace,
                volume,
            ),
            (PhaseView::BookSearch, EventView::Books(Some(books))) => Some(
                streaming(book_frames(books)),
            ),
            (PhaseView::BookSearch, EventView::Books(None)) => Some(
                self.concluded(Opcode::GetBookCount, Ok(Some(book_count(0))), seq![]),
            ),
            (PhaseView::BookStream(frames), EventView::Sent) => if frames.len() == 0 {
                Some(self.concluded(Opcode::GetBookCount, Ok(None), seq![]))
            } else {
                Some(streaming(frames))
            },
            (PhaseView::BookStream(_), EventView::Failed(cause)) => Some(
                self.concluded(
                    Opcode::GetBookCount,
                    Err(ClientErrorView::Other(cause)),
                    seq![],
                ),
            ),
            (PhaseView::DriveInfo, EventView::Contents(contents)) => Some(
                self.concluded(
                    Opcode::GetDeviceInformation,
                    device_outcome(contents),
                    seq![],
                ),
            ),
            (PhaseView::DriveInfo, EventView::Malformed(cause)) => Some(
                self.concluded(
                    Opcode::GetDeviceInformation,
                    Err(ClientErrorView::Json(cause)),
                    seq![],
                ),
            ),
            (PhaseView::DriveInfo, EventView::Failed(cause)) => Some(
                self.concluded(
                    Opcode::GetDeviceInformation,
                    Err(ClientErrorView::File(cause)),
                    seq![],
                ),
            ),
            (PhaseView::BookMetadata { length, lpath }, EventView::Described(metadata)) => Some(
                asking(PhaseView::BookBody { lpath, metadata }, RequestView::ReadExact(length)),
            ),
            (PhaseView::BookMetadata { .. }, EventView::Malformed(cause)) => Some(
                self.concluded(Opcode::SendBook, Err(ClientErrorView::Json(cause)), seq![]),
            ),
            (PhaseView::BookBody { lpath, metadata }, EventView::Bytes(book)) => match lpath {
                Some(lpath) => Some(
                    asking(
                        PhaseView::BookFile { path: joined(self.save_path@, lpath), metadata },
                        RequestView::WriteFile {
                            path: joined(self.save_path@, lpath),
                            contents: book,
                        },
                    ),
                ),
                None => Some(
                    self.concluded(
                        Opcode::SendBook,
                        Err(complaint("Bad or missing lpath"@)),
                        seq![],
                    ),
                ),
            },
            (PhaseView::BookBody { .. }, EventView::Failed(cause)) => Some(
                self.concluded(Opcode::SendBook, Err(ClientErrorView::Other(cause)), seq![]),
            ),
            (PhaseView::BookFile { path, metadata }, EventView::Stored(size)) => Some(
                self.stored(path, metadata, size),
            ),
            (PhaseView::BookFile { .. }, EventView::Failed(cause)) => Some(
                self.concluded(Opcode::SendBook, Err(ClientErrorView::File(cause)), seq![]),
            ),
            (PhaseView::DriveInfoFile, EventView::Stored(_)) => Some(
                self.concluded(Opcode::SetCalibreDeviceInfo, Ok(Some(empty_object())), seq![]),
            ),
            (PhaseView::DriveInfoFile, EventView::Failed(cause)) => Some(
                self.concluded(
                    Opcode::SetCalibreDeviceInfo,
                    Err(ClientErrorView::File(cause)),
                    seq![],
                ),
            ),
            (PhaseView::Reply(_), EventView::Sent) => Some(idle(seq![])),
            (PhaseView::Reply(opcode), EventView::Failed(cause)) => Some(
                idle(self.handling_alarm(opcode, cause)),
            ),
            _ => None,
        }
    }
}

/// Adds an effect.
fn push_effect(effects: &mut Vec<Effect>, effect: Effect)
    ensures
        effect_views(final(effects)@) == effect_views(old(effects)@).push(effect@),
{
    effects.push(effect);
    assert(effect_views(effects@) =~= effect_views(old(effects)@).push(effect@));
}

/// Adds the notification for a message, if it is shown.
fn push_notification(effects: &mut Vec<Effect>, shown: Option<String>)
    ensures
        effect_views(final(effects)@) == effect_views(old(effects)@) + notification(
            optional_text(shown),
        ),
{
    match shown {
        Some(text) => {
            push_effect(effects, Effect::Notify(text));
            assert(effect_views(effects@) =~= effect_views(old(effects)@) + notification(
                optional_text(shown),
            ));
        },
        None => {
            assert(effect_views(effects@) =~= effect_views(old(effects)@) + notification(
                optional_text(shown),
            ));
        },
    }
}

impl SmartDeviceClient {
    /// What is shown of an incoming command.
    fn announce(&self, opcode: Opcode, message: &Json) -> (effects: Vec<Effect>)
        ensures
            effect_views(effects@) == self.announcement(opcode, message@),
    {
        let mut effects: Vec<Effect> = Vec::new();
        assert(effect_views(effects@) =~= seq![]);
        match label_of(opcode) {
            Some(name) => {
                let text = message.render();
                let words = [name, text.as_str()];
                let shown = self.logger.debug(&words);
                assert(texts(words@) =~= seq![name@, text@]);
                push_notification(&mut effects, shown);
                assert(effect_views(effects@) =~= self.announcement(opcode, message@));
            },
            None => {},
        }
        effects
    }

    /// Does what is done about an error.
    fn raise_alarm(&self, effects: &mut Vec<Effect>, line: String, cause: &str)
        ensures
            effect_views(final(effects)@) == effect_views(old(effects)@) + self.alarm(
                line@,
                cause@,
            ),
    {
        let text = "Error communicating with calibre... ".to_owned().concat(cause);
        let words = [text.as_str()];
        let shown = self.logger.error(&words);
        assert(texts(words@) =~= seq![text@]);
        push_effect(effects, Effect::Warn(line));
        push_notification(effects, shown);
        assert(effect_views(effects@) =~= effect_views(old(effects)@) + self.alarm(line@, cause@));
    }

    /// The step after a command could not be read.
    fn fail_to_read(&self, error: ReadError) -> (step: Step)
        ensures
            step@ == self.read_failed(error@),
    {
        let cause = error.report();
        let line = "Error reading command ".to_owned().concat(cause.as_str()).concat(".");
        let mut effects: Vec<Effect> = Vec::new();
        assert(effect_views(effects@) =~= seq![]);
        self.raise_alarm(&mut effects, line, cause.as_str());
        push_effect(&mut effects, Effect::Tell(Message::Exit));
        assert(effect_views(effects@) =~= self.read_failed(error@).effects);
        Step { phase: Phase::Idle, effects, request: Request::Poll }
    }

    /// The step after a command could not be carried out.
    fn fail_to_handle(&self, opcode: Opcode, cause: &str, effects: Vec<Effect>) -> (step: Step)
        ensures
            step@ == idle(effect_views(effects@) + self.handling_alarm(opcode, cause@)),
    {
        let line = "Error handling ".to_owned().concat(opcode.name()).concat(": ").concat(
            cause,
        ).concat(".");
        let mut effects: Vec<Effect> = effects;
        self.raise_alarm(&mut effects, line, cause);
        Step { phase: Phase::Idle, effects, request: Request::Poll }
    }

    /// The step after a command was carried out.
    fn conclude(&self, opcode: Opcode, outcome: Outcome, effects: Vec<Effect>) -> (step: Step)
        ensures
            step@ == self.concluded(opcode, outcome_view(outcome), effect_views(effects@)),
    {
        match outcome {
            Ok(Some(reply)) => Step {
                phase: Phase::Reply(opcode),
                effects,
                request: Request::Send(encode_command(Opcode::OK, reply)),
            },
            Ok(None) => Step { phase: Phase::Idle, effects, request: Request::Poll },
            Err(ClientError::ProtocolError(reply)) => Step {
                phase: Phase::Reply(opcode),
                effects,
                request: Request::Send(encode_command(Opcode::Error, reply)),
            },
            Err(error) => self.fail_to_handle(opcode, error.report().as_str(), effects),
        }
    }
}

impl SmartDeviceClient {
    /// The step after a command has come in.
    fn dispatch(&self, opcode: Opcode, message: Json) -> (step: Step)
        ensures
            step@ == self.dispatched(opcode, message@),
    {
        let mut effects = self.announce(opcode, &message);
        let path = self.save_path.clone();
        match opcode {
            Opcode::NOOP => {
                let (told, outcome) = self.on_noop(&message);
                match told {
                    Some(exit) => push_effect(&mut effects, Effect::Tell(exit)),
                    None => {},
                }
                self.conclude(opcode, outcome, effects)
            },
            Opcode::CalibreBusy => self.conclude(opcode, self.on_calibre_busy(), effects),
            Opcode::SetLibraryInfo => self.conclude(opcode, self.on_set_library_info(), effects),
            Opcode::DeleteBook => self.conclude(opcode, self.on_delete_book(), effects),
            Opcode::DisplayMessage => self.conclude(opcode, self.on_display_message(), effects),
            Opcode::FreeSpace => Step {
                phase: Phase::FreeSpace,
                effects,
                request: Request::Volume(path),
            },
            Opcode::GetBookFileSegment => self.conclude(
                opcode,
                self.on_get_book_file_segment(),
                effects,
            ),
            Opcode::GetBookMetadata => self.conclude(opcode, self.on_get_book_metadata(), effects),
            Opcode::GetBookCount => Step {
                phase: Phase::BookSearch,
                effects,
                request: Request::Search { path, query: String::new() },
            },
            Opcode::GetDeviceInformation => Step {
                phase: Phase::DriveInfo,
                effects,
                request: Request::ReadFile(self.drive_info_path()),
            },
            Opcode::GetInitializationInfo => self.conclude(
                opcode,
                self.on_get_initialization_info(&message),
                effects,
            ),
            Opcode::SendBooklists => self.conclude(opcode, self.on_send_booklists(), effects),
            Opcode::SendBook => match self.on_send_book(message) {
                Ok(BookRequest { length, metadata, lpath }) => Step {
                    phase: Phase::BookMetadata { length, lpath },
                    effects,
                    request: Request::Describe(metadata.render()),
                },
                Err(error) => self.conclude(opcode, Err(error), effects),
            },
            Opcode::SendBookMetadata => self.conclude(
                opcode,
                self.on_send_book_metadata(),
                effects,
            ),
            Opcode::SetCalibreDeviceInfo => Step {
                phase: Phase::DriveInfoFile,
                effects,
                request: Request::WriteFile {
                    path: self.drive_info_path(),
                    contents: self.on_set_calibre_device_info(&message),
                },
            },
            Opcode::SetCalibreDeviceName => self.conclude(
                opcode,
                self.on_set_calibre_device_name(),
                effects,
            ),
            Opcode::TotalSpace => Step {
                phase: Phase::TotalSpace,
                effects,
                request: Request::Volume(path),
            },
            Opcode::OK | Opcode::BookDone | Opcode::Error => self.conclude(
                opcode,
                Ok(None),
                effects,
            ),
        }
    }
}

impl SmartDeviceClient {
    /// The frames for some documents that are sent one after the other.
    fn frame_all(documents: Vec<Json>) -> (frames: Vec<Vec<u8>>)
        ensures
            byte_lists(frames@) == trees(documents@).map_values(
                |tree: JsonTree| frame(json_text(command_tree(Opcode::OK, tree))),
            ),
    {
        let ghost all = documents@;
        let mut frames: Vec<Vec<u8>> = Vec::new();
        for document in rest: documents
            invariant
                rest.seq() == all,
                frames.len() == rest.index(),
                forall|i: int|
                    0 <= i < frames.len() ==> (#[trigger] frames[i])@ == frame(
                        json_text(command_tree(Opcode::OK, all[i]@)),
                    ),
        {
            frames.push(encode_command(Opcode::OK, document));
        }
        assert(byte_lists(frames@) =~= trees(all).map_values(
            |tree: JsonTree| frame(json_text(command_tree(Opcode::OK, tree))),
        ));
        frames
    }

    /// Sends the first of some frames.
    fn stream(frames: Vec<Vec<u8>>) -> (step: Step)
        requires
            frames.len() > 0,
        ensures
            step@ == streaming(byte_lists(frames@)),
    {
        let mut frames: Vec<Vec<u8>> = frames;
        let ghost all = frames@;
        let first = frames.remove(0);
        assert(byte_lists(frames@) =~= byte_lists(all).drop_first());
        let step = Step {
            phase: Phase::BookStream(frames),
            effects: Vec::new(),
            request: Request::Send(first),
        };
        assert(step@.effects =~= seq![]);
        step
    }

    /// Asks for something.
    fn ask(phase: Phase, request: Request) -> (step: Step)
        ensures
            step@ == asking(phase@, request@),
    {
        let step = Step { phase, effects: Vec::new(), request };
        assert(step@.effects =~= seq![]);
        step
    }

    /// The step after a byte in front of a message.
    fn take_byte(&self, prefix: Vec<u8>, byte: u8) -> (step: Option<Step>)
        ensures
            step_view(step) == self.prefixed(prefix@, byte),
    {
        if byte != BRACKET {
            let mut prefix: Vec<u8> = prefix;
            prefix.push(byte);
            Some(SmartDeviceClient::ask(Phase::Prefix(prefix), Request::ReadByte))
        } else {
            match message_length(prefix.as_slice()) {
                Err(error) => Some(self.fail_to_read(error)),
                Ok(length) => {
                    if length == 0 {
                        None
                    } else {
                        let rest: u64 = (length - 1) as u64;
                        Some(SmartDeviceClient::ask(Phase::Body(rest), Request::ReadExact(rest)))
                    }
                },
            }
        }
    }

    /// The step after the rest of a message.
    fn take_message(&self, rest: Vec<u8>) -> (step: Option<Step>)
        ensures
            step_view(step) == self.received(rest@),
    {
        let mut body: Vec<u8> = Vec::new();
        body.push(BRACKET);
        body.extend_from_slice(rest.as_slice());
        assert(body@ =~= seq![BRACKET] + rest@);
        match decode_message(body.as_slice()) {
            None => None,
            Some(Err(error)) => Some(self.fail_to_read(error)),
            Some(Ok((opcode, message))) => Some(self.dispatch(opcode, message)),
        }
    }

    /// The step after a question for the size of the volume was answered.
    fn take_volume(&self, opcode: Opcode, volume: Option<VolumeStats>) -> (step: Option<Step>)
        requires
            opcode == Opcode::FreeSpace || opcode == Opcode::TotalSpace,
        ensures
            step_view(step) == self.measured(opcode, volume),
    {
        if let Some(stats) = volume {
            let blocks: u64 = if opcode == Opcode::FreeSpace {
                stats.blocks_available
            } else {
                stats.blocks
            };
            if blocks.checked_mul(stats.fragment_size).is_none() {
                return None;
            }
        }
        let outcome = if opcode == Opcode::FreeSpace {
            self.on_free_space(volume)
        } else {
            self.on_total_space(volume)
        };
        Some(self.finish(opcode, outcome))
    }

    /// The step after a command was carried out without anything else to do.
    fn finish(&self, opcode: Opcode, outcome: Outcome) -> (step: Step)
        ensures
            step@ == self.concluded(opcode, outcome_view(outcome), seq![]),
    {
        let effects: Vec<Effect> = Vec::new();
        assert(effect_views(effects@) =~= seq![]);
        self.conclude(opcode, outcome, effects)
    }

    /// The step after a book was stored.
    fn take_stored_book(&self, path: String, metadata: Metadata, size: u64) -> (step: Step)
        ensures
            step@ == self.stored(path@, metadata, size),
    {
        let mut effects: Vec<Effect> = Vec::new();
        assert(effect_views(effects@) =~= seq![]);
        match self.book_info(path.as_str(), metadata, size) {
            Some(info) => {
                push_effect(&mut effects, Effect::AddDocument(info));
                assert(effect_views(effects@) =~= seq![EffectView::AddDocument(info@)]);
            },
            None => {},
        }
        self.conclude(Opcode::SendBook, Ok(None), effects)
    }

    /// Takes the session one step further.
    pub fn serve(&self, phase: Phase, event: Event) -> (step: Option<Step>)
        ensures
            step_view(step) == self.next(phase@, event@),
    {
        match (phase, event) {
            (Phase::Idle, Event::Continue) => Some(
                SmartDeviceClient::ask(Phase::Prefix(Vec::new()), Request::ReadByte),
            ),
            (Phase::Idle, Event::Stop) => Some(
                SmartDeviceClient::ask(Phase::Finished, Request::Nothing),
            ),
            (Phase::Prefix(prefix), Event::Byte(byte)) => self.take_byte(prefix, byte),
            (Phase::Prefix(_), Event::Failed(cause)) => Some(
                self.fail_to_read(ReadError::Io(cause)),
            ),
            (Phase::Body(length), Event::Bytes(rest)) => {
                if rest.len() as u64 == length {
                    self.take_message(rest)
                } else {
                    None
                }
            },
            (Phase::Body(_), Event::Failed(cause)) => Some(self.fail_to_read(ReadError::Io(cause))),
            (Phase::FreeSpace, Event::Volume(volume)) => self.take_volume(
                Opcode::FreeSpace,
                volume,
            ),
            (Phase::TotalSpace, Event::Volume(volume)) => self.take_volume(
                Opcode::TotalSpace,
                volume,
            ),
            (Phase::BookSearch, Event::Books(found)) => {
                let (stream, outcome) = self.on_get_book_count(found);
                if stream.len() > 0 {
                    assert(trees(stream@).len() == stream@.len());
                    Some(SmartDeviceClient::stream(SmartDeviceClient::frame_all(stream)))
                } else {
                    assert(trees(stream@).len() == 0);
                    Some(self.finish(Opcode::GetBookCount, outcome))
                }
            },
            (Phase::BookStream(frames), Event::Sent) => {
                if frames.len() == 0 {
                    Some(self.finish(Opcode::GetBookCount, Ok(None)))
                } else {
                    Some(SmartDeviceClient::stream(frames))
                }
            },
            (Phase::BookStream(_), Event::Failed(cause)) => Some(
                self.finish(Opcode::GetBookCount, Err(ClientError::Other(cause))),
            ),
            (Phase::DriveInfo, Event::Contents(contents)) => Some(
                self.finish(
                    Opcode::GetDeviceInformation,
                    self.on_get_device_information(contents),
                ),
            ),
            (Phase::DriveInfo, Event::Malformed(cause)) => Some(
                self.finish(Opcode::GetDeviceInformation, Err(ClientError::Json(cause))),
            ),
            (Phase::DriveInfo, Event::Failed(cause)) => Some(
                self.finish(Opcode::GetDeviceInformation, Err(ClientError::File(cause))),
            ),
            (Phase::BookMetadata { length, lpath }, Event::Described(metadata)) => Some(
                SmartDeviceClient::ask(
                    Phase::BookBody { lpath, metadata },
                    Request::ReadExact(length),
                ),
            ),
            (Phase::BookMetadata { .. }, Event::Malformed(cause)) => Some(
                self.finish(Opcode::SendBook, Err(ClientError::Json(cause))),
            ),
            (Phase::BookBody { lpath, metadata }, Event::Bytes(book)) => match self.book_path(
                &lpath,
            ) {
                Ok(path) => Some(
                    SmartDeviceClient::ask(
                        Phase::BookFile { path: path.clone(), metadata },
                        Request::WriteFile { path, contents: book },
                    ),
                ),
                Err(error) => Some(self.finish(Opcode::SendBook, Err(error))),
            },
            (Phase::BookBody { .. }, Event::Failed(cause)) => Some(
                self.finish(Opcode::SendBook, Err(ClientError::Other(cause))),
            ),
            (Phase::BookFile { path, metadata }, Event::Stored(size)) => Some(
                self.take_stored_book(path, metadata, size),
            ),
            (Phase::BookFile { .. }, Event::Failed(cause)) => Some(
                self.finish(Opcode::SendBook, Err(ClientError::File(cause))),
            ),
            (Phase::DriveInfoFile, Event::Stored(_)) => Some(
                self.finish(Opcode::SetCalibreDeviceInfo, Ok(Some(Json::object()))),
            ),
            (Phase::DriveInfoFile, Event::Failed(cause)) => Some(
                self.finish(Opcode::SetCalibreDeviceInfo, Err(ClientError::File(cause))),
            ),
            (Phase::Reply(_), Event::Sent) => Some(
                SmartDeviceClient::ask(Phase::Idle, Request::Poll),
            ),
            (Phase::Reply(opcode), Event::Failed(cause)) => {
                let effects: Vec<Effect> = Vec::new();
                let step = self.fail_to_handle(opcode, cause.as_str(), effects);
                assert(step@.effects =~= self.handling_alarm(opcode, cause@));
                Some(step)
            },
            _ => None,
        }
    }
}

} // verus!
