//! The answers to calibre's commands.
use crate::bindings::{hex_encode, hex_text, json_read, json_text, sha1, sha1_digest, time_text};
use crate::discovery::ServerAddress;
use crate::error::{ClientError, ClientErrorView, SetupError, SetupErrorView};
use crate::json::{items_tree, Json, JsonTree, NumberValue};
use crate::logger::Logger;
use crate::message::Message;
use crate::metadata::{serialize, Metadata};
use crate::path::{below, join, joined, strip_prefix};
use crate::text::{join_owned_with, joined_with, optional_text, owned_texts, remove_all, without};
use crate::types::{FileInfo, Info, InfoView};
use vstd::prelude::*;
use vstd::utf8::encode_utf8;

verus! {

/// The name under which the client appears.
pub const NAME: &'static str = "plato-smart-device-client";

/// The version of the client.
pub const VERSION: &'static str = "0.1.0";

/// The file in which calibre's name for the device is kept.
pub const DRIVE_INFO: &'static str = ".driveinfo.calibre";

/// What comes of a command: a document to answer with, or nothing to answer, or an error.
pub type Outcome = Result<Option<Json>, ClientError>;

/// [`Outcome`] as a mathematical value.
pub type OutcomeView = Result<Option<JsonTree>, ClientErrorView>;

/// The mathematical value of an outcome.
pub open spec fn outcome_view(outcome: Outcome) -> OutcomeView {
    match outcome {
        Ok(Some(json)) => Ok(Some(json@)),
        Ok(None) => Ok(None),
        Err(error) => Err(error@),
    }
}

/// The sizes of the volume on which the books are: how large a block is, in bytes, and how many
/// blocks there are and are free.
#[derive(Debug, Clone, Copy, PartialEq, Eq, Structural)]
pub struct VolumeStats {
    pub fragment_size: u64,
    pub blocks: u64,
    pub blocks_available: u64,
}

impl VolumeStats {
    /// The free bytes.
    pub open spec fn free(self) -> int {
        self.blocks_available * self.fragment_size
    }

    /// All bytes.
    pub open spec fn total(self) -> int {
        self.blocks * self.fragment_size
    }
}

/// A string.
pub open spec fn string(text: Seq<char>) -> JsonTree {
    JsonTree::String(text)
}

/// An integer.
pub open spec fn integer(n: int) -> JsonTree {
    JsonTree::Number(NumberValue::Int(n))
}

/// The object without entries.
pub open spec fn empty_object() -> JsonTree {
    JsonTree::Object(Map::empty())
}

/// The object with one entry.
pub open spec fn entry(key: Seq<char>, value: JsonTree) -> JsonTree {
    JsonTree::Object(Map::empty().insert(key, value))
}

/// The error that calibre is told in words.
pub open spec fn complaint(text: Seq<char>) -> ClientErrorView {
    ClientErrorView::ProtocolError(entry("message"@, string(text)))
}

/// The name of the device: the name of the client and its version.
pub open spec fn device_name_spec() -> Seq<char> {
    NAME@ + " ("@ + VERSION@ + ")"@
}

/// The name of the device.
pub fn device_name() -> (name: String)
    ensures
        name@ == device_name_spec(),
        name@ == NAME@ + " ("@ + VERSION@ + ")"@,
{
    NAME.to_owned().concat(" (").concat(VERSION).concat(")")
}

/// The answer to a password and a challenge: the digest of the one behind the other, in
/// hexadecimal notation; nothing where one of them is missing.
pub open spec fn password_hash(password: Option<Seq<char>>, challenge: Option<Seq<char>>) -> Seq<
    char,
> {
    match (password, challenge) {
        (Some(password), Some(challenge)) => hex_text(
            sha1_digest(encode_utf8(password) + encode_utf8(challenge)),
        ),
        _ => seq![],
    }
}

/// The challenge in a message: the text under its key.
pub open spec fn challenge_in(message: JsonTree) -> Option<Seq<char>> {
    match message.field("passwordChallenge"@) {
        Some(challenge) => challenge.as_str(),
        None => None,
    }
}

/// What the client tells about itself.
pub open spec fn initialization_info(hash: Seq<char>) -> JsonTree {
    JsonTree::Object(
        Map::empty().insert("appName"@, string(NAME@)).insert(
            "acceptedExtensions"@,
            JsonTree::Array(seq![string("epub"@)]),
        ).insert("cacheUsesLpaths"@, JsonTree::Bool(true)).insert(
            "canAcceptLibraryInfo"@,
            JsonTree::Bool(true),
        ).insert("canDeleteMultipleBooks"@, JsonTree::Bool(true)).insert(
            "canReceiveBookBinary"@,
            JsonTree::Bool(true),
        ).insert("canSendOkToSendbook"@, JsonTree::Bool(false)).insert(
            "canStreamBooks"@,
            JsonTree::Bool(true),
        ).insert("canStreamMetadata"@, JsonTree::Bool(true)).insert(
            "canUseCachedMetadata"@,
            JsonTree::Bool(false),
        ).insert("ccVersionNumber"@, string(VERSION@)).insert("coverHeight"@, integer(240)).insert(
            "deviceKind"@,
            string("Kobo"@),
        ).insert("deviceName"@, string(device_name_spec())).insert(
            "extensionPathLengths"@,
            entry("epub"@, integer(37)),
        ).insert("passwordHash"@, string(hash)).insert(
            "maxBookContentPacketLen"@,
            integer(4096),
        ).insert("useUuidFileNames"@, JsonTree::Bool(false)).insert(
            "versionOK"@,
            JsonTree::Bool(true),
        ),
    )
}

/// What the client tells about the device, given the entries about calibre's own name for it.
pub open spec fn device_information(device: Map<Seq<char>, JsonTree>) -> JsonTree {
    JsonTree::Object(
        Map::empty().insert(
            "device_info"@,
            JsonTree::Object(device.insert("device_name"@, string(device_name_spec()))),
        ).insert("version"@, string(VERSION@)).insert("device_version"@, string(VERSION@)),
    )
}

/// What the client tells about the device, given the document with calibre's name for it; that
/// name is null where the document has none.
pub open spec fn named_device(given: JsonTree) -> JsonTree {
    let uuid = match given.field("device_store_uuid"@) {
        Some(uuid) => uuid,
        None => JsonTree::Null,
    };
    device_information(Map::empty().insert("device_store_uuid"@, uuid))
}

/// The answer to the question about the device, given the contents of the file in which calibre's
/// name for it is kept, if there is one.
pub open spec fn device_outcome(contents: Option<Seq<u8>>) -> OutcomeView {
    match contents {
        None => Ok(Some(device_information(Map::empty()))),
        Some(bytes) => match json_read(bytes) {
            Err(message) => Err(ClientErrorView::Json(message)),
            Ok(tree) => Ok(Some(named_device(tree))),
        },
    }
}

/// The announcement of so many books.
pub open spec fn book_count(count: int) -> JsonTree {
    JsonTree::Object(
        Map::empty().insert("willStream"@, JsonTree::Bool(true)).insert(
            "willScan"@,
            JsonTree::Bool(true),
        ).insert("count"@, integer(count)),
    )
}

/// What calibre is told about a book.
pub open spec fn book_entry(info: InfoView) -> JsonTree {
    JsonTree::Object(
        Map::empty().insert("lpath"@, string(info.path)).insert(
            "size"@,
            integer(info.size as int),
        ).insert("title"@, string(info.title)).insert(
            "authors"@,
            string(without(info.author, ", "@)),
        ).insert(
            "last_modified"@,
            string(time_text(info.added.secs_spec(), info.added.nanos_spec())->0),
        ),
    )
}

/// The documents that are sent for the books that were found: how many there are, and each.
pub open spec fn book_stream(books: Seq<Info>) -> Seq<JsonTree> {
    seq![book_count(books.len() as int)] + books.map_values(|book: Info| book_entry(book@))
}

/// The documents that some values are.
pub open spec fn trees(values: Seq<Json>) -> Seq<JsonTree> {
    values.map_values(|value: Json| value@)
}

/// What a message says about a book that is about to be sent: its length, its description, and
/// where it goes.
pub open spec fn announced_book(message: JsonTree) -> Result<
    (u64, JsonTree, Option<Seq<char>>),
    ClientErrorView,
> {
    let length = match message.field("length"@) {
        Some(value) => value.as_u64(),
        None => None,
    };
    let metadata = match message.field("metadata"@) {
        Some(metadata) => metadata,
        None => JsonTree::Null,
    };
    let lpath = match message.field("lpath"@) {
        Some(value) => value.as_str(),
        None => None,
    };
    match length {
        Some(length) => Ok((length, metadata, lpath)),
        None => Err(complaint("You didn't send me a length!"@)),
    }
}

/// The document for a book at `path`, where that is in the library.
pub open spec fn stored_book(
    library: Seq<char>,
    path: Seq<char>,
    metadata: Metadata,
    size: u64,
) -> Option<InfoView> {
    match below(path, library) {
        None => None,
        Some(path) => Some(
            InfoView {
                title: metadata.title@,
                identifier: metadata.uuid@,
                author: joined_with(owned_texts(metadata.authors@), ", "@),
                path,
                kind: "epub"@,
                size,
                added: metadata.last_modified,
            },
        ),
    }
}

/// The answer to a message without an operation: none where it only announces books.
pub open spec fn noop_outcome(message: JsonTree) -> OutcomeView {
    if message.field("ejecting"@) is None && message.field("count"@) is Some {
        Ok(None)
    } else {
        Ok(Some(empty_object()))
    }
}

/// The answer to the question for the free space.
pub open spec fn free_space_outcome(volume: Option<VolumeStats>) -> OutcomeView {
    match volume {
        Some(stats) => Ok(Some(entry("free_space_on_device"@, integer(stats.free())))),
        None => Err(complaint("Unable to get size information"@)),
    }
}

/// The answer to the question for the whole space.
pub open spec fn total_space_outcome(volume: Option<VolumeStats>) -> OutcomeView {
    match volume {
        Some(stats) => Ok(Some(entry("total_space_on_device"@, integer(stats.total())))),
        None => Err(complaint("Unable to get size information"@)),
    }
}

/// What a message says about a book that is about to be sent.
#[derive(Debug, PartialEq)]
pub struct BookRequest {
    /// The number of bytes that follow.
    pub length: u64,
    /// The description of the book; null where it is missing.
    pub metadata: Json,
    /// Where calibre wants the book to be.
    pub lpath: Option<String>,
}

/// The client: where calibre is, and where the books go.
#[derive(Debug)]
pub struct SmartDeviceClient {
    pub addr: ServerAddress,
    pub password: Option<String>,
    pub save_path: String,
    pub library_path: String,
    pub logger: Logger,
}

/// The address that the client connects to: none where the search for the server failed, else the
/// one that is set, and where none is set the one that was found.
pub open spec fn chosen_address(
    addr: Option<ServerAddress>,
    search: Result<Option<ServerAddress>, String>,
) -> Option<ServerAddress> {
    match search {
        Err(_) => None,
        Ok(found) => if addr is Some {
            addr
        } else {
            found
        },
    }
}

impl SmartDeviceClient {
    /// The client for the address that is set, or else for the one that the search for the server
    /// found. A search that failed leaves no client, even where an address is set.
    pub fn new(
        addr: Option<ServerAddress>,
        search: Result<Option<ServerAddress>, String>,
        password: Option<String>,
        save_path: String,
        library_path: String,
        log_level: u8,
    ) -> (result: Result<SmartDeviceClient, SetupError>)
        ensures
            match result {
                Ok(client) => chosen_address(addr, search) == Some(client.addr) && client.password
                    == password && client.save_path == save_path && client.library_path
                    == library_path && client.logger.level() == log_level,
                Err(error) => chosen_address(addr, search) is None && error@ == match search {
                    Err(cause) => SetupErrorView::Search(cause@),
                    Ok(_) => SetupErrorView::Client(
                        ClientErrorView::ApplicationError("Unable to find calibre server address"@),
                    ),
                },
            },
    {
        let found: Option<ServerAddress> = match search {
            Ok(found) => found,
            Err(cause) => return Err(SetupError::Search(cause)),
        };
        let chosen: ServerAddress = match (addr, found) {
            (Some(addr), _) => addr,
            (None, Some(found)) => found,
            (None, None) => {
                return Err(
                    SetupError::Client(
                        ClientError::ApplicationError(
                            "Unable to find calibre server address".to_owned(),
                        ),
                    ),
                );
            },
        };
        Ok(
            SmartDeviceClient {
                addr: chosen,
                password,
                save_path,
                library_path,
                logger: Logger::new(log_level),
            },
        )
    }

    /// Where calibre's name for the device is kept.
    pub open spec fn drive_info_path_spec(self) -> Seq<char> {
        joined(self.save_path@, DRIVE_INFO@)
    }

    /// Where calibre's name for the device is kept.
    pub fn drive_info_path(&self) -> (path: String)
        ensures
            path@ == self.drive_info_path_spec(),
    {
        join(self.save_path.as_str(), DRIVE_INFO)
    }

    /// Calibre ends the session, announces books, asks for one, or wants to know whether the
    /// client is there. An announcement is not answered; the end of the session is passed on.
    pub fn on_noop(&self, message: &Json) -> (result: (Option<Message>, Outcome))
        ensures
            message@.field("ejecting"@) is Some ==> result.0 == Some(Message::Exit),
            message@.field("ejecting"@) is None ==> result.0 is None,
            outcome_view(result.1) == noop_outcome(message@),
    {
        if message.get("ejecting").is_some() {
            (Some(Message::Exit), Ok(Some(Json::object())))
        } else if message.get("count").is_some() {
            (None, Ok(None))
        } else {
            (None, Ok(Some(Json::object())))
        }
    }

    pub fn on_calibre_busy(&self) -> (outcome: Outcome)
        ensures
            outcome_view(outcome) == OutcomeView::Ok(None),
    {
        Ok(None)
    }

    pub fn on_set_library_info(&self) -> (outcome: Outcome)
        ensures
            outcome_view(outcome) == OutcomeView::Ok(Some(empty_object())),
    {
        Ok(Some(Json::object()))
    }

    /// Calibre wants books to be deleted, and waits for an answer. No book is deleted.
    pub fn on_delete_book(&self) -> (outcome: Outcome)
        ensures
            outcome_view(outcome) == OutcomeView::Ok(Some(empty_object())),
    {
        Ok(Some(Json::object()))
    }

    pub fn on_display_message(&self) -> (outcome: Outcome)
        ensures
            outcome_view(outcome) == OutcomeView::Ok(Some(empty_object())),
    {
        Ok(Some(Json::object()))
    }

    /// Tells how many bytes are free, where the sizes of the volume are known.
    pub fn on_free_space(&self, volume: Option<VolumeStats>) -> (outcome: Outcome)
        requires
            volume matches Some(stats) ==> stats.free() <= u64::MAX,
        ensures
            outcome_view(outcome) == free_space_outcome(volume),
            volume matches Some(stats) ==> outcome_view(outcome) == OutcomeView::Ok(
                Some(
                    JsonTree::Object(
                        Map::empty().insert(
                            "free_space_on_device"@,
                            JsonTree::Number(
                                NumberValue::Int(stats.blocks_available * stats.fragment_size),
                            ),
                        ),
                    ),
                ),
            ),
    {
        match volume {
            Some(stats) => {
                let free: u64 = stats.blocks_available * stats.fragment_size;
                Ok(Some(Json::object().with("free_space_on_device", Json::integer(free))))
            },
            None => Err(
                ClientError::ProtocolError(
                    Json::object().with("message", Json::string("Unable to get size information")),
                ),
            ),
        }
    }

    /// No book is handed out: each is reported to be empty.
    pub fn on_get_book_file_segment(&self) -> (outcome: Outcome)
        ensures
            outcome_view(outcome) == OutcomeView::Ok(Some(entry("fileLength"@, integer(0)))),
    {
        Ok(Some(Json::object().with("fileLength", Json::integer(0))))
    }

    pub fn on_get_book_metadata(&self) -> (outcome: Outcome)
        ensures
            outcome_view(outcome) == OutcomeView::Ok(None),
    {
        Ok(None)
    }

    /// Tells calibre about the books that were found, one by one, after their number; or, where
    /// the search failed, that there are none. Gives what is to be sent before the outcome counts.
    pub fn on_get_book_count(&self, found: Option<Vec<Info>>) -> (result: (Vec<Json>, Outcome))
        ensures
            match found {
                Some(books) => trees(result.0@) == book_stream(books@) && outcome_view(result.1)
                    == OutcomeView::Ok(None) && result.0@.len() == books@.len() + 1
                    && result.0@[0]@.field("count"@) == Some(
                    JsonTree::Number(NumberValue::Int(books@.len() as int)),
                ),
                None => result.0@.len() == 0 && outcome_view(result.1) == OutcomeView::Ok(
                    Some(book_count(0)),
                ),
            },
    {
        match found {
            Some(books) => {
                let mut stream: Vec<Json> = Vec::new();
                stream.push(count_of_books(books.len() as u64));
                assert(trees(stream@) =~= book_stream(books@).take(1));
                for i in 0..books.len()
                    invariant
                        trees(stream@) =~= book_stream(books@).take(i + 1),
                {
                    let ghost before = stream@;
                    stream.push(description_of_book(&books[i]));
                    assert(trees(stream@) =~= trees(before).push(book_entry(books[i as int]@)));
                }
                assert(trees(stream@) =~= book_stream(books@));
                assert(trees(stream@).len() == stream@.len());
                assert(stream@[0]@ == trees(stream@)[0]);
                (stream, Ok(None))
            },
            None => (Vec::new(), Ok(Some(count_of_books(0)))),
        }
    }

    /// Tells calibre its own name for the device, if it has given it one, and that of the client.
    pub fn on_get_device_information(&self, contents: Option<Vec<u8>>) -> (outcome: Outcome)
        ensures
            outcome_view(outcome) == device_outcome(
                match contents {
                    Some(bytes) => Some(bytes@),
                    None => None,
                },
            ),
            outcome matches Ok(told) ==> told is Some && told->0@.field("device_info"@) is Some
                && told->0@.field("device_info"@)->0.field("device_name"@) == Some(
                JsonTree::String(NAME@ + " ("@ + VERSION@ + ")"@),
            ),
    {
        proof {
            reveal_strlit("device_info");
            reveal_strlit("version");
            reveal_strlit("device_version");
            assert("device_info"@.len() == 11);
            assert("version"@.len() == 7 && "device_version"@.len() == 14);
        }
        match contents {
            None => Ok(Some(information_of_device(Json::object()))),
            Some(bytes) => match Json::read(bytes.as_slice()) {
                Err(message) => Err(ClientError::Json(message)),
                Ok(json) => {
                    let uuid = match json.into_field("device_store_uuid") {
                        Some(uuid) => uuid,
                        None => Json::Null,
                    };
                    let device = Json::object().with("device_store_uuid", uuid);
                    Ok(Some(information_of_device(device)))
                },
            },
        }
    }

    /// The answer to a challenge: 40 hexadecimal digits, or nothing without a password or without
    /// a challenge.
    pub fn get_password_hash(&self, challange: Option<&str>) -> (hash: String)
        ensures
            hash@.len() == if self.password is Some && challange is Some {
                40nat
            } else {
                0nat
            },
            hash@ == password_hash(
                optional_text(self.password),
                match challange {
                    Some(text) => Some(text@),
                    None => None,
                },
            ),
            self.password matches Some(password) ==> challange matches Some(challange) ==> hash@
                == hex_text(sha1_digest(encode_utf8(password@) + encode_utf8(challange@))),
    {
        let digest: Vec<u8> = match (challange, &self.password) {
            (Some(challange), Some(password)) => sha1(
                password.as_str().as_bytes(),
                challange.as_bytes(),
            ),
            _ => Vec::new(),
        };
        assert(digest@.len() == 0 ==> hex_text(digest@) =~= seq![]);
        hex_encode(digest)
    }

    /// Tells what the client can do, and answers the challenge in the message.
    pub fn on_get_initialization_info(&self, message: &Json) -> (outcome: Outcome)
        ensures
            outcome_view(outcome) == OutcomeView::Ok(
                Some(
                    initialization_info(
                        password_hash(optional_text(self.password), challenge_in(message@)),
                    ),
                ),
            ),
            ({
                let told = outcome->Ok_0->0@.field("passwordHash"@);
                let asked = message@.field("passwordChallenge"@);
                if self.password is Some && asked is Some && asked->0 is String {
                    told == Some(
                        JsonTree::String(
                            hex_text(
                                sha1_digest(
                                    encode_utf8(self.password->0@) + encode_utf8(
                                        asked->0->String_0,
                                    ),
                                ),
                            ),
                        ),
                    )
                } else {
                    told == Some(JsonTree::String(seq![]))
                }
            }),
    {
        proof {
            reveal_strlit("passwordHash");
            reveal_strlit("maxBookContentPacketLen");
            reveal_strlit("useUuidFileNames");
            reveal_strlit("versionOK");
            assert("passwordHash"@.len() == 12 && "maxBookContentPacketLen"@.len() == 23);
            assert("useUuidFileNames"@.len() == 16 && "versionOK"@.len() == 9);
        }
        let challenge = match message.get("passwordChallenge") {
            Some(value) => value.as_str(),
            None => None,
        };
        let hash = self.get_password_hash(challenge);
        let mut extensions: Vec<Json> = Vec::new();
        extensions.push(Json::string("epub"));
        proof {
            crate::json::lemma_items_tree(extensions@);
            assert(items_tree(extensions@) =~= seq![string("epub"@)]);
        }
        Ok(
            Some(
                Json::object().with("appName", Json::string(NAME)).with(
                    "acceptedExtensions",
                    Json::Array(extensions),
                ).with("cacheUsesLpaths", Json::Bool(true)).with(
                    "canAcceptLibraryInfo",
                    Json::Bool(true),
                ).with("canDeleteMultipleBooks", Json::Bool(true)).with(
                    "canReceiveBookBinary",
                    Json::Bool(true),
                ).with("canSendOkToSendbook", Json::Bool(false)).with(
                    "canStreamBooks",
                    Json::Bool(true),
                ).with("canStreamMetadata", Json::Bool(true)).with(
                    "canUseCachedMetadata",
                    Json::Bool(false),
                ).with("ccVersionNumber", Json::string(VERSION)).with(
                    "coverHeight",
                    Json::integer(240),
                ).with("deviceKind", Json::string("Kobo")).with(
                    "deviceName",
                    Json::String(device_name()),
                ).with(
                    "extensionPathLengths",
                    Json::object().with("epub", Json::integer(37)),
                ).with("passwordHash", Json::String(hash)).with(
                    "maxBookContentPacketLen",
                    Json::integer(4096),
                ).with("useUuidFileNames", Json::Bool(false)).with("versionOK", Json::Bool(true)),
            ),
        )
    }

    pub fn on_send_booklists(&self) -> (outcome: Outcome)
        ensures
            outcome_view(outcome) == OutcomeView::Ok(None),
    {
        Ok(None)
    }

    /// Calibre is about to send a book: takes from the message what is needed to receive it.
    pub fn on_send_book(&self, message: Json) -> (result: Result<BookRequest, ClientError>)
        ensures
            match result {
                Ok(request) => announced_book(message@) is Ok && announced_book(message@)->Ok_0 == (
                    request.length,
                    request.metadata@,
                    optional_text(request.lpath),
                ),
                Err(error) => announced_book(message@) is Err && announced_book(message@)->Err_0
                    == error@,
            },
            result matches Ok(request) ==> message@.field("length"@) == Some(
                JsonTree::Number(NumberValue::Int(request.length as int)),
            ),
            result is Ok <==> (message@.field("length"@) matches Some(
                JsonTree::Number(NumberValue::Int(length)),
            ) && 0 <= length <= u64::MAX),
            result matches Ok(request) ==> request.metadata@ == match message@.field("metadata"@) {
                Some(metadata) => metadata,
                None => JsonTree::Null,
            },
            result matches Ok(request) ==> optional_text(request.lpath) == match message@.field(
                "lpath"@,
            ) {
                Some(JsonTree::String(lpath)) => Some(lpath),
                _ => None,
            },
    {
        let length = match message.get("length") {
            Some(value) => value.as_u64(),
            None => None,
        };
        match length {
            None => Err(
                ClientError::ProtocolError(
                    Json::object().with("message", Json::string("You didn't send me a length!")),
                ),
            ),
            Some(length) => {
                let lpath = match message.get("lpath") {
                    Some(value) => match value.as_str() {
                        Some(text) => Some(text.to_owned()),
                        None => None,
                    },
                    None => None,
                };
                let metadata = match message.into_field("metadata") {
                    Some(metadata) => metadata,
                    None => Json::Null,
                };
                Ok(BookRequest { length, metadata, lpath })
            },
        }
    }

    /// Where a book goes that calibre wants at `lpath`.
    pub fn book_path(&self, lpath: &Option<String>) -> (result: Result<String, ClientError>)
        ensures
            match (result, lpath) {
                (Ok(path), Some(lpath)) => path@ == joined(self.save_path@, lpath@),
                (Err(error), None) => error@ == complaint("Bad or missing lpath"@),
                _ => false,
            },
    {
        match lpath {
            Some(lpath) => Ok(join(self.save_path.as_str(), lpath.as_str())),
            None => Err(
                ClientError::ProtocolError(
                    Json::object().with("message", Json::string("Bad or missing lpath")),
                ),
            ),
        }
    }

    /// The document for a book that was put at `path`, where that is in the library.
    pub fn book_info(&self, path: &str, metadata: Metadata, size: u64) -> (result: Option<Info>)
        ensures
            match result {
                Some(info) => stored_book(self.library_path@, path@, metadata, size) == Some(info@),
                None => stored_book(self.library_path@, path@, metadata, size) is None,
            },
    {
        match strip_prefix(path, self.library_path.as_str()) {
            None => None,
            Some(path) => {
                let author = join_owned_with(&metadata.authors, ", ");
                Some(
                    Info {
                        title: metadata.title,
                        identifier: metadata.uuid,
                        author,
                        file: FileInfo { path, kind: "epub".to_owned(), size },
                        added: metadata.last_modified,
                    },
                )
            },
        }
    }

    /// Calibre names the device: gives the contents of the file in which the name is kept. From
    /// that file calibre is told the name again, if the message has no fractional numbers and is
    /// nested at most 127 deep.
    pub fn on_set_calibre_device_info(&self, message: &Json) -> (contents: Vec<u8>)
        ensures
            contents@ == encode_utf8(json_text(message@)),
            message@.has_integers_only() && message@.nests_within(127) ==> device_outcome(
                Some(contents@),
            ) == OutcomeView::Ok(Some(named_device(message@))),
    {
        message.render().as_str().as_bytes_vec()
    }

    pub fn on_send_book_metadata(&self) -> (outcome: Outcome)
        ensures
            outcome_view(outcome) == OutcomeView::Ok(None),
    {
        Ok(None)
    }

    pub fn on_set_calibre_device_name(&self) -> (outcome: Outcome)
        ensures
            outcome_view(outcome) == OutcomeView::Ok(Some(empty_object())),
    {
        Ok(Some(Json::object()))
    }

    /// Tells how many bytes there are, where the sizes of the volume are known.
    pub fn on_total_space(&self, volume: Option<VolumeStats>) -> (outcome: Outcome)
        requires
            volume matches Some(stats) ==> stats.total() <= u64::MAX,
        ensures
            outcome_view(outcome) == total_space_outcome(volume),
            volume matches Some(stats) ==> outcome_view(outcome) == OutcomeView::Ok(
                Some(
                    JsonTree::Object(
                        Map::empty().insert(
                            "total_space_on_device"@,
                            JsonTree::Number(
                                NumberValue::Int(stats.blocks * stats.fragment_size),
                            ),
                        ),
                    ),
                ),
            ),
    {
        match volume {
            Some(stats) => {
                let total: u64 = stats.blocks * stats.fragment_size;
                Ok(Some(Json::object().with("total_space_on_device", Json::integer(total))))
            },
            None => Err(
                ClientError::ProtocolError(
                    Json::object().with("message", Json::string("Unable to get size information")),
                ),
            ),
        }
    }
}

/// The announcement of so many books.
fn count_of_books(count: u64) -> (json: Json)
    ensures
        json@ == book_count(count as int),
{
    Json::object().with("willStream", Json::Bool(true)).with("willScan", Json::Bool(true)).with(
        "count",
        Json::integer(count),
    )
}

/// What calibre is told about a book.
fn description_of_book(info: &Info) -> (json: Json)
    ensures
        json@ == book_entry(info@),
{
    proof {
        reveal_strlit(", ");
    }
    Json::object().with("lpath", Json::string(info.file.path.as_str())).with(
        "size",
        Json::integer(info.file.size),
    ).with("title", Json::string(info.title.as_str())).with(
        "authors",
        Json::String(remove_all(info.author.as_str(), ", ")),
    ).with("last_modified", Json::String(serialize(&info.added)))
}

/// What the client tells about the device, given the entries about calibre's own name for it.
fn information_of_device(device: Json) -> (json: Json)
    requires
        device@ is Object,
    ensures
        json@ == device_information(device@->Object_0),
{
    Json::object().with(
        "device_info",
        device.with("device_name", Json::String(device_name())),
    ).with("version", Json::string(VERSION)).with("device_version", Json::string(VERSION))
}

} // verus!
