//! What holds of the answers to calibre's commands.
use crate::bindings::{hex_text, time_text};
use crate::discovery::ServerAddress;
use crate::json::{JsonTree, NumberValue};
use crate::metadata::Metadata;
use crate::path::{
    below, components, is_tidy, joined, law_joined_path_is_below, law_path_below_leads_to_the_path,
    law_tidy_paths_join_in_any_order,
};
use crate::smart_device_client::{
    book_count, book_entry, book_stream, chosen_address, device_information, device_name_spec, empty_object, entry,
    initialization_info, integer, named_device, stored_book, string, VolumeStats, NAME, VERSION,
};
use crate::text::{holds, joined_with, law_separator_is_taken_out, owned_texts, without};
use crate::types::{Info, InfoView};
use vstd::prelude::*;

verus! {

/// No more bytes are free than there are, if no more blocks are.
pub proof fn law_free_space_is_within_total_space(stats: VolumeStats)
    requires
        stats.blocks_available <= stats.blocks,
    ensures
        stats.free() <= stats.total(),
{
    assert(stats.blocks_available * stats.fragment_size <= stats.blocks * stats.fragment_size)
        by (nonlinear_arith)
        requires
            stats.blocks_available <= stats.blocks,
            stats.fragment_size >= 0,
    ;
}

/// The document has no fractional numbers and is nested at most `depth` deep.
pub open spec fn is_plain(tree: JsonTree, depth: nat) -> bool {
    tree.has_integers_only() && tree.nests_within(depth)
}

/// A plain object stays so with one more plain entry.
proof fn lemma_plain_with(
    entries: Map<Seq<char>, JsonTree>,
    key: Seq<char>,
    value: JsonTree,
    depth: nat,
)
    requires
        is_plain(JsonTree::Object(entries), depth + 1),
        is_plain(value, depth),
    ensures
        is_plain(JsonTree::Object(entries.insert(key, value)), depth + 1),
{
    let longer = entries.insert(key, value);
    assert forall|other: Seq<char>| longer.dom().contains(other) implies (
    #[trigger] longer[other]).has_integers_only() && longer[other].nests_within(depth) by {
        if other != key {
            assert(entries.dom().contains(other));
            assert(longer[other] == entries[other]);
        }
    }
}

/// A plain object, with one more plain entry.
proof fn lemma_plain_grown(
    entries: Map<Seq<char>, JsonTree>,
    key: Seq<char>,
    value: JsonTree,
) -> (longer: Map<Seq<char>, JsonTree>)
    requires
        is_plain(JsonTree::Object(entries), 126),
        is_plain(value, 125),
    ensures
        longer == entries.insert(key, value),
        is_plain(JsonTree::Object(longer), 126),
{
    lemma_plain_with(entries, key, value, 125);
    entries.insert(key, value)
}

proof fn lemma_initialization_info_plain(hash: Seq<char>)
    ensures
        is_plain(initialization_info(hash), 126),
{
    let extensions = JsonTree::Array(seq![string("epub"@)]);
    assert(is_plain(string("epub"@), 124));
    assert(is_plain(extensions, 125));
    let lengths = entry("epub"@, integer(37));
    lemma_plain_with(Map::empty(), "epub"@, integer(37), 124);
    let entries = Map::<Seq<char>, JsonTree>::empty();
    let entries = lemma_plain_grown(entries, "appName"@, string(NAME@));
    let entries = lemma_plain_grown(entries, "acceptedExtensions"@, extensions);
    let entries = lemma_plain_grown(entries, "cacheUsesLpaths"@, JsonTree::Bool(true));
    let entries = lemma_plain_grown(entries, "canAcceptLibraryInfo"@, JsonTree::Bool(true));
    let entries = lemma_plain_grown(entries, "canDeleteMultipleBooks"@, JsonTree::Bool(true));
    let entries = lemma_plain_grown(entries, "canReceiveBookBinary"@, JsonTree::Bool(true));
    let entries = lemma_plain_grown(entries, "canSendOkToSendbook"@, JsonTree::Bool(false));
    let entries = lemma_plain_grown(entries, "canStreamBooks"@, JsonTree::Bool(true));
    let entries = lemma_plain_grown(entries, "canStreamMetadata"@, JsonTree::Bool(true));
    let entries = lemma_plain_grown(entries, "canUseCachedMetadata"@, JsonTree::Bool(false));
    let entries = lemma_plain_grown(entries, "ccVersionNumber"@, string(VERSION@));
    let entries = lemma_plain_grown(entries, "coverHeight"@, integer(240));
    let entries = lemma_plain_grown(entries, "deviceKind"@, string("Kobo"@));
    let entries = lemma_plain_grown(entries, "deviceName"@, string(device_name_spec()));
    let entries = lemma_plain_grown(entries, "extensionPathLengths"@, lengths);
    let entries = lemma_plain_grown(entries, "passwordHash"@, string(hash));
    let entries = lemma_plain_grown(entries, "maxBookContentPacketLen"@, integer(4096));
    let entries = lemma_plain_grown(entries, "useUuidFileNames"@, JsonTree::Bool(false));
    let entries = lemma_plain_grown(entries, "versionOK"@, JsonTree::Bool(true));
    assert(initialization_info(hash) == JsonTree::Object(entries));
}

/// Every answer of the client has only integers for numbers and is not nested too deep to be read
/// back from its frame (see [`crate::wire::encode_command`]): what the client tells about itself,
/// about the sizes of the volume and about books, errors told in words, and what it tells about
/// the device, as long as calibre's own name for the device has only integers for numbers and is
/// not nested too deep.
pub proof fn law_answers_can_be_read_back(
    hash: Seq<char>,
    text: Seq<char>,
    count: int,
    info: InfoView,
    stats: VolumeStats,
    device: JsonTree,
)
    ensures
        is_plain(empty_object(), 126),
        is_plain(initialization_info(hash), 126),
        is_plain(entry("fileLength"@, integer(0)), 126),
        is_plain(entry("message"@, string(text)), 126),
        is_plain(entry("free_space_on_device"@, integer(stats.free())), 126),
        is_plain(entry("total_space_on_device"@, integer(stats.total())), 126),
        is_plain(book_count(count), 126),
        is_plain(book_entry(info), 126),
        is_plain(device_information(Map::empty()), 126),
        (device.field("device_store_uuid"@) matches Some(uuid) ==> is_plain(uuid, 124))
            ==> is_plain(named_device(device), 126),
{
    let none = Map::<Seq<char>, JsonTree>::empty();
    lemma_initialization_info_plain(hash);
    lemma_plain_with(none, "fileLength"@, integer(0), 125);
    lemma_plain_with(none, "message"@, string(text), 125);
    lemma_plain_with(none, "free_space_on_device"@, integer(stats.free()), 125);
    lemma_plain_with(none, "total_space_on_device"@, integer(stats.total()), 125);
    let entries = lemma_plain_grown(none, "willStream"@, JsonTree::Bool(true));
    let entries = lemma_plain_grown(entries, "willScan"@, JsonTree::Bool(true));
    let entries = lemma_plain_grown(entries, "count"@, integer(count));
    assert(book_count(count) == JsonTree::Object(entries));
    let written = time_text(info.added.secs_spec(), info.added.nanos_spec())->0;
    let entries = lemma_plain_grown(none, "lpath"@, string(info.path));
    let entries = lemma_plain_grown(entries, "size"@, integer(info.size as int));
    let entries = lemma_plain_grown(entries, "title"@, string(info.title));
    let authors = string(without(info.author, ", "@));
    let entries = lemma_plain_grown(entries, "authors"@, authors);
    let entries = lemma_plain_grown(entries, "last_modified"@, string(written));
    assert(book_entry(info) == JsonTree::Object(entries));
    lemma_device_information_plain(none);
    let uuid = match device.field("device_store_uuid"@) {
        Some(uuid) => uuid,
        None => JsonTree::Null,
    };
    if is_plain(uuid, 124) {
        lemma_plain_with(none, "device_store_uuid"@, uuid, 124);
        lemma_device_information_plain(none.insert("device_store_uuid"@, uuid));
    }
}

proof fn lemma_device_information_plain(device: Map<Seq<char>, JsonTree>)
    requires
        is_plain(JsonTree::Object(device), 125),
    ensures
        is_plain(device_information(device), 126),
{
    let named = device.insert("device_name"@, string(device_name_spec()));
    lemma_plain_with(device, "device_name"@, string(device_name_spec()), 124);
    let none = Map::<Seq<char>, JsonTree>::empty();
    let entries = lemma_plain_grown(none, "device_info"@, JsonTree::Object(named));
    let entries = lemma_plain_grown(entries, "version"@, string(VERSION@));
    let entries = lemma_plain_grown(entries, "device_version"@, string(VERSION@));
    assert(device_information(device) == JsonTree::Object(entries));
}

/// A book that is saved in the library, in its main directory or in one below it, is known to the
/// reading application under the path that leads to it from the library.
pub proof fn law_saved_book_is_in_library(
    library: Seq<char>,
    directory: Seq<char>,
    lpath: Seq<char>,
    metadata: Metadata,
    size: u64,
)
    requires
        is_tidy(lpath),
    ensures
        stored_book(library, joined(library, lpath), metadata, size) matches Some(info)
            && info.path == lpath,
        is_tidy(directory) ==> (stored_book(
            library,
            joined(joined(library, directory), lpath),
            metadata,
            size,
        ) matches Some(info) && info.path == joined(directory, lpath)),
{
    law_joined_path_is_below(library, lpath);
    if is_tidy(directory) {
        law_tidy_paths_join_in_any_order(library, directory, lpath);
        law_joined_path_is_below(library, joined(directory, lpath));
    }
}

/// The reading application is told where each book in the library is: the path that it is told
/// leads, from the library, through the components of the path at which the book is stored.
pub proof fn law_told_path_leads_to_the_book(
    library: Seq<char>,
    path: Seq<char>,
    metadata: Metadata,
    size: u64,
)
    requires
        stored_book(library, path, metadata, size) is Some,
    ensures
        components(joined(library, stored_book(library, path, metadata, size)->0.path))
            == components(path),
{
    law_path_below_leads_to_the_path(path, library);
}

/// What calibre has told about a book that is stored in the library, calibre is told again when it
/// asks for the books: the title, the time of the last change, and the names of the authors one
/// behind the other, if none of them holds the text that stands between two of them.
pub proof fn law_stored_book_is_listed(
    library: Seq<char>,
    path: Seq<char>,
    metadata: Metadata,
    size: u64,
)
    requires
        stored_book(library, path, metadata, size) is Some,
    ensures
        ({
            let listed = book_entry(stored_book(library, path, metadata, size)->0);
            let names = owned_texts(metadata.authors@);
            let changed = metadata.last_modified;
            &&& listed.field("lpath"@) == Some(string(below(path, library)->0))
            &&& listed.field("size"@) == Some(integer(size as int))
            &&& listed.field("title"@) == Some(string(metadata.title@))
            &&& listed.field("last_modified"@) == Some(
                string(time_text(changed.secs_spec(), changed.nanos_spec())->0),
            )
            &&& (forall|i: int| 0 <= i < names.len() ==> !holds(#[trigger] names[i], ", "@))
                ==> listed.field("authors"@) == Some(string(joined_with(names, seq![])))
        }),
{
    reveal_strlit("lpath");
    reveal_strlit("size");
    reveal_strlit("title");
    reveal_strlit("authors");
    reveal_strlit("last_modified");
    assert("lpath"@[0] != "title"@[0]);
    assert("lpath"@.len() == 5 && "size"@.len() == 4 && "title"@.len() == 5);
    assert("authors"@.len() == 7 && "last_modified"@.len() == 13);
    let names = owned_texts(metadata.authors@);
    if forall|i: int| 0 <= i < names.len() ==> !holds(#[trigger] names[i], ", "@) {
        reveal_strlit(", ");
        law_separator_is_taken_out(names, ", "@);
    }
}

/// Among what the client tells about itself are the answer to the challenge, and that it sends no
/// answer before a book.
pub proof fn law_client_answers_challenges_but_not_books(hash: Seq<char>)
    ensures
        initialization_info(hash).field("passwordHash"@) == Some(string(hash)),
        initialization_info(hash).field("canSendOkToSendbook"@) == Some(JsonTree::Bool(false)),
{
    reveal_strlit("canSendOkToSendbook");
    reveal_strlit("canStreamBooks");
    reveal_strlit("canStreamMetadata");
    reveal_strlit("canUseCachedMetadata");
    reveal_strlit("ccVersionNumber");
    reveal_strlit("coverHeight");
    reveal_strlit("deviceKind");
    reveal_strlit("deviceName");
    reveal_strlit("extensionPathLengths");
    reveal_strlit("passwordHash");
    reveal_strlit("maxBookContentPacketLen");
    reveal_strlit("useUuidFileNames");
    reveal_strlit("versionOK");
    assert("canSendOkToSendbook"@.len() == 19);
    assert("canStreamBooks"@.len() == 14);
    assert("canStreamMetadata"@.len() == 17);
    assert("canUseCachedMetadata"@.len() == 20);
    assert("ccVersionNumber"@.len() == 15);
    assert("coverHeight"@.len() == 11);
    assert("deviceKind"@.len() == 10);
    assert("deviceName"@.len() == 10);
    assert("extensionPathLengths"@.len() == 20);
    assert("passwordHash"@.len() == 12);
    assert("maxBookContentPacketLen"@.len() == 23);
    assert("useUuidFileNames"@.len() == 16);
    assert("versionOK"@.len() == 9);
}

/// Calibre is told the name that it has given the device.
pub proof fn law_device_keeps_its_name(given: JsonTree)
    ensures
        ({
            let told = named_device(given).field("device_info"@);
            &&& told is Some
            &&& told->0.field("device_store_uuid"@) == Some(
                match given.field("device_store_uuid"@) {
                    Some(uuid) => uuid,
                    None => JsonTree::Null,
                },
            )
        }),
{
    reveal_strlit("device_info");
    reveal_strlit("version");
    reveal_strlit("device_version");
    reveal_strlit("device_name");
    reveal_strlit("device_store_uuid");
    assert("device_info"@.len() == 11 && "version"@.len() == 7 && "device_version"@.len() == 14);
    assert("device_name"@.len() == 11 && "device_store_uuid"@.len() == 17);
}

/// What the client tells about itself is the same whatever the challenge, but for the answer to it,
/// which is told whole.
pub proof fn law_client_tells_about_itself(hash: Seq<char>)
    ensures
        ({
            let told = initialization_info(hash);
            let lengths = JsonTree::Object(
                Map::empty().insert("epub"@, JsonTree::Number(NumberValue::Int(37))),
            );
            &&& told.field("appName"@) == Some(JsonTree::String(NAME@))
            &&& told.field("acceptedExtensions"@) == Some(JsonTree::Array(seq![JsonTree::String("epub"@)]))
            &&& told.field("cacheUsesLpaths"@) == Some(JsonTree::Bool(true))
            &&& told.field("canAcceptLibraryInfo"@) == Some(JsonTree::Bool(true))
            &&& told.field("canDeleteMultipleBooks"@) == Some(JsonTree::Bool(true))
            &&& told.field("canReceiveBookBinary"@) == Some(JsonTree::Bool(true))
            &&& told.field("canSendOkToSendbook"@) == Some(JsonTree::Bool(false))
            &&& told.field("canStreamBooks"@) == Some(JsonTree::Bool(true))
            &&& told.field("canStreamMetadata"@) == Some(JsonTree::Bool(true))
            &&& told.field("canUseCachedMetadata"@) == Some(JsonTree::Bool(false))
            &&& told.field("ccVersionNumber"@) == Some(JsonTree::String(VERSION@))
            &&& told.field("coverHeight"@) == Some(JsonTree::Number(NumberValue::Int(240)))
            &&& told.field("deviceKind"@) == Some(JsonTree::String("Kobo"@))
            &&& told.field("deviceName"@) == Some(JsonTree::String(NAME@ + " ("@ + VERSION@ + ")"@))
            &&& told.field("extensionPathLengths"@) == Some(lengths)
            &&& told.field("passwordHash"@) == Some(JsonTree::String(hash))
            &&& told.field("maxBookContentPacketLen"@) == Some(JsonTree::Number(NumberValue::Int(4096)))
            &&& told.field("useUuidFileNames"@) == Some(JsonTree::Bool(false))
            &&& told.field("versionOK"@) == Some(JsonTree::Bool(true))
            &&& told->Object_0.dom() == initialization_keys()
        }),
{
    reveal_strlit("appName");
    reveal_strlit("acceptedExtensions");
    reveal_strlit("cacheUsesLpaths");
    reveal_strlit("canAcceptLibraryInfo");
    reveal_strlit("canDeleteMultipleBooks");
    reveal_strlit("canReceiveBookBinary");
    reveal_strlit("canSendOkToSendbook");
    reveal_strlit("canStreamBooks");
    reveal_strlit("canStreamMetadata");
    reveal_strlit("canUseCachedMetadata");
    reveal_strlit("ccVersionNumber");
    reveal_strlit("coverHeight");
    reveal_strlit("deviceKind");
    reveal_strlit("deviceName");
    reveal_strlit("extensionPathLengths");
    reveal_strlit("passwordHash");
    reveal_strlit("maxBookContentPacketLen");
    reveal_strlit("useUuidFileNames");
    reveal_strlit("versionOK");
    assert("appName"@.len() == 7);
    assert("acceptedExtensions"@.len() == 18);
    assert("cacheUsesLpaths"@.len() == 15);
    assert("canAcceptLibraryInfo"@.len() == 20);
    assert("canDeleteMultipleBooks"@.len() == 22);
    assert("canReceiveBookBinary"@.len() == 20);
    assert("canSendOkToSendbook"@.len() == 19);
    assert("canStreamBooks"@.len() == 14);
    assert("canStreamMetadata"@.len() == 17);
    assert("canUseCachedMetadata"@.len() == 20);
    assert("ccVersionNumber"@.len() == 15);
    assert("coverHeight"@.len() == 11);
    assert("deviceKind"@.len() == 10);
    assert("deviceName"@.len() == 10);
    assert("extensionPathLengths"@.len() == 20);
    assert("passwordHash"@.len() == 12);
    assert("maxBookContentPacketLen"@.len() == 23);
    assert("useUuidFileNames"@.len() == 16);
    assert("versionOK"@.len() == 9);
    assert("cacheUsesLpaths"@[1] != "ccVersionNumber"@[1]);
    assert("canAcceptLibraryInfo"@[3] == 'A' && "canReceiveBookBinary"@[3] == 'R');
    assert("canUseCachedMetadata"@[3] == 'U' && "extensionPathLengths"@[3] == 'e');
    assert("deviceKind"@[6] != "deviceName"@[6]);
    assert(initialization_info(hash)->Object_0.dom() =~= initialization_keys());
}

/// The keys under which the client tells about itself.
pub open spec fn initialization_keys() -> Set<Seq<char>> {
    set![
        "appName"@,
        "acceptedExtensions"@,
        "cacheUsesLpaths"@,
        "canAcceptLibraryInfo"@,
        "canDeleteMultipleBooks"@,
        "canReceiveBookBinary"@,
        "canSendOkToSendbook"@,
        "canStreamBooks"@,
        "canStreamMetadata"@,
        "canUseCachedMetadata"@,
        "ccVersionNumber"@,
        "coverHeight"@,
        "deviceKind"@,
        "deviceName"@,
        "extensionPathLengths"@,
        "passwordHash"@,
        "maxBookContentPacketLen"@,
        "useUuidFileNames"@,
        "versionOK"@,
    ]
}

/// The number of books that is announced is the number of descriptions that follow.
pub proof fn law_announced_number_of_books_follows(books: Seq<Info>)
    ensures
        book_stream(books).len() == books.len() + 1,
        book_stream(books)[0].field("count"@) == Some(
            JsonTree::Number(NumberValue::Int(books.len() as int)),
        ),
        book_stream(books)[0].field("willStream"@) == Some(JsonTree::Bool(true)),
        book_stream(books)[0].field("willScan"@) == Some(JsonTree::Bool(true)),
        forall|i: int|
            0 <= i < books.len() ==> (#[trigger] book_stream(books)[i + 1]) == book_entry(books[i]@),
{
    reveal_strlit("count");
    reveal_strlit("willStream");
    reveal_strlit("willScan");
    assert("count"@.len() == 5 && "willStream"@.len() == 10 && "willScan"@.len() == 8);
}

/// The description of a book tells its path, size and title as they are, its authors without what
/// stands between them, and its time in RFC 3339.
pub proof fn law_book_is_described_as_it_is(info: InfoView)
    ensures
        book_entry(info).field("lpath"@) == Some(JsonTree::String(info.path)),
        book_entry(info).field("size"@) == Some(
            JsonTree::Number(NumberValue::Int(info.size as int)),
        ),
        book_entry(info).field("title"@) == Some(JsonTree::String(info.title)),
        book_entry(info).field("authors"@) == Some(
            JsonTree::String(without(info.author, seq![',', ' '])),
        ),
        book_entry(info).field("last_modified"@) == Some(
            JsonTree::String(time_text(info.added.secs_spec(), info.added.nanos_spec())->0),
        ),
{
    reveal_strlit("lpath");
    reveal_strlit("size");
    reveal_strlit("title");
    reveal_strlit("authors");
    reveal_strlit("last_modified");
    reveal_strlit(", ");
    assert(", "@ =~= seq![',', ' ']);
    assert("lpath"@[0] != "title"@[0]);
    assert("lpath"@.len() == 5 && "size"@.len() == 4 && "title"@.len() == 5);
    assert("authors"@.len() == 7 && "last_modified"@.len() == 13);
}

/// Whatever calibre's record of the device is, the client tells its own name and version.
pub proof fn law_client_tells_its_own_name(record: JsonTree, entries: Map<Seq<char>, JsonTree>)
    ensures
        ({
            let own = JsonTree::String(NAME@ + " ("@ + VERSION@ + ")"@);
            let told = named_device(record);
            let plain = device_information(entries);
            &&& told.field("device_info"@)->0.field("device_name"@) == Some(own)
            &&& told.field("version"@) == Some(JsonTree::String(VERSION@))
            &&& told.field("device_version"@) == Some(JsonTree::String(VERSION@))
            &&& plain.field("device_info"@)->0.field("device_name"@) == Some(own)
            &&& plain.field("version"@) == Some(JsonTree::String(VERSION@))
            &&& plain.field("device_version"@) == Some(JsonTree::String(VERSION@))
        }),
{
    reveal_strlit("device_info");
    reveal_strlit("version");
    reveal_strlit("device_version");
    assert("device_info"@.len() == 11 && "version"@.len() == 7 && "device_version"@.len() == 14);
}

/// A book is a document of the library exactly where it is stored below the library, and has there
/// the title, the identifier, the authors and the time that calibre told, and the size it has.
pub proof fn law_stored_book_is_what_calibre_told(
    library: Seq<char>,
    path: Seq<char>,
    metadata: Metadata,
    size: u64,
)
    ensures
        stored_book(library, path, metadata, size) is Some <==> below(path, library) is Some,
        stored_book(library, path, metadata, size) matches Some(info) ==> {
            &&& info.title == metadata.title@
            &&& info.identifier == metadata.uuid@
            &&& info.author == joined_with(owned_texts(metadata.authors@), seq![',', ' '])
            &&& Some(info.path) == below(path, library)
            &&& info.kind == "epub"@
            &&& info.size == size
            &&& info.added == metadata.last_modified
        },
{
    reveal_strlit(", ");
    assert(", "@ =~= seq![',', ' ']);
}

/// The bytes of a volume are its blocks times the size of a block.
pub proof fn law_bytes_are_blocks_times_their_size(
    fragment_size: u64,
    blocks: u64,
    blocks_available: u64,
)
    ensures
        ({
            let stats = VolumeStats { fragment_size, blocks, blocks_available };
            &&& stats.free() == blocks_available * fragment_size
            &&& stats.total() == blocks * fragment_size
        }),
{
}

/// The address that is set wins over the one that was found, and a failed search over both.
pub proof fn law_address_that_is_set_wins(
    set: ServerAddress,
    found: Option<ServerAddress>,
    cause: String,
    addr: Option<ServerAddress>,
)
    ensures
        chosen_address(Some(set), Ok(found)) == Some(set),
        chosen_address(None, Ok(found)) == found,
        chosen_address(addr, Err(cause)) is None,
{
}

/// Hexadecimal notation has two digits for each byte, the higher half first, in lower case.
pub proof fn law_hexadecimal_notation(data: Seq<u8>)
    ensures
        hex_text(data).len() == 2 * data.len(),
        forall|i: int|
            0 <= i < data.len() ==> {
                let digits = seq![
                    '0', '1', '2', '3', '4', '5', '6', '7', '8', '9', 'a', 'b', 'c', 'd', 'e', 'f',
                ];
                &&& hex_text(data)[2 * i] == digits[(#[trigger] data[i]) as int / 16]
                &&& hex_text(data)[2 * i + 1] == digits[data[i] as int % 16]
            },
{
    assert forall|i: int| 0 <= i < data.len() implies {
        let digits = seq![
            '0', '1', '2', '3', '4', '5', '6', '7', '8', '9', 'a', 'b', 'c', 'd', 'e', 'f',
        ];
        &&& hex_text(data)[2 * i] == digits[(#[trigger] data[i]) as int / 16]
        &&& hex_text(data)[2 * i + 1] == digits[data[i] as int % 16]
    } by {
        assert((2 * i) / 2 == i && (2 * i + 1) / 2 == i);
        assert((2 * i) % 2 == 0 && (2 * i + 1) % 2 == 1);
        assert(0 <= data[i] as int / 16 < 16);
    }
}

} // verus!
