//! What holds of every session.
use crate::bindings::{json_read, json_text};
use crate::decimal::law_number_is_value_of_digits;
use crate::error::ClientErrorView;
use crate::json::JsonTree;
use crate::logger::law_errors_are_always_shown;
use crate::message::Message;
use crate::metadata::Metadata;
use crate::path::joined;
use crate::session::{
    book_frames, idle, EffectView, EventView, PhaseView, RequestView, StepView,
};
use crate::smart_device_client::{
    announced_book, book_count, book_entry, entry, stored_book, string, SmartDeviceClient,
};
use crate::text::joined_with;
use crate::types::Info;
use crate::wire::{
    announced_length, before_bracket, command_in_bytes, command_tree, frame, reading, Opcode,
    Reading, BRACKET,
};
use vstd::prelude::*;

verus! {

/// The phase waits for what comes of the request.
pub open spec fn waits_for(phase: PhaseView, request: RequestView) -> bool {
    match (phase, request) {
        (PhaseView::Idle, RequestView::Poll) => true,
        (PhaseView::Prefix(_), RequestView::ReadByte) => true,
        (PhaseView::Body(length), RequestView::ReadExact(asked)) => length == asked,
        (PhaseView::FreeSpace, RequestView::Volume(_)) => true,
        (PhaseView::TotalSpace, RequestView::Volume(_)) => true,
        (PhaseView::BookSearch, RequestView::Search { .. }) => true,
        (PhaseView::BookStream(_), RequestView::Send(_)) => true,
        (PhaseView::DriveInfo, RequestView::ReadFile(_)) => true,
        (PhaseView::BookMetadata { .. }, RequestView::Describe(_)) => true,
        (PhaseView::BookBody { .. }, RequestView::ReadExact(_)) => true,
        (PhaseView::BookFile { path, .. }, RequestView::WriteFile { path: written, .. }) => path
            == written,
        (PhaseView::DriveInfoFile, RequestView::WriteFile { .. }) => true,
        (PhaseView::Reply(_), RequestView::Send(_)) => true,
        (PhaseView::Finished, RequestView::Nothing) => true,
        _ => false,
    }
}

/// The event can come of the request.
pub open spec fn can_come_of(event: EventView, request: RequestView) -> bool {
    match (request, event) {
        (RequestView::Poll, EventView::Continue) => true,
        (RequestView::Poll, EventView::Stop) => true,
        (RequestView::ReadByte, EventView::Byte(_)) => true,
        (RequestView::ReadByte, EventView::Failed(_)) => true,
        (RequestView::ReadExact(length), EventView::Bytes(bytes)) => bytes.len() == length,
        (RequestView::ReadExact(_), EventView::Failed(_)) => true,
        (RequestView::Send(_), EventView::Sent) => true,
        (RequestView::Send(_), EventView::Failed(_)) => true,
        (RequestView::Volume(_), EventView::Volume(_)) => true,
        (RequestView::Search { .. }, EventView::Books(_)) => true,
        (RequestView::ReadFile(_), EventView::Contents(_)) => true,
        (RequestView::ReadFile(_), EventView::Malformed(_)) => true,
        (RequestView::ReadFile(_), EventView::Failed(_)) => true,
        (RequestView::Describe(_), EventView::Described(_)) => true,
        (RequestView::Describe(_), EventView::Malformed(_)) => true,
        (RequestView::WriteFile { .. }, EventView::Stored(_)) => true,
        (RequestView::WriteFile { .. }, EventView::Failed(_)) => true,
        _ => false,
    }
}

/// Nothing is said of the event in this phase: it ends the length of a message without bytes, it
/// is an array with fewer than two items, or it gives the volume a size in bytes that no `u64`
/// holds.
pub open spec fn is_undefined(phase: PhaseView, event: EventView) -> bool {
    match (phase, event) {
        (PhaseView::Prefix(prefix), EventView::Byte(byte)) => byte == BRACKET && announced_length(
            prefix,
        ) is Ok && announced_length(prefix)->Ok_0 == 0,
        (PhaseView::Body(_), EventView::Bytes(rest)) => command_in_bytes(
            seq![BRACKET] + rest,
        ) is None,
        (PhaseView::FreeSpace, EventView::Volume(Some(stats))) => stats.free() > u64::MAX,
        (PhaseView::TotalSpace, EventView::Volume(Some(stats))) => stats.total() > u64::MAX,
        _ => false,
    }
}

/// Every step asks for what its phase waits for.
pub proof fn law_steps_ask_for_what_they_wait_for(
    client: SmartDeviceClient,
    phase: PhaseView,
    event: EventView,
)
    requires
        client.next(phase, event) is Some,
    ensures
        waits_for(client.next(phase, event)->0.phase, client.next(phase, event)->0.request),
{
}

/// A session does not get stuck: whatever can come of its request leads to a next step, unless
/// nothing is said of it.
pub proof fn law_session_goes_on(
    client: SmartDeviceClient,
    phase: PhaseView,
    request: RequestView,
    event: EventView,
)
    requires
        waits_for(phase, request),
        can_come_of(event, request),
    ensures
        client.next(phase, event) is Some <==> !is_undefined(phase, event),
{
}

/// A session ends when it is stopped between two commands, and not otherwise; nothing comes
/// after its end.
pub proof fn law_session_ends_when_stopped(
    client: SmartDeviceClient,
    phase: PhaseView,
    event: EventView,
)
    ensures
        client.next(phase, event) matches Some(step) ==> (step.phase is Finished <==> phase is Idle
            && event is Stop),
        phase is Finished ==> client.next(phase, event) is None,
{
}

/// The main thread is told that the session is over when a command could not be read or calibre
/// ejects the device, and not otherwise; it is told nothing else.
pub proof fn law_main_thread_is_told_of_the_end(
    client: SmartDeviceClient,
    phase: PhaseView,
    event: EventView,
    message: Message,
)
    requires
        client.next(phase, event) is Some,
    ensures
        client.next(phase, event)->0.effects.contains(EffectView::Tell(message)) <==> message
            == Message::Exit && tells_exit(phase, event),
{
    broadcast use vstd::seq_lib::group_seq_properties;

}

/// The event shows that a command cannot be read, or that calibre ejects the device.
pub open spec fn tells_exit(phase: PhaseView, event: EventView) -> bool {
    match (phase, event) {
        (PhaseView::Prefix(_), EventView::Failed(_)) => true,
        (PhaseView::Body(_), EventView::Failed(_)) => true,
        (PhaseView::Prefix(prefix), EventView::Byte(byte)) => byte == BRACKET && announced_length(
            prefix,
        ) is Err,
        (PhaseView::Body(_), EventView::Bytes(rest)) => match command_in_bytes(
            seq![BRACKET] + rest,
        ) {
            Some(Err(_)) => true,
            Some(Ok((opcode, message))) => opcode == Opcode::NOOP && message.field(
                "ejecting"@,
            ) is Some,
            None => false,
        },
        _ => false,
    }
}

/// What a session does over some events: where it stands then, everything it did, and everything
/// it asked for.
pub struct Course {
    pub phase: PhaseView,
    pub effects: Seq<EffectView>,
    pub requests: Seq<RequestView>,
}

impl SmartDeviceClient {
    /// The course of a session over some events, as long as each has a next step.
    #[verifier::opaque]
    pub open spec fn course(self, phase: PhaseView, events: Seq<EventView>) -> Option<Course>
        decreases events.len(),
    {
        if events.len() == 0 {
            Some(Course { phase, effects: seq![], requests: seq![] })
        } else {
            match self.next(phase, events[0]) {
                None => None,
                Some(step) => match self.course(step.phase, events.drop_first()) {
                    None => None,
                    Some(rest) => Some(
                        Course {
                            phase: rest.phase,
                            effects: step.effects + rest.effects,
                            requests: seq![step.request] + rest.requests,
                        },
                    ),
                },
            }
        }
    }
}

/// The course of a session over some events, and over some more.
proof fn lemma_course_goes_on(
    client: SmartDeviceClient,
    phase: PhaseView,
    events: Seq<EventView>,
    more: Seq<EventView>,
)
    requires
        client.course(phase, events) is Some,
    ensures
        match client.course(client.course(phase, events)->0.phase, more) {
            None => client.course(phase, events + more) is None,
            Some(rest) => client.course(phase, events + more) is Some && client.course(
                phase,
                events + more,
            )->0 == (Course {
                phase: rest.phase,
                effects: client.course(phase, events)->0.effects + rest.effects,
                requests: client.course(phase, events)->0.requests + rest.requests,
            }),
        },
    decreases events.len(),
{
    reveal_with_fuel(SmartDeviceClient::course, 2);
    let first = client.course(phase, events)->0;
    if events.len() == 0 {
        assert(events + more =~= more);
        if let Some(rest) = client.course(phase, more) {
            assert(first.effects + rest.effects =~= rest.effects);
            assert(first.requests + rest.requests =~= rest.requests);
        }
    } else {
        let all = events + more;
        assert(all[0] == events[0]);
        assert(all.drop_first() =~= events.drop_first() + more);
        let step = client.next(phase, events[0])->0;
        lemma_course_goes_on(client, step.phase, events.drop_first(), more);
        let inner = client.course(step.phase, events.drop_first())->0;
        if let Some(rest) = client.course(inner.phase, more) {
            assert(step.effects + (inner.effects + rest.effects) =~= first.effects + rest.effects);
            assert(seq![step.request] + (inner.requests + rest.requests) =~= first.requests
                + rest.requests);
        }
    }
}

/// The course of a session over one event is its next step.
proof fn lemma_course_of_one(client: SmartDeviceClient, phase: PhaseView, event: EventView)
    ensures
        match client.next(phase, event) {
            None => client.course(phase, seq![event]) is None,
            Some(step) => client.course(phase, seq![event]) is Some && client.course(
                phase,
                seq![event],
            )->0 == (Course {
                phase: step.phase,
                effects: step.effects,
                requests: seq![step.request],
            }),
        },
{
    reveal_with_fuel(SmartDeviceClient::course, 2);
    let events = seq![event];
    if let Some(step) = client.next(phase, event) {
        let rest = client.course(step.phase, events.drop_first())->0;
        assert(events.drop_first().len() == 0);
        assert(step.effects + rest.effects =~= step.effects);
        assert(seq![step.request] + rest.requests =~= seq![step.request]);
    }
}

/// Bytes that come in one by one.
pub open spec fn byte_events(bytes: Seq<u8>) -> Seq<EventView> {
    bytes.map_values(|byte: u8| EventView::Byte(byte))
}

/// How a stream comes in while one command is read from it: byte by byte up to the bracket, and
/// then the rest of the message at once, as far as the stream holds it.
pub open spec fn arrivals(stream: Seq<u8>) -> Seq<EventView> {
    let prefix = before_bracket(stream);
    let start = seq![EventView::Continue] + byte_events(prefix);
    if prefix.len() == stream.len() {
        start
    } else {
        let bracket = seq![EventView::Byte(BRACKET)];
        match announced_length(prefix) {
            Ok(length) => if 0 < length && prefix.len() + length <= stream.len() {
                start + bracket + seq![
                    EventView::Bytes(
                        stream.subrange((prefix.len() + 1) as int, (prefix.len() + length) as int),
                    ),
                ]
            } else {
                start + bracket
            },
            Err(_) => start + bracket,
        }
    }
}

/// The course does, and asks for in the end, what the step does and asks for.
pub open spec fn ends_in(course: Option<Course>, step: StepView) -> bool {
    &&& course is Some
    &&& course->0.phase == step.phase
    &&& course->0.effects == step.effects
    &&& course->0.requests.len() > 0
    &&& course->0.requests.last() == step.request
}

proof fn lemma_before_bracket(stream: Seq<u8>)
    ensures
        before_bracket(stream).len() <= stream.len(),
        before_bracket(stream) == stream.take(before_bracket(stream).len() as int),
        forall|i: int|
            0 <= i < before_bracket(stream).len() ==> #[trigger] before_bracket(stream)[i]
                != BRACKET,
        before_bracket(stream).len() < stream.len() ==> stream[before_bracket(stream).len() as int]
            == BRACKET,
    decreases stream.len(),
{
    if stream.len() > 0 && stream[0] != BRACKET {
        let rest = stream.drop_first();
        lemma_before_bracket(rest);
        let found = before_bracket(stream);
        assert(found =~= seq![stream[0]] + before_bracket(rest));
        assert(found =~= stream.take(found.len() as int));
        assert forall|i: int| 0 <= i < found.len() implies #[trigger] found[i] != BRACKET by {
            if i > 0 {
                assert(found[i] == before_bracket(rest)[i - 1]);
            }
        }
    }
}

/// The bytes in front of a message are collected, and nothing is done about them.
proof fn lemma_prefix_collected(client: SmartDeviceClient, prefix: Seq<u8>, bytes: Seq<u8>)
    requires
        forall|i: int| 0 <= i < bytes.len() ==> #[trigger] bytes[i] != BRACKET,
    ensures
        client.course(PhaseView::Prefix(prefix), byte_events(bytes)) is Some,
        client.course(PhaseView::Prefix(prefix), byte_events(bytes))->0.phase == PhaseView::Prefix(
            prefix + bytes,
        ),
        client.course(PhaseView::Prefix(prefix), byte_events(bytes))->0.effects.len() == 0,
    decreases bytes.len(),
{
    reveal_with_fuel(SmartDeviceClient::course, 2);
    let events = byte_events(bytes);
    if bytes.len() == 0 {
        assert(prefix + bytes =~= prefix);
    } else {
        assert(bytes[0] != BRACKET);
        assert(events.drop_first() =~= byte_events(bytes.drop_first()));
        assert forall|i: int| 0 <= i < bytes.drop_first().len() implies #[trigger] bytes.drop_first()[i]
            != BRACKET by {
            assert(bytes.drop_first()[i] == bytes[i + 1]);
        }
        lemma_prefix_collected(client, prefix.push(bytes[0]), bytes.drop_first());
        assert(prefix.push(bytes[0]) + bytes.drop_first() =~= prefix + bytes);
    }
}

/// The course ends in the step, where there is one.
spec fn leads_to(course: Option<Course>, step: Option<StepView>) -> bool {
    match step {
        None => course is None,
        Some(step) => ends_in(course, step),
    }
}

/// Nothing was done so far, and the session waits in a phase.
spec fn waits_quietly(course: Option<Course>, phase: PhaseView) -> bool {
    course is Some && course->0.phase == phase && course->0.effects.len() == 0
}

/// After events about which nothing was done, one more event leads to its step.
proof fn lemma_quiet_course_goes_on(
    client: SmartDeviceClient,
    events: Seq<EventView>,
    phase: PhaseView,
    event: EventView,
)
    requires
        waits_quietly(client.course(PhaseView::Idle, events), phase),
    ensures
        leads_to(
            client.course(PhaseView::Idle, events + seq![event]),
            client.next(phase, event),
        ),
{
    lemma_course_of_one(client, phase, event);
    lemma_course_goes_on(client, PhaseView::Idle, events, seq![event]);
    if let Some(step) = client.next(phase, event) {
        let quiet = client.course(PhaseView::Idle, events)->0;
        assert(quiet.effects + step.effects =~= step.effects);
    }
}

/// The bytes in front of a bracket are collected after the beginning of a session.
proof fn lemma_quiet_until_bracket(client: SmartDeviceClient, stream: Seq<u8>)
    ensures
        waits_quietly(
            client.course(
                PhaseView::Idle,
                seq![EventView::Continue] + byte_events(before_bracket(stream)),
            ),
            PhaseView::Prefix(before_bracket(stream)),
        ),
{
    let prefix = before_bracket(stream);
    lemma_before_bracket(stream);
    lemma_course_of_one(client, PhaseView::Idle, EventView::Continue);
    lemma_prefix_collected(client, seq![], prefix);
    assert(Seq::<u8>::empty() + prefix =~= prefix);
    lemma_course_goes_on(
        client,
        PhaseView::Idle,
        seq![EventView::Continue],
        byte_events(prefix),
    );
}

/// The bracket leads to the step after it.
proof fn lemma_course_at_bracket(client: SmartDeviceClient, stream: Seq<u8>)
    ensures
        leads_to(
            client.course(
                PhaseView::Idle,
                seq![EventView::Continue] + byte_events(before_bracket(stream)) + seq![
                    EventView::Byte(BRACKET),
                ],
            ),
            client.prefixed(before_bracket(stream), BRACKET),
        ),
{
    let prefix = before_bracket(stream);
    lemma_quiet_until_bracket(client, stream);
    lemma_quiet_course_goes_on(
        client,
        seq![EventView::Continue] + byte_events(prefix),
        PhaseView::Prefix(prefix),
        EventView::Byte(BRACKET),
    );
    assert(client.next(PhaseView::Prefix(prefix), EventView::Byte(BRACKET)) == client.prefixed(
        prefix,
        BRACKET,
    ));
}

/// The rest of the message leads to the step after it.
proof fn lemma_course_at_message(client: SmartDeviceClient, stream: Seq<u8>, rest: Seq<u8>)
    requires
        announced_length(before_bracket(stream)) is Ok,
        announced_length(before_bracket(stream))->Ok_0 == rest.len() + 1,
        rest.len() <= u64::MAX,
    ensures
        leads_to(
            client.course(
                PhaseView::Idle,
                seq![EventView::Continue] + byte_events(before_bracket(stream)) + seq![
                    EventView::Byte(BRACKET),
                ] + seq![EventView::Bytes(rest)],
            ),
            client.received(rest),
        ),
{
    let prefix = before_bracket(stream);
    let phase = PhaseView::Body(rest.len() as u64);
    lemma_course_at_bracket(client, stream);
    lemma_quiet_course_goes_on(
        client,
        seq![EventView::Continue] + byte_events(prefix) + seq![EventView::Byte(BRACKET)],
        phase,
        EventView::Bytes(rest),
    );
    assert(client.next(phase, EventView::Bytes(rest)) == client.received(rest));
}

/// What the course comes to by what the stream holds.
pub open spec fn follows(
    client: SmartDeviceClient,
    course: Option<Course>,
    reading: Reading,
) -> bool {
    match reading {
        Reading::Command(opcode, message, _) => ends_in(
            course,
            client.dispatched(opcode, message),
        ),
        Reading::Failed(error) => ends_in(course, client.read_failed(error)),
        Reading::Incomplete => course is Some && course->0.effects.len() == 0 && (
        course->0.phase is Prefix || course->0.phase is Body),
        Reading::Undefined => course is None,
    }
}

/// The course ends where the bytes of the stream end: in front of the bracket, with the bracket, or
/// with the message.
spec fn follows_bytes(
    client: SmartDeviceClient,
    course: Option<Course>,
    stream: Seq<u8>,
) -> bool {
    let prefix = before_bracket(stream);
    let length = announced_length(prefix);
    if prefix.len() == stream.len() {
        waits_quietly(course, PhaseView::Prefix(prefix))
    } else if length is Ok && 0 < length->Ok_0 && prefix.len() + length->Ok_0 <= stream.len() {
        leads_to(
            course,
            client.received(
                stream.subrange((prefix.len() + 1) as int, (prefix.len() + length->Ok_0) as int),
            ),
        )
    } else {
        leads_to(course, client.prefixed(prefix, BRACKET))
    }
}

/// The step after the bracket or after the message is the one for what the stream holds.
proof fn lemma_reading_followed(client: SmartDeviceClient, stream: Seq<u8>, course: Option<Course>)
    requires
        follows_bytes(client, course, stream),
    ensures
        follows(client, course, reading(stream)),
{
    let prefix = before_bracket(stream);
    let at = prefix.len() as int;
    lemma_before_bracket(stream);
    if let Ok(length) = announced_length(prefix) {
        if 0 < length && at + length <= stream.len() {
            assert(seq![BRACKET] + stream.subrange(at + 1, at + length) =~= stream.subrange(
                at,
                at + length,
            ));
        }
    }
}

/// The bytes of a stream lead to the step where they end.
proof fn lemma_bytes_followed(client: SmartDeviceClient, stream: Seq<u8>)
    ensures
        follows_bytes(client, client.course(PhaseView::Idle, arrivals(stream)), stream),
{
    let prefix = before_bracket(stream);
    let at = prefix.len() as int;
    lemma_before_bracket(stream);
    if at == stream.len() {
        lemma_quiet_until_bracket(client, stream);
    } else if announced_length(prefix) is Ok && 0 < announced_length(prefix)->Ok_0 && at
        + announced_length(prefix)->Ok_0 <= stream.len() {
        let length = announced_length(prefix)->Ok_0;
        law_number_is_value_of_digits(prefix, usize::MAX as nat);
        lemma_course_at_message(client, stream, stream.subrange(at + 1, at + length));
    } else {
        lemma_course_at_bracket(client, stream);
    }
}

/// A session takes from a stream what the stream holds. A command is carried out as soon as it
/// is complete; where the stream holds none, its failure is reported; where it ends before the
/// command does, nothing is done yet.
pub proof fn law_session_takes_commands_from_the_stream(client: SmartDeviceClient, stream: Seq<u8>)
    ensures
        follows(client, client.course(PhaseView::Idle, arrivals(stream)), reading(stream)),
{
    lemma_bytes_followed(client, stream);
    lemma_reading_followed(client, stream, client.course(PhaseView::Idle, arrivals(stream)));
}

/// The request sends calibre an answer: a document, or what went wrong.
pub open spec fn is_reply(request: RequestView) -> bool {
    exists|reply: Opcode, tree: JsonTree|
        (reply == Opcode::OK || reply == Opcode::Error) && request == RequestView::Send(
            frame(json_text(#[trigger] command_tree(reply, tree))),
        )
}

/// Calibre waits for an answer to the operation.
pub open spec fn is_question(opcode: Opcode) -> bool {
    match opcode {
        Opcode::SetLibraryInfo => true,
        Opcode::DeleteBook => true,
        Opcode::DisplayMessage => true,
        Opcode::FreeSpace => true,
        Opcode::TotalSpace => true,
        Opcode::GetBookFileSegment => true,
        Opcode::GetBookCount => true,
        Opcode::GetDeviceInformation => true,
        Opcode::GetInitializationInfo => true,
        Opcode::SetCalibreDeviceInfo => true,
        Opcode::SetCalibreDeviceName => true,
        _ => false,
    }
}

/// The operation is not answered.
pub open spec fn is_announcement(opcode: Opcode) -> bool {
    match opcode {
        Opcode::CalibreBusy => true,
        Opcode::GetBookMetadata => true,
        Opcode::SendBooklists => true,
        Opcode::SendBookMetadata => true,
        Opcode::OK => true,
        Opcode::BookDone => true,
        Opcode::Error => true,
        _ => false,
    }
}

/// The event says that a file was written, or that a file that was read holds JSON or does not
/// exist, or it is the outcome of a search or of the question for the size of a volume.
pub open spec fn informs(event: EventView) -> bool {
    match event {
        EventView::Volume(_) => true,
        EventView::Books(_) => true,
        EventView::Contents(None) => true,
        EventView::Contents(Some(bytes)) => json_read(bytes) is Ok,
        EventView::Stored(_) => true,
        _ => false,
    }
}

/// The request asks for something that an answer depends on.
pub open spec fn is_inquiry(request: RequestView) -> bool {
    match request {
        RequestView::Volume(_) => true,
        RequestView::Search { .. } => true,
        RequestView::ReadFile(_) => true,
        RequestView::WriteFile { .. } => true,
        _ => false,
    }
}

/// A question is answered: at once, or as soon as what the answer depends on is known. That is
/// also so where the size of the volume cannot be had or the search for books fails; only a file
/// that cannot be read or written leaves a question without an answer.
pub proof fn law_questions_are_answered(
    client: SmartDeviceClient,
    opcode: Opcode,
    message: JsonTree,
    event: EventView,
)
    requires
        is_question(opcode),
    ensures
        ({
            let step = client.dispatched(opcode, message);
            &&& is_reply(step.request) || is_inquiry(step.request)
            &&& is_inquiry(step.request) && can_come_of(event, step.request) && informs(event)
                && !is_undefined(step.phase, event) ==> client.next(step.phase, event) is Some
                && is_reply(client.next(step.phase, event)->0.request)
        }),
{
    let step = client.dispatched(opcode, message);
    if let EventView::Books(Some(books)) = event {
        let frames = book_frames(books);
        assert(frames[0] == frame(
            json_text(command_tree(Opcode::OK, book_count(books.len() as int))),
        ));
    }
}

/// An announcement is not answered: the session is at once ready for the next command.
pub proof fn law_announcements_are_not_answered(
    client: SmartDeviceClient,
    opcode: Opcode,
    message: JsonTree,
)
    requires
        is_announcement(opcode),
    ensures
        client.dispatched(opcode, message) == idle(client.announcement(opcode, message)),
{
}

/// A message without an operation is answered unless it only tells how many books need more
/// metadata.
pub proof fn law_noop_is_answered_unless_it_counts(client: SmartDeviceClient, message: JsonTree)
    ensures
        is_reply(client.dispatched(Opcode::NOOP, message).request) <==> message.field(
            "ejecting"@,
        ) is Some || message.field("count"@) is None,
{
}

/// A failure that calibre is not told about is shown to the user, at every level of the logger,
/// and the session is ready for the next command.
pub proof fn law_failures_are_shown(
    client: SmartDeviceClient,
    opcode: Opcode,
    error: ClientErrorView,
    effects: Seq<EffectView>,
)
    requires
        !(error is ProtocolError),
    ensures
        ({
            let step = client.concluded(opcode, Err(error), effects);
            &&& step.phase is Idle
            &&& step.request is Poll
            &&& step.effects.last() == EffectView::Notify(
                "Error communicating with calibre... "@ + error.report(),
            )
        }),
{
    let words = seq!["Error communicating with calibre... "@ + error.report()];
    law_errors_are_always_shown(client.logger, words);
    assert(joined_with(words, seq![' ']) == words[0]);
}

/// Calibre's name for the device is read from the file to which it was written.
pub proof fn law_device_name_is_read_where_it_was_written(
    client: SmartDeviceClient,
    given: JsonTree,
    asked: JsonTree,
)
    ensures
        client.dispatched(Opcode::SetCalibreDeviceInfo, given).request matches
            RequestView::WriteFile { path, .. } && client.dispatched(
            Opcode::GetDeviceInformation,
            asked,
        ).request == RequestView::ReadFile(path),
{
}

/// So many times something was sent.
pub open spec fn sent(times: nat) -> Seq<EventView> {
    Seq::new(times, |i: int| EventView::Sent)
}

/// The requests to send some frames.
pub open spec fn sends(frames: Seq<Seq<u8>>) -> Seq<RequestView> {
    frames.map_values(|bytes: Seq<u8>| RequestView::Send(bytes))
}

/// Frames that wait are sent one after the other.
proof fn lemma_frames_sent(client: SmartDeviceClient, frames: Seq<Seq<u8>>)
    ensures
        client.course(PhaseView::BookStream(frames), sent(frames.len() + 1)) is Some,
        client.course(PhaseView::BookStream(frames), sent(frames.len() + 1))->0 == (Course {
            phase: PhaseView::Idle,
            effects: seq![],
            requests: sends(frames).push(RequestView::Poll),
        }),
    decreases frames.len(),
{
    let events = sent(frames.len() + 1);
    let phase = PhaseView::BookStream(frames);
    assert(events =~= seq![EventView::Sent] + sent(frames.len()));
    lemma_course_of_one(client, phase, EventView::Sent);
    lemma_course_goes_on(client, phase, seq![EventView::Sent], sent(frames.len()));
    if frames.len() == 0 {
        assert(sent(0) =~= seq![]);
        assert(events =~= seq![EventView::Sent]);
        assert(sends(frames).push(RequestView::Poll) =~= seq![RequestView::Poll]);
    } else {
        let rest = frames.drop_first();
        lemma_frames_sent(client, rest);
        assert(seq![RequestView::Send(frames[0])] + sends(rest).push(RequestView::Poll) =~= sends(
            frames,
        ).push(RequestView::Poll));
        assert(Seq::<EffectView>::empty() + Seq::<EffectView>::empty() =~= seq![]);
    }
}

/// The list of books is sent whole: their number, and then as many descriptions, in the order in
/// which the books were found. The session is then ready for the next command.
pub proof fn law_book_list_is_sent_whole(client: SmartDeviceClient, books: Seq<Info>)
    ensures
        client.course(
            PhaseView::BookSearch,
            seq![EventView::Books(Some(books))] + sent(books.len() + 1),
        ) is Some,
        client.course(
            PhaseView::BookSearch,
            seq![EventView::Books(Some(books))] + sent(books.len() + 1),
        )->0 == (Course {
            phase: PhaseView::Idle,
            effects: seq![],
            requests: sends(book_frames(books)).push(RequestView::Poll),
        }),
        book_frames(books).len() == books.len() + 1,
        book_frames(books)[0] == frame(
            json_text(command_tree(Opcode::OK, book_count(books.len() as int))),
        ),
        forall|i: int|
            0 <= i < books.len() ==> #[trigger] book_frames(books)[i + 1] == frame(
                json_text(command_tree(Opcode::OK, book_entry(books[i]@))),
            ),
{
    let frames = book_frames(books);
    let found = EventView::Books(Some(books));
    lemma_course_of_one(client, PhaseView::BookSearch, found);
    lemma_frames_sent(client, frames.drop_first());
    lemma_course_goes_on(client, PhaseView::BookSearch, seq![found], sent(books.len() + 1));
    assert(seq![RequestView::Send(frames[0])] + sends(frames.drop_first()).push(RequestView::Poll)
        =~= sends(frames).push(RequestView::Poll));
    assert(Seq::<EffectView>::empty() + Seq::<EffectView>::empty() =~= seq![]);
}

/// A book that calibre sends is stored as it came in, where calibre wants it below the directory
/// for books, and the reading application is told of it where that is in the library. Calibre is
/// not answered, as the client has announced.
pub proof fn law_sent_book_is_stored(
    client: SmartDeviceClient,
    message: JsonTree,
    metadata: Metadata,
    book: Seq<u8>,
    size: u64,
)
    requires
        announced_book(message) is Ok,
        announced_book(message)->Ok_0.2 is Some,
    ensures
        ({
            let (length, description, lpath) = announced_book(message)->Ok_0;
            let path = joined(client.save_path@, lpath->0);
            let step = client.dispatched(Opcode::SendBook, message);
            let course = client.course(
                step.phase,
                seq![EventView::Described(metadata), EventView::Bytes(book), EventView::Stored(
                    size,
                )],
            );
            &&& step.request == RequestView::Describe(json_text(description))
            &&& course is Some
            &&& course->0 == (Course {
                phase: PhaseView::Idle,
                effects: match stored_book(client.library_path@, path, metadata, size) {
                    Some(info) => seq![EffectView::AddDocument(info)],
                    None => seq![],
                },
                requests: seq![
                    RequestView::ReadExact(length),
                    RequestView::WriteFile { path, contents: book },
                    RequestView::Poll,
                ],
            })
        }),
{
    let (length, description, lpath) = announced_book(message)->Ok_0;
    let path = joined(client.save_path@, lpath->0);
    let first = client.dispatched(Opcode::SendBook, message).phase;
    let second = PhaseView::BookBody { lpath, metadata };
    let third = PhaseView::BookFile { path, metadata };
    let described = EventView::Described(metadata);
    let received = EventView::Bytes(book);
    let stored = EventView::Stored(size);
    lemma_course_of_one(client, first, described);
    lemma_course_of_one(client, second, received);
    lemma_course_of_one(client, third, stored);
    lemma_course_goes_on(client, first, seq![described], seq![received]);
    lemma_course_goes_on(client, first, seq![described] + seq![received], seq![stored]);
    assert(seq![described] + seq![received] + seq![stored] =~= seq![described, received, stored]);
    let course = client.course(first, seq![described, received, stored])->0;
    assert(course.effects =~= client.stored(path, metadata, size).effects);
    assert(course.requests =~= seq![
        RequestView::ReadExact(length),
        RequestView::WriteFile { path, contents: book },
        RequestView::Poll,
    ]);
}

/// The request tells calibre in words why a command was refused.
pub open spec fn is_refusal(request: RequestView, text: Seq<char>) -> bool {
    request == RequestView::Send(
        frame(json_text(command_tree(Opcode::Error, entry("message"@, string(text))))),
    )
}

/// Calibre is told why a command was refused: a book without a length or without a place to go
/// to, and a question for the size of a volume that cannot be had.
pub proof fn law_refusals_are_told(
    client: SmartDeviceClient,
    message: JsonTree,
    metadata: Metadata,
    book: Seq<u8>,
)
    ensures
        announced_book(message) is Err ==> is_refusal(
            client.dispatched(Opcode::SendBook, message).request,
            "You didn't send me a length!"@,
        ),
        client.next(PhaseView::BookBody { lpath: None, metadata }, EventView::Bytes(book)) matches
            Some(step) && is_refusal(step.request, "Bad or missing lpath"@),
        client.next(PhaseView::FreeSpace, EventView::Volume(None)) matches Some(step)
            && is_refusal(step.request, "Unable to get size information"@),
        client.next(PhaseView::TotalSpace, EventView::Volume(None)) matches Some(step)
            && is_refusal(step.request, "Unable to get size information"@),
{
}

/// An event that cannot come of anything that the phase waits for has no next step.
pub proof fn law_only_fitting_events_have_a_step(
    client: SmartDeviceClient,
    phase: PhaseView,
    event: EventView,
)
    requires
        event matches EventView::Bytes(bytes) ==> bytes.len() <= u64::MAX,
        forall|request: RequestView| #[trigger]
            waits_for(phase, request) ==> !can_come_of(event, request),
    ensures
        client.next(phase, event) is None,
{
    let text = Seq::<char>::empty();
    let length = match event {
        EventView::Bytes(bytes) => bytes.len() as u64,
        _ => match phase {
            PhaseView::Body(length) => length,
            _ => 0,
        },
    };
    let path = match phase {
        PhaseView::BookFile { path, .. } => path,
        _ => text,
    };
    assert(waits_for(phase, RequestView::Poll) || !(phase is Idle));
    assert(waits_for(phase, RequestView::ReadByte) || !(phase is Prefix));
    if let PhaseView::Body(expected) = phase {
        assert(waits_for(phase, RequestView::ReadExact(expected)));
    }
    assert(waits_for(phase, RequestView::ReadExact(length)) || !(phase is BookBody));
    assert(waits_for(phase, RequestView::Volume(text)) || !(phase is FreeSpace
        || phase is TotalSpace));
    assert(waits_for(phase, RequestView::Search { path, query: text }) || !(phase is BookSearch));
    assert(waits_for(phase, RequestView::Send(seq![])) || !(phase is BookStream
        || phase is Reply));
    assert(waits_for(phase, RequestView::ReadFile(text)) || !(phase is DriveInfo));
    assert(waits_for(phase, RequestView::Describe(text)) || !(phase is BookMetadata));
    assert(waits_for(phase, RequestView::WriteFile { path, contents: seq![] }) || !(
    phase is BookFile || phase is DriveInfoFile));
}

} // verus!
