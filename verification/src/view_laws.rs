//! What the values of the library stand for: each stands for all that it holds.
use crate::discovery::{DiscoveryError, DiscoveryErrorView};
use crate::decimal::NumberError;
use crate::error::{
    ClientError, ClientErrorView, ReadError, ReadErrorView, SetupError, SetupErrorView,
};
use crate::json::{Json, JsonTree};
use crate::message::Message;
use crate::metadata::Metadata;
use crate::program::{preparation_views, Preparation, PreparationView};
use crate::session::{
    byte_lists, effect_views, step_view, Effect, EffectView, Event, EventView, Phase, PhaseView,
    Request, RequestView, Step, StepView,
};
use crate::smart_device_client::{outcome_view, trees, OutcomeView, VolumeStats};
use crate::types::{Info, InfoView};
use crate::wire::Opcode;
use vstd::prelude::*;

verus! {

/// An event stands for what came in with it.
pub proof fn law_events_stand_for_what_came_in(
    byte: u8,
    bytes: Vec<u8>,
    volume: Option<VolumeStats>,
    books: Vec<Info>,
    metadata: Metadata,
    size: u64,
    cause: String,
)
    ensures
        Event::Continue@ == EventView::Continue,
        Event::Stop@ == EventView::Stop,
        Event::Byte(byte)@ == EventView::Byte(byte),
        Event::Bytes(bytes)@ == EventView::Bytes(bytes@),
        Event::Sent@ == EventView::Sent,
        Event::Volume(volume)@ == EventView::Volume(volume),
        Event::Books(Some(books))@ == EventView::Books(Some(books@)),
        Event::Books(None)@ == EventView::Books(None),
        Event::Contents(Some(bytes))@ == EventView::Contents(Some(bytes@)),
        Event::Contents(None)@ == EventView::Contents(None),
        Event::Described(metadata)@ == EventView::Described(metadata),
        Event::Stored(size)@ == EventView::Stored(size),
        Event::Malformed(cause)@ == EventView::Malformed(cause@),
        Event::Failed(cause)@ == EventView::Failed(cause@),
{
}

/// A phase stands for what it remembers.
pub proof fn law_phases_stand_for_what_they_remember(
    bytes: Vec<u8>,
    length: u64,
    frames: Vec<Vec<u8>>,
    lpath: String,
    metadata: Metadata,
    opcode: Opcode,
)
    ensures
        Phase::Idle@ == PhaseView::Idle,
        Phase::Prefix(bytes)@ == PhaseView::Prefix(bytes@),
        Phase::Body(length)@ == PhaseView::Body(length),
        Phase::FreeSpace@ == PhaseView::FreeSpace,
        Phase::TotalSpace@ == PhaseView::TotalSpace,
        Phase::BookSearch@ == PhaseView::BookSearch,
        Phase::BookStream(frames)@ == PhaseView::BookStream(
            Seq::new(frames@.len(), |i: int| frames@[i]@),
        ),
        Phase::DriveInfo@ == PhaseView::DriveInfo,
        (Phase::BookMetadata { length, lpath: Some(lpath) })@ == (PhaseView::BookMetadata {
            length,
            lpath: Some(lpath@),
        }),
        (Phase::BookMetadata { length, lpath: None })@ == (PhaseView::BookMetadata {
            length,
            lpath: None,
        }),
        (Phase::BookBody { lpath: Some(lpath), metadata })@ == (PhaseView::BookBody {
            lpath: Some(lpath@),
            metadata,
        }),
        (Phase::BookBody { lpath: None, metadata })@ == (PhaseView::BookBody {
            lpath: None,
            metadata,
        }),
        (Phase::BookFile { path: lpath, metadata })@ == (PhaseView::BookFile {
            path: lpath@,
            metadata,
        }),
        Phase::DriveInfoFile@ == PhaseView::DriveInfoFile,
        Phase::Reply(opcode)@ == PhaseView::Reply(opcode),
        Phase::Finished@ == PhaseView::Finished,
{
    assert(byte_lists(frames@) =~= Seq::new(frames@.len(), |i: int| frames@[i]@));
}

/// A request stands for what it asks for.
pub proof fn law_requests_stand_for_what_they_ask(
    length: u64,
    bytes: Vec<u8>,
    path: String,
    query: String,
)
    ensures
        Request::Poll@ == RequestView::Poll,
        Request::ReadByte@ == RequestView::ReadByte,
        Request::ReadExact(length)@ == RequestView::ReadExact(length),
        Request::Send(bytes)@ == RequestView::Send(bytes@),
        Request::Volume(path)@ == RequestView::Volume(path@),
        (Request::Search { path, query })@ == (RequestView::Search { path: path@, query: query@ }),
        Request::ReadFile(path)@ == RequestView::ReadFile(path@),
        Request::Describe(path)@ == RequestView::Describe(path@),
        (Request::WriteFile { path, contents: bytes })@ == (RequestView::WriteFile {
            path: path@,
            contents: bytes@,
        }),
        Request::Nothing@ == RequestView::Nothing,
{
}

/// An effect stands for what it does, a step for its phase, its effects in their order and its
/// request.
pub proof fn law_steps_stand_for_what_they_do(
    text: String,
    message: Message,
    info: Info,
    step: Step,
)
    ensures
        Effect::Notify(text)@ == EffectView::Notify(text@),
        Effect::Warn(text)@ == EffectView::Warn(text@),
        Effect::Tell(message)@ == EffectView::Tell(message),
        Effect::AddDocument(info)@ == EffectView::AddDocument(info@),
        info@ == (InfoView {
            title: info.title@,
            identifier: info.identifier@,
            author: info.author@,
            path: info.file.path@,
            kind: info.file.kind@,
            size: info.file.size,
            added: info.added,
        }),
        step@ == (StepView {
            phase: step.phase@,
            effects: Seq::new(step.effects@.len(), |i: int| step.effects@[i]@),
            request: step.request@,
        }),
        step_view(Some(step)) == Some(step@),
        step_view(None) is None,
{
    assert(effect_views(step.effects@) =~= Seq::new(
        step.effects@.len(),
        |i: int| step.effects@[i]@,
    ));
}

/// An error stands for its kind and its cause, and an outcome for its document or its error.
pub proof fn law_outcomes_stand_for_what_they_hold(
    json: Json,
    text: String,
    number: NumberError,
    error: ClientError,
    values: Vec<Json>,
)
    ensures
        ClientError::ProtocolError(json)@ == ClientErrorView::ProtocolError(json@),
        ClientError::ApplicationError(text)@ == ClientErrorView::ApplicationError(text@),
        ClientError::Json(text)@ == ClientErrorView::Json(text@),
        ClientError::File(text)@ == ClientErrorView::File(text@),
        ClientError::Other(text)@ == ClientErrorView::Other(text@),
        ReadError::Io(text)@ == ReadErrorView::Io(text@),
        ReadError::Utf8(text)@ == ReadErrorView::Utf8(text@),
        ReadError::Length(number)@ == ReadErrorView::Length(number),
        ReadError::Json(text)@ == ReadErrorView::Json(text@),
        ReadError::Client(error)@ == ReadErrorView::Client(error@),
        SetupError::Search(text)@ == SetupErrorView::Search(text@),
        SetupError::Client(error)@ == SetupErrorView::Client(error@),
        DiscoveryError::Utf8(text)@ == DiscoveryErrorView::Utf8(text@),
        DiscoveryError::Pattern(text)@ == DiscoveryErrorView::Pattern(text@),
        DiscoveryError::Port(number)@ == DiscoveryErrorView::Port(number),
        outcome_view(Ok(Some(json))) == OutcomeView::Ok(Some(json@)),
        outcome_view(Ok(None)) == OutcomeView::Ok(None),
        outcome_view(Err(error)) == OutcomeView::Err(error@),
        trees(values@) == Seq::new(values@.len(), |i: int| values@[i]@),
{
    assert(trees(values@) =~= Seq::<JsonTree>::new(values@.len(), |i: int| values@[i]@));
}

/// A preparation stands for what it does.
pub proof fn law_preparations_stand_for_what_they_do(text: String, plan: Vec<Preparation>)
    ensures
        Preparation::Notify(text)@ == PreparationView::Notify(text@),
        Preparation::SwitchWifiOn@ == PreparationView::SwitchWifiOn,
        Preparation::AwaitNetwork@ == PreparationView::AwaitNetwork,
        Preparation::CreateDirectory@ == PreparationView::CreateDirectory,
        preparation_views(plan@) == Seq::new(plan@.len(), |i: int| plan@[i]@),
{
    assert(preparation_views(plan@) =~= Seq::new(plan@.len(), |i: int| plan@[i]@));
}

} // verus!
