//! The prompt-processing pipeline as a state machine.
//!
//! The processing actor is the single consumer of prompt requests.  Each
//! external capability (embedding, retrieval, completion, storage, signing
//! and publication) is a suspension point, so one request's handling is a
//! sequence of decisions between outside calls.  `step` takes the current
//! state and the outcome of the last call, and returns the next state and
//! the next call to make, if any.  A failure at any step ends that request
//! alone: the failed state is terminal and asks for nothing further, and the
//! driver starts the next request from `Idle`.

use vstd::prelude::*;
use crate::config::{Config, knows_tag};
use crate::memory::MemoryRecord;
use crate::offchain::OffchainMessage;
use crate::prompt::{composed_prompt, compose_prompt};
use crate::tags::{TagPair, dup_tags};

verus! {

/// One request the processing actor consumes, made from one on-chain event.
pub struct PromptRequest {
    pub id: u64,
    pub event_tag: String,
    pub prompt_text: String,
    pub retrieval_tags: Vec<TagPair>,
    pub storage_tags: Vec<TagPair>,
    pub timestamp: u64,
}

/// Why one request's handling ended early.  Each aborts only the current
/// request; the actor goes on with the next one.
#[derive(Clone, Copy, Debug, PartialEq, Eq, Structural)]
pub enum RequestError {
    /// The request's event tag is not configured.
    TagNotFound,
    /// The embedding or completion provider failed.
    Provider,
    /// The memory store failed to retrieve or persist.
    Store,
    /// The signature scheme rejected the derived scalars.
    Signing,
    /// The relay refused or failed to transmit the message.
    Publish,
}

/// Where one request stands between two outside calls.
pub enum PipelineState {
    /// No request is mid-pipeline.
    Idle,
    /// The request's prompt text is out for embedding.
    AwaitQueryEmbedding { req: PromptRequest },
    /// The query vector is out for similarity retrieval.
    AwaitMemories { req: PromptRequest },
    /// The augmented prompt is out for completion.
    AwaitCompletion { req: PromptRequest },
    /// The generated response is out for embedding.
    AwaitResponseEmbedding { req: PromptRequest, response: String },
    /// The new memory record is out for persistence.
    AwaitStore { req: PromptRequest, response: String },
    /// The signed message is out for publication.
    AwaitPublish { req: PromptRequest, response: String },
    /// The request was handled completely.
    Done { request_id: u64 },
    /// The request was abandoned; nothing further happens for it.
    Failed { request_id: u64, error: RequestError },
}

/// What the driver reports back to the pipeline: a new request, or the
/// outcome of the call the pipeline asked for (`None`/`false` on failure).
pub enum PipelineEvent {
    Request { req: PromptRequest },
    QueryEmbedding { result: Option<Vec<i32>> },
    Memories { result: Option<Vec<String>> },
    Completion { result: Option<String> },
    ResponseEmbedding { result: Option<Vec<i32>> },
    StoreDone { ok: bool },
    PublishDone { ok: bool },
}

/// The next outside call the driver must perform, if any.
pub enum PipelineAction {
    /// Ask the provider for the embedding of `text`.
    Embed { text: String },
    /// Ask the store for up to `limit` similar memories.
    Retrieve { query: Vec<i32>, filter: Vec<TagPair>, limit: usize },
    /// Ask the provider for a completion of `prompt`.
    Complete { prompt: String },
    /// Persist `record` in the memory store.
    StoreMemory { record: MemoryRecord },
    /// Sign `message` and hand it to the relay.
    SignAndPublish { message: OffchainMessage },
}

/// Builds one prompt request from an already-extracted event: the assigned
/// id, the tag, the prompt text, the key-value pairs (used both as the
/// retrieval filter and as the storage tags), and the event's timestamp.  A
/// malformed event — an empty tag or empty prompt text — yields `None`; the
/// ingestion actor logs and skips it without blocking later events.
pub fn build_request(
    id: u64,
    event_tag: String,
    prompt_text: String,
    key_values: Vec<TagPair>,
    timestamp: u64,
) -> (r: Option<PromptRequest>)
    ensures
        match r {
            Some(req) => event_tag@.len() > 0 && prompt_text@.len() > 0 && req.id == id
                && req.event_tag@ == event_tag@ && req.prompt_text@ == prompt_text@
                && req.retrieval_tags@ == key_values@ && req.storage_tags@ == key_values@
                && req.timestamp == timestamp,
            None => event_tag@.len() == 0 || prompt_text@.len() == 0,
        },
{
    if event_tag.as_str().is_empty() || prompt_text.as_str().is_empty() {
        None
    } else {
        let retrieval_tags = dup_tags(&key_values);
        Some(
            PromptRequest {
                id,
                event_tag,
                prompt_text,
                retrieval_tags,
                storage_tags: key_values,
                timestamp,
            },
        )
    }
}

/// The transition relation of the pipeline: from state `s` under event `ev`,
/// the next state is `s2` and the requested call is `a`.  A stray event (one
/// that does not answer the call the state is waiting for) changes nothing.
pub open spec fn step_rel(
    c: Config,
    s: PipelineState,
    ev: PipelineEvent,
    s2: PipelineState,
    a: Option<PipelineAction>,
) -> bool {
    match (s, ev) {
        (PipelineState::Idle, PipelineEvent::Request { req }) => {
            if knows_tag(c, req.event_tag@) {
                (s2 matches PipelineState::AwaitQueryEmbedding { req: r2 } && r2 == req) && (
                a matches Some(PipelineAction::Embed { text }) && text@ == req.prompt_text@)
            } else {
                s2 == (PipelineState::Failed {
                    request_id: req.id,
                    error: RequestError::TagNotFound,
                }) && a is None
            }
        },
        (
            PipelineState::AwaitQueryEmbedding { req },
            PipelineEvent::QueryEmbedding { result },
        ) => match result {
            Some(qv) => (s2 matches PipelineState::AwaitMemories { req: r2 } && r2 == req) && (
            a matches Some(PipelineAction::Retrieve { query, filter, limit } ) && query == qv
                && filter@ == req.retrieval_tags@ && limit == c.retrieval_limit),
            None => s2 == (PipelineState::Failed {
                request_id: req.id,
                error: RequestError::Provider,
            }) && a is None,
        },
        (PipelineState::AwaitMemories { req }, PipelineEvent::Memories { result }) => match result {
            Some(mems) => (s2 matches PipelineState::AwaitCompletion { req: r2 } && r2 == req) && (
            a matches Some(PipelineAction::Complete { prompt }) && prompt@ == composed_prompt(
                c.story@,
                req.prompt_text@,
                mems@,
            )),
            None => s2 == (PipelineState::Failed {
                request_id: req.id,
                error: RequestError::Store,
            }) && a is None,
        },
        (PipelineState::AwaitCompletion { req }, PipelineEvent::Completion { result }) => match result {
            Some(response) => (s2 matches PipelineState::AwaitResponseEmbedding {
                req: r2,
                response: resp2,
            } && r2 == req && resp2 == response) && (a matches Some(PipelineAction::Embed { text })
                && text@ == response@),
            None => s2 == (PipelineState::Failed {
                request_id: req.id,
                error: RequestError::Provider,
            }) && a is None,
        },
        (
            PipelineState::AwaitResponseEmbedding { req, response },
            PipelineEvent::ResponseEmbedding { result },
        ) => match result {
            Some(sv) => (s2 matches PipelineState::AwaitStore { req: r2, response: resp2 } && r2
                == req && resp2 == response) && (a matches Some(
                PipelineAction::StoreMemory { record },
            ) && record.text@ == response@ && record.embedding == sv && record.tags@
                == req.storage_tags@ && record.timestamp == req.timestamp),
            None => s2 == (PipelineState::Failed {
                request_id: req.id,
                error: RequestError::Provider,
            }) && a is None,
        },
        (PipelineState::AwaitStore { req, response }, PipelineEvent::StoreDone { ok }) => {
            if ok {
                (s2 matches PipelineState::AwaitPublish { req: r2, response: resp2 } && r2 == req
                    && resp2 == response) && (a matches Some(
                    PipelineAction::SignAndPublish { message },
                ) && message.agent_name@ == c.agent_name@ && message.request_id == req.id
                    && message.event_tag@ == req.event_tag@ && message.response_text@ == response@
                    && message.timestamp == req.timestamp)
            } else {
                s2 == (PipelineState::Failed {
                    request_id: req.id,
                    error: RequestError::Store,
                }) && a is None
            }
        },
        (PipelineState::AwaitPublish { req, response: _ }, PipelineEvent::PublishDone { ok }) => {
            if ok {
                s2 == (PipelineState::Done { request_id: req.id }) && a is None
            } else {
                s2 == (PipelineState::Failed {
                    request_id: req.id,
                    error: RequestError::Publish,
                }) && a is None
            }
        },
        (other, _) => s2 == other && a is None,
    }
}

/// One decision of the processing actor.
pub fn step(c: &Config, state: PipelineState, event: PipelineEvent) -> (r: (
    PipelineState,
    Option<PipelineAction>,
))
    ensures
        step_rel(*c, state, event, r.0, r.1),
{
    match (state, event) {
        (PipelineState::Idle, PipelineEvent::Request { req }) => {
            if c.find_event(req.event_tag.as_str()).is_some() {
                let text = req.prompt_text.clone();
                (
                    PipelineState::AwaitQueryEmbedding { req },
                    Some(PipelineAction::Embed { text }),
                )
            } else {
                (
                    PipelineState::Failed {
                        request_id: req.id,
                        error: RequestError::TagNotFound,
                    },
                    None,
                )
            }
        },
        (
            PipelineState::AwaitQueryEmbedding { req },
            PipelineEvent::QueryEmbedding { result },
        ) => match result {
            Some(qv) => {
                let filter = dup_tags(&req.retrieval_tags);
                let limit = c.retrieval_limit;
                (
                    PipelineState::AwaitMemories { req },
                    Some(PipelineAction::Retrieve { query: qv, filter, limit }),
                )
            },
            None => (
                PipelineState::Failed { request_id: req.id, error: RequestError::Provider },
                None,
            ),
        },
        (PipelineState::AwaitMemories { req }, PipelineEvent::Memories { result }) => match result {
            Some(mems) => {
                let prompt = compose_prompt(c.story.as_str(), req.prompt_text.as_str(), &mems);
                (
                    PipelineState::AwaitCompletion { req },
                    Some(PipelineAction::Complete { prompt }),
                )
            },
            None => (
                PipelineState::Failed { request_id: req.id, error: RequestError::Store },
                None,
            ),
        },
        (PipelineState::AwaitCompletion { req }, PipelineEvent::Completion { result }) => match result {
            Some(response) => {
                let text = response.clone();
                (
                    PipelineState::AwaitResponseEmbedding { req, response },
                    Some(PipelineAction::Embed { text }),
                )
            },
            None => (
                PipelineState::Failed { request_id: req.id, error: RequestError::Provider },
                None,
            ),
        },
        (
            PipelineState::AwaitResponseEmbedding { req, response },
            PipelineEvent::ResponseEmbedding { result },
        ) => match result {
            Some(sv) => {
                let record = MemoryRecord {
                    text: response.clone(),
                    embedding: sv,
                    tags: dup_tags(&req.storage_tags),
                    timestamp: req.timestamp,
                };
                (
                    PipelineState::AwaitStore { req, response },
                    Some(PipelineAction::StoreMemory { record }),
                )
            },
            None => (
                PipelineState::Failed { request_id: req.id, error: RequestError::Provider },
                None,
            ),
        },
        (PipelineState::AwaitStore { req, response }, PipelineEvent::StoreDone { ok }) => {
            if ok {
                let message = OffchainMessage {
                    agent_name: c.agent_name.clone(),
                    request_id: req.id,
                    event_tag: req.event_tag.clone(),
                    response_text: response.clone(),
                    timestamp: req.timestamp,
                };
                (
                    PipelineState::AwaitPublish { req, response },
                    Some(PipelineAction::SignAndPublish { message }),
                )
            } else {
                (
                    PipelineState::Failed { request_id: req.id, error: RequestError::Store },
                    None,
                )
            }
        },
        (PipelineState::AwaitPublish { req, response }, PipelineEvent::PublishDone { ok }) => {
            if ok {
                (PipelineState::Done { request_id: req.id }, None)
            } else {
                (
                    PipelineState::Failed { request_id: req.id, error: RequestError::Publish },
                    None,
                )
            }
        },
        (other, _) => (other, None),
    }
}

/// A request with an unknown event tag fails at resolution, before any
/// provider, store, signing or publish call is requested: the transition
/// asks for no action and the failed state is terminal.
pub proof fn lemma_unknown_tag_no_side_effects(
    c: Config,
    req: PromptRequest,
    s2: PipelineState,
    a: Option<PipelineAction>,
)
    requires
        !knows_tag(c, req.event_tag@),
        step_rel(c, PipelineState::Idle, PipelineEvent::Request { req }, s2, a),
    ensures
        s2 == (PipelineState::Failed { request_id: req.id, error: RequestError::TagNotFound }),
        a is None,
{
}

/// A failed request never comes back: from `Failed` every event leaves the
/// state unchanged and requests no call, so one request's failure cannot
/// touch the provider, the store or the relay, nor any later request.
pub proof fn lemma_failed_is_terminal(
    c: Config,
    request_id: u64,
    error: RequestError,
    ev: PipelineEvent,
    s2: PipelineState,
    a: Option<PipelineAction>,
)
    requires
        step_rel(c, PipelineState::Failed { request_id, error }, ev, s2, a),
    ensures
        s2 == (PipelineState::Failed { request_id, error }),
        a is None,
{
}

} // verus!
