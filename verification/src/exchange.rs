//! The request orchestrator and the result materializer.
//!
//! One exchange builds the outgoing envelope from the durable context log
//! plus the pending user turn, performs the blocking call (outside this
//! library), and classifies the status.  A failed (non-2xx) exchange
//! leaves every durable file exactly as it was.  Any completed 2xx call
//! overwrites the response snapshot with the raw body; when the body
//! yields a reply and the log parses, the user turn and the model turn
//! holding the touch-up-normalized reply are appended to the context log
//! in that order and a rendered transcript entry is appended to the
//! result artifact.

use vstd::prelude::*;

verus! {

use crate::CoreError;
use crate::context::{
    Content,
    Context,
    InlineData,
    Role,
    TurnView,
    append_turn,
    add_model_context,
    exchange_turns,
    text_turn,
    user_image_turn,
};
use crate::json::{json_of_context, serialize_context, serialize_context_with_extra, sp_context};
use crate::normalize::{spec_normalize_reply, spec_touch_up};
use crate::session::{SessionFiles, SessionFilesView};
use crate::utils::{append_bytes, append_str, bytes_of, copy_bytes, str_bytes};

// ---------------------------------------------------------------------------
// Status classification and the request envelope.
// ---------------------------------------------------------------------------

/// A 2xx status is success; anything else is a failed request.
pub open spec fn spec_is_success(status: u32) -> bool {
    200 <= status <= 299
}

/// Classifies the HTTP outcome of an exchange.
pub fn is_success(status: u32) -> (r: bool)
    ensures
        r == spec_is_success(status),
{
    200 <= status && status <= 299
}

/// The generation endpoint with the API key as its query credential.
pub fn request_url(api: &Vec<u8>) -> (r: Vec<u8>)
    ensures
        r@ == str_bytes(
            "https://generativelanguage.googleapis.com/v1beta/models/gemini-1.5-flash-latest:generateContent?key=",
        ) + api@,
{
    let mut r = bytes_of(
        "https://generativelanguage.googleapis.com/v1beta/models/gemini-1.5-flash-latest:generateContent?key=",
    );
    append_bytes(&mut r, api);
    r
}

/// The pending user turn of one exchange: the query text, with the inlined
/// attachment after it when one is supplied.
pub open spec fn spec_pending_turn(query: Seq<u8>, attachment: Option<(Seq<u8>, Seq<u8>)>) -> TurnView {
    match attachment {
        Some((mime, data)) => user_image_turn(query, mime, data),
        None => text_turn(Role::User, query),
    }
}

/// The view of an optional inlined attachment: its MIME type and payload.
pub open spec fn spec_attachment_view(attachment: Option<InlineData>) -> Option<(Seq<u8>, Seq<u8>)> {
    match attachment {
        Some(a) => Some((a.mimeType@, a.data@)),
        None => None,
    }
}

/// Builds the pending user turn.
pub fn pending_user_turn(query: Vec<u8>, attachment: Option<InlineData>) -> (r: Content)
    ensures
        r@ == spec_pending_turn(query@, spec_attachment_view(attachment)),
{
    let ghost q = query@;
    match attachment {
        Some(a) => {
            let ghost m = a.mimeType@;
            let ghost d = a.data@;
            let mut parts: Vec<crate::context::Part> = Vec::new();
            parts.push(crate::context::Part::Text { text: query });
            parts.push(crate::context::Part::InlineData { inlineData: a });
            let turn = Content { parts, role: Role::User };
            proof {
                assert(turn@.parts =~= user_image_turn(q, m, d).parts);
            }
            turn
        },
        None => {
            let mut parts: Vec<crate::context::Part> = Vec::new();
            parts.push(crate::context::Part::Text { text: query });
            let turn = Content { parts, role: Role::User };
            proof {
                assert(turn@.parts =~= text_turn(Role::User, q).parts);
            }
            turn
        },
    }
}

/// Builds the outgoing request body: the durable history with the pending
/// user turn appended in memory, serialized as the envelope.  The log
/// itself is not touched; the turn is persisted only after success.
pub fn build_request_body(context: &Context, query: Vec<u8>, attachment: Option<InlineData>) -> (r:
    Vec<u8>)
    ensures
        r@ == json_of_context(
            context@.push(spec_pending_turn(query@, spec_attachment_view(attachment))),
        ),
{
    let turn = pending_user_turn(query, attachment);
    serialize_context_with_extra(context, &turn)
}

// ---------------------------------------------------------------------------
// The state machine of one exchange.
// ---------------------------------------------------------------------------

/// The phases of one exchange.  `Sending` is the only phase with
/// outstanding I/O, and one process invocation runs exactly one exchange.
#[derive(Clone, Copy, Debug, PartialEq, Eq, Structural)]
pub enum ExchangePhase {
    Idle,
    Sending,
    Persisting,
}

/// The events that drive one exchange.
#[derive(Clone, Copy, Debug, PartialEq, Eq, Structural)]
pub enum ExchangeEvent {
    /// The request was handed to the worker.
    Dispatch,
    /// The worker finished and the status code is known.
    Finished(u32),
    /// The durable appends completed.
    Persisted,
}

/// One step of the exchange state machine: idle goes to sending on
/// dispatch; sending goes to persisting on a successful status and back to
/// idle on a failed one; persisting returns to idle once the durable
/// appends are done.  Any other pairing leaves the phase unchanged.
pub fn next_phase(phase: ExchangePhase, event: ExchangeEvent) -> (r: ExchangePhase)
    ensures
        phase == ExchangePhase::Idle && event == ExchangeEvent::Dispatch ==> r
            == ExchangePhase::Sending,
        forall|status: u32|
            phase == ExchangePhase::Sending && event == ExchangeEvent::Finished(status) ==> r == (
            if spec_is_success(status) {
                ExchangePhase::Persisting
            } else {
                ExchangePhase::Idle
            }),
        phase == ExchangePhase::Persisting && event == ExchangeEvent::Persisted ==> r
            == ExchangePhase::Idle,
        !(phase == ExchangePhase::Idle && event == ExchangeEvent::Dispatch) && !(phase
            == ExchangePhase::Sending && event matches ExchangeEvent::Finished(_)) && !(phase
            == ExchangePhase::Persisting && event == ExchangeEvent::Persisted) ==> r == phase,
{
    match (phase, event) {
        (ExchangePhase::Idle, ExchangeEvent::Dispatch) => ExchangePhase::Sending,
        (ExchangePhase::Sending, ExchangeEvent::Finished(status)) => {
            if is_success(status) {
                ExchangePhase::Persisting
            } else {
                ExchangePhase::Idle
            }
        },
        (ExchangePhase::Persisting, ExchangeEvent::Persisted) => ExchangePhase::Idle,
        (p, _) => p,
    }
}

// ---------------------------------------------------------------------------
// The rendered transcript entry.
// ---------------------------------------------------------------------------

/// One transcript entry: a prompt header, an image reference line when an
/// attachment was used, the normalized body, and a trailing blank line.
pub open spec fn spec_entry(query: Seq<u8>, image_ref: Option<Seq<u8>>, body: Seq<u8>) -> Seq<u8> {
    match image_ref {
        Some(p) => str_bytes("\n# Prompt : ") + query + str_bytes(
            "\n## Image :\n![uploaded image](",
        ) + p + str_bytes(")\n\n") + body + str_bytes("\n\n"),
        None => str_bytes("\n# Prompt : ") + query + str_bytes("\n\n") + body + str_bytes("\n\n"),
    }
}

/// Renders one transcript entry.
pub fn render_entry(query: &Vec<u8>, image_ref: &Option<Vec<u8>>, body: &Vec<u8>) -> (r: Vec<u8>)
    ensures
        r@ == spec_entry(
            query@,
            match image_ref {
                Some(p) => Some(p@),
                None => None,
            },
            body@,
        ),
{
    let mut r = bytes_of("\n# Prompt : ");
    append_bytes(&mut r, query);
    match image_ref {
        Some(p) => {
            append_str(&mut r, "\n## Image :\n![uploaded image](");
            append_bytes(&mut r, p);
            append_str(&mut r, ")\n\n");
        },
        None => {
            append_str(&mut r, "\n\n");
        },
    }
    append_bytes(&mut r, body);
    append_str(&mut r, "\n\n");
    r
}

// ---------------------------------------------------------------------------
// Committing one exchange.
// ---------------------------------------------------------------------------

/// An absent file read as empty, as append-mode opening treats it.
pub open spec fn or_empty(o: Option<Seq<u8>>) -> Seq<u8> {
    match o {
        Some(s) => s,
        None => Seq::empty(),
    }
}

/// The files of a session after one successful exchange: the snapshot
/// holds the raw body; the context log gains the user turn and then the
/// model turn holding the touch-up-normalized reply; the transcript gains
/// one rendered entry whose body is the same text with its line endings
/// settled.
pub open spec fn spec_exchange_files(
    v: SessionFilesView,
    turns: Seq<TurnView>,
    user: TurnView,
    reply: Seq<u8>,
    raw: Seq<u8>,
    query: Seq<u8>,
    image_ref: Option<Seq<u8>>,
) -> SessionFilesView {
    SessionFilesView {
        context_doc: Some(json_of_context(exchange_turns(turns, user, spec_touch_up(reply)))),
        response_doc: Some(raw),
        result_doc: Some(
            or_empty(v.result_doc) + spec_entry(query, image_ref, spec_normalize_reply(reply)),
        ),
    }
}

/// The files with only the response snapshot overwritten: what a completed
/// call leaves when its outcome cannot be committed.
pub open spec fn with_snapshot(v: SessionFilesView, raw: Seq<u8>) -> SessionFilesView {
    SessionFilesView {
        context_doc: v.context_doc,
        response_doc: Some(raw),
        result_doc: v.result_doc,
    }
}

/// Commits one exchange whose status and extracted reply are known.
///
/// A failed status leaves every file byte-identical and is reported, never
/// escalated.  On any 2xx outcome the snapshot is overwritten with the raw
/// body the call produced.  If the context log is then missing or does not
/// parse, nothing else changes; otherwise the new user turn (built from the
/// query and the optional attachment) and the model turn holding the
/// touch-up-normalized reply are appended in that order, one entry is
/// appended to the transcript, and the rendered reply is returned for
/// display.
pub fn complete_exchange(
    files: &mut SessionFiles,
    query: Vec<u8>,
    attachment: Option<InlineData>,
    image_ref: Option<Vec<u8>>,
    status: u32,
    raw_body: Vec<u8>,
    reply: Vec<u8>,
) -> (r: Result<Vec<u8>, CoreError>)
    ensures
        !spec_is_success(status) ==> final(files)@ == old(files)@ && r == Err::<Vec<u8>, CoreError>(
            CoreError::HTTPFailure,
        ),
        spec_is_success(status) ==> match old(files)@.context_doc {
            None => final(files)@ == with_snapshot(old(files)@, raw_body@) && r == Err::<
                Vec<u8>,
                CoreError,
            >(CoreError::NotFound),
            Some(doc) => match sp_context(doc) {
                None => final(files)@ == with_snapshot(old(files)@, raw_body@) && r == Err::<
                    Vec<u8>,
                    CoreError,
                >(CoreError::ParseError),
                Some(turns) => final(files)@ == spec_exchange_files(
                    old(files)@,
                    turns,
                    spec_pending_turn(query@, spec_attachment_view(attachment)),
                    reply@,
                    raw_body@,
                    query@,
                    crate::session::opt_doc_view(image_ref),
                ) && (r matches Ok(n) && n@ == spec_normalize_reply(reply@)),
            },
        },
{
    if !is_success(status) {
        return Err(CoreError::HTTPFailure);
    }
    files.response_doc = Some(raw_body);
    let mut context = match crate::json::load_context(&files.context_doc) {
        Ok(c) => c,
        Err(e) => {
            return Err(e);
        },
    };
    let query_copy = copy_bytes(&query);
    let user_turn = pending_user_turn(query, attachment);
    append_turn(&mut context, user_turn);
    let touched = crate::normalize::touch_up(&reply);
    let normalized = crate::normalize::fold_lines(&touched);
    add_model_context(&mut context, touched);
    files.context_doc = Some(serialize_context(&context));
    let entry = render_entry(&query_copy, &image_ref, &normalized);
    let mut transcript: Vec<u8> = match &files.result_doc {
        Some(prev) => copy_bytes(prev),
        None => Vec::new(),
    };
    append_bytes(&mut transcript, &entry);
    files.result_doc = Some(transcript);
    Ok(normalized)
}

/// Runs the durable half of one exchange from its observed outcome: the
/// status code and the raw body the worker received.
///
/// A failed status leaves every file byte-identical.  Any 2xx outcome
/// overwrites the snapshot with the raw body.  When the body yields a
/// reply text and the context log exists and parses, the commit is exactly
/// [`spec_exchange_files`] for that reply and the normalized reply is
/// returned for display; otherwise nothing but the snapshot changes and
/// the failure is reported.
pub fn run_exchange(
    files: &mut SessionFiles,
    query: Vec<u8>,
    attachment: Option<InlineData>,
    image_ref: Option<Vec<u8>>,
    status: u32,
    raw_body: Vec<u8>,
) -> (r: Result<Vec<u8>, CoreError>)
    ensures
        !spec_is_success(status) ==> final(files)@ == old(files)@ && r == Err::<Vec<u8>, CoreError>(
            CoreError::HTTPFailure,
        ),
        spec_is_success(status) ==> match crate::reply::spec_extract_reply(raw_body@) {
            None => final(files)@ == with_snapshot(old(files)@, raw_body@) && r == Err::<
                Vec<u8>,
                CoreError,
            >(CoreError::ParseError),
            Some(reply) => match old(files)@.context_doc {
                None => final(files)@ == with_snapshot(old(files)@, raw_body@) && r == Err::<
                    Vec<u8>,
                    CoreError,
                >(CoreError::NotFound),
                Some(doc) => match sp_context(doc) {
                    None => final(files)@ == with_snapshot(old(files)@, raw_body@) && r == Err::<
                        Vec<u8>,
                        CoreError,
                    >(CoreError::ParseError),
                    Some(turns) => final(files)@ == spec_exchange_files(
                        old(files)@,
                        turns,
                        spec_pending_turn(query@, spec_attachment_view(attachment)),
                        reply,
                        raw_body@,
                        query@,
                        crate::session::opt_doc_view(image_ref),
                    ) && (r matches Ok(n) && n@ == spec_normalize_reply(reply)),
                },
            },
        },
{
    if !is_success(status) {
        return Err(CoreError::HTTPFailure);
    }
    let reply = match crate::reply::extract_reply(&raw_body) {
        Some(t) => t,
        None => {
            files.response_doc = Some(raw_body);
            return Err(CoreError::ParseError);
        },
    };
    complete_exchange(files, query, attachment, image_ref, status, raw_body, reply)
}

} // verus!
