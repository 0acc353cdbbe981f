//! The session store.
//!
//! A session is a named directory holding one context log, at most one
//! response snapshot, at most one result artifact, and zero or more
//! attachments.  [`SessionFiles`] models the durable text files of one
//! session as plain values; the unverified shell mirrors every transition
//! stated here onto the real directory, reading the files before a step and
//! writing back exactly what the step produced.

use vstd::prelude::*;

verus! {

use crate::context::initial_turns;
use crate::json::json_of_context;
use crate::utils::{
    append_bytes,
    append_str,
    bytes_eq_str,
    bytes_of,
    copy_bytes,
    spec_remove_whitespace,
    spec_trim,
    str_bytes,
    remove_whitespace,
    trim_bytes,
};

// ---------------------------------------------------------------------------
// Paths.
// ---------------------------------------------------------------------------

/// The root directory of a session: the base directory, a separator, and
/// the session name with all internal whitespace stripped.
pub open spec fn spec_session_root(basedir: Seq<u8>, name: Seq<u8>) -> Seq<u8> {
    basedir + seq![47u8] + spec_remove_whitespace(name)
}

/// Resolves a session name against the base directory.
pub fn resolve(basedir: &Vec<u8>, name: &Vec<u8>) -> (r: Vec<u8>)
    ensures
        r@ == spec_session_root(basedir@, name@),
{
    let mut r = copy_bytes(basedir);
    r.push(47);
    let sanitized = remove_whitespace(name);
    append_bytes(&mut r, &sanitized);
    proof {
        assert(r@ =~= spec_session_root(basedir@, name@));
    }
    r
}

/// The context log file of a session.
pub fn context_path(root: &Vec<u8>) -> (r: Vec<u8>)
    ensures
        r@ == root@ + str_bytes("/context.json"),
{
    let mut r = copy_bytes(root);
    append_str(&mut r, "/context.json");
    r
}

/// The response snapshot file of a session.
pub fn response_path(root: &Vec<u8>) -> (r: Vec<u8>)
    ensures
        r@ == root@ + str_bytes("/response.json"),
{
    let mut r = copy_bytes(root);
    append_str(&mut r, "/response.json");
    r
}

/// The result artifact file of a session.
pub fn result_path(root: &Vec<u8>) -> (r: Vec<u8>)
    ensures
        r@ == root@ + str_bytes("/result.md"),
{
    let mut r = copy_bytes(root);
    append_str(&mut r, "/result.md");
    r
}

/// The attachments directory of a session.
pub fn images_dir(root: &Vec<u8>) -> (r: Vec<u8>)
    ensures
        r@ == root@ + str_bytes("/images"),
{
    let mut r = copy_bytes(root);
    append_str(&mut r, "/images");
    r
}

// ---------------------------------------------------------------------------
// File extensions and attachment paths.
// ---------------------------------------------------------------------------

/// The bytes after the last dot of `s`; the whole of `s` when it has no dot.
pub open spec fn spec_extension_of(s: Seq<u8>) -> Seq<u8>
    decreases s.len(),
{
    if s.len() == 0 {
        Seq::empty()
    } else if s.last() == 46 {
        Seq::empty()
    } else {
        spec_extension_of(s.drop_last()) + seq![s.last()]
    }
}

proof fn lemma_extension_skip(s: Seq<u8>, k: int)
    requires
        0 <= k <= s.len(),
        forall|j: int| k <= j < s.len() ==> s[j] != 46,
        k > 0 ==> s[k - 1] == 46,
        k == 0 ==> forall|j: int| 0 <= j < s.len() ==> s[j] != 46,
    ensures
        spec_extension_of(s) == s.skip(k),
    decreases s.len(),
{
    if s.len() == 0 {
        assert(s.skip(0) =~= s);
    } else if k == s.len() {
        assert(s.last() == 46);
        assert(s.skip(k) =~= Seq::<u8>::empty());
    } else {
        assert(s.last() != 46);
        assert(s.drop_last() =~= s.take(s.len() - 1));
        lemma_extension_skip(s.take(s.len() - 1), k);
        assert(s.take(s.len() - 1).skip(k) + seq![s.last()] =~= s.skip(k));
    }
}

/// The extension of a file name: everything after its last dot, or the
/// whole name when it has none.
pub fn extension_of(source: &Vec<u8>) -> (r: Vec<u8>)
    ensures
        r@ == spec_extension_of(source@),
{
    let mut k: usize = source.len();
    while k > 0 && source[k - 1] != 46
        invariant
            k <= source@.len(),
            forall|j: int| k <= j < source@.len() ==> source@[j] != 46,
        decreases k,
    {
        k = k - 1;
    }
    proof {
        lemma_extension_skip(source@, k as int);
    }
    let mut r: Vec<u8> = Vec::new();
    let mut i: usize = k;
    while i < source.len()
        invariant
            k <= i <= source@.len(),
            r@ == source@.subrange(k as int, i as int),
        decreases source@.len() - i,
    {
        r.push(source[i]);
        i = i + 1;
    }
    proof {
        assert(r@ =~= source@.skip(k as int));
    }
    r
}

/// The MIME type derived from a source file's extension.
pub fn mime_for(source: &Vec<u8>) -> (r: Vec<u8>)
    ensures
        r@ == str_bytes("image/") + spec_extension_of(source@),
{
    let mut r = bytes_of("image/");
    let ext = extension_of(source);
    append_bytes(&mut r, &ext);
    r
}

/// Where an ingested attachment is stored inside the session directory.
pub open spec fn spec_image_dest(savedir: Seq<u8>, hash: Seq<u8>, source: Seq<u8>) -> Seq<u8> {
    savedir + str_bytes("/images/") + hash + seq![46u8] + spec_extension_of(source)
}

/// How an ingested attachment is referenced from the rendered artifact.
pub open spec fn spec_image_ref(hash: Seq<u8>, source: Seq<u8>) -> Seq<u8> {
    str_bytes("./images/") + hash + seq![46u8] + spec_extension_of(source)
}

/// The destination path and the relative reference of an attachment copied
/// into the session, derived from the source path, the session root, and
/// the attachment's id.  The caller copies the source file to the
/// destination.
pub fn copy_image_paths(source: &Vec<u8>, savedir: &Vec<u8>, hash: &Vec<u8>) -> (r: (
    Vec<u8>,
    Vec<u8>,
))
    ensures
        r.0@ == spec_image_dest(savedir@, hash@, source@),
        r.1@ == spec_image_ref(hash@, source@),
{
    let ext = extension_of(source);
    let mut dest = copy_bytes(savedir);
    append_str(&mut dest, "/images/");
    append_bytes(&mut dest, hash);
    dest.push(46);
    append_bytes(&mut dest, &ext);
    let mut re = bytes_of("./images/");
    append_bytes(&mut re, hash);
    re.push(46);
    append_bytes(&mut re, &ext);
    proof {
        assert(dest@ =~= spec_image_dest(savedir@, hash@, source@));
        assert(re@ =~= spec_image_ref(hash@, source@));
    }
    (dest, re)
}

/// Two attachments with distinct ids are stored under distinct paths
/// inside the same session, whatever the ids are: a second ingestion of
/// the same source never overwrites the first stored copy.
pub proof fn lemma_distinct_ids_distinct_files(
    savedir: Seq<u8>,
    source: Seq<u8>,
    h1: Seq<u8>,
    h2: Seq<u8>,
)
    requires
        h1 != h2,
    ensures
        spec_image_dest(savedir, h1, source) != spec_image_dest(savedir, h2, source),
{
    let p = savedir + str_bytes("/images/");
    let d1 = spec_image_dest(savedir, h1, source);
    let d2 = spec_image_dest(savedir, h2, source);
    assert(d1 =~= p + h1 + (seq![46u8] + spec_extension_of(source)));
    assert(d2 =~= p + h2 + (seq![46u8] + spec_extension_of(source)));
    if d1 == d2 {
        assert(d1.len() == p.len() + h1.len() + 1 + spec_extension_of(source).len());
        assert(d2.len() == p.len() + h2.len() + 1 + spec_extension_of(source).len());
        assert(h1.len() == h2.len());
        assert(d1.subrange(p.len() as int, p.len() + h1.len() as int) =~= h1);
        assert(d2.subrange(p.len() as int, p.len() + h2.len() as int) =~= h2);
        assert(h1 =~= h2);
    }
}

// ---------------------------------------------------------------------------
// The durable files of one session.
// ---------------------------------------------------------------------------

/// The durable text files of one session, as plain values.  `None` stands
/// for an absent file.
pub struct SessionFiles {
    /// `context.json`: the full turn history.
    pub context_doc: Option<Vec<u8>>,
    /// `response.json`: the last raw reply body, overwritten every call.
    pub response_doc: Option<Vec<u8>>,
    /// `result.md`: the accumulating rendered transcript.
    pub result_doc: Option<Vec<u8>>,
}

/// The mathematical model of a session's files.
pub struct SessionFilesView {
    pub context_doc: Option<Seq<u8>>,
    pub response_doc: Option<Seq<u8>>,
    pub result_doc: Option<Seq<u8>>,
}

/// The view of one optional file.
pub open spec fn opt_doc_view(o: Option<Vec<u8>>) -> Option<Seq<u8>> {
    match o {
        Some(v) => Some(v@),
        None => None,
    }
}

impl View for SessionFiles {
    type V = SessionFilesView;

    open spec fn view(&self) -> SessionFilesView {
        SessionFilesView {
            context_doc: opt_doc_view(self.context_doc),
            response_doc: opt_doc_view(self.response_doc),
            result_doc: opt_doc_view(self.result_doc),
        }
    }
}

/// What ensuring a session does to its files: an absent context log is
/// created holding the serialized initial turns; everything else is left
/// untouched.
pub open spec fn spec_ensure(v: SessionFilesView, persona: Option<Seq<u8>>) -> SessionFilesView {
    if v.context_doc is None {
        SessionFilesView {
            context_doc: Some(json_of_context(initial_turns(persona))),
            response_doc: v.response_doc,
            result_doc: v.result_doc,
        }
    } else {
        v
    }
}

/// Ensures the session exists: creates and initializes the context log when
/// it is absent, and is a no-op on an existing session.  Returns whether the
/// log was created.
pub fn make_session(files: &mut SessionFiles, persona: Option<Vec<u8>>) -> (created: bool)
    ensures
        final(files)@ == spec_ensure(
            old(files)@,
            match persona {
                Some(p) => Some(p@),
                None => None,
            },
        ),
        created == (old(files)@.context_doc is None),
{
    let created = match &files.context_doc {
        Some(_) => false,
        None => {
            let context = crate::context::initialize_context(persona);
            let doc = crate::json::serialize_context(&context);
            files.context_doc = Some(doc);
            true
        },
    };
    created
}

/// Ensuring a session is idempotent: a second call changes nothing, and in
/// particular never resets an existing context log.
pub proof fn lemma_ensure_idempotent(v: SessionFilesView, persona: Option<Seq<u8>>)
    ensures
        spec_ensure(spec_ensure(v, persona), persona) == spec_ensure(v, persona),
{
}

// ---------------------------------------------------------------------------
// Deletion.
// ---------------------------------------------------------------------------

/// What became of a deletion request.
#[derive(Clone, Copy, Debug, PartialEq, Eq, Structural)]
pub enum DeleteOutcome {
    /// The session existed and the user confirmed: it is gone.
    Deleted,
    /// The user declined (any answer but an affirmative one): untouched.
    Declined,
    /// There was no such session.
    Missing,
}

/// An affirmative answer to the deletion prompt: exactly `Y` or `y`, after
/// trimming surrounding whitespace.  Anything else declines.
pub open spec fn spec_affirmative(answer: Seq<u8>) -> bool {
    spec_trim(answer) == seq![89u8] || spec_trim(answer) == seq![121u8]
}

/// Decides whether an interactive answer confirms the deletion.
pub fn confirm_deletion(answer: &Vec<u8>) -> (r: bool)
    ensures
        r == spec_affirmative(answer@),
{
    let t = trim_bytes(answer);
    proof {
        reveal_strlit("Y");
        vstd::string::is_ascii_spec_bytes("Y");
        reveal_strlit("y");
        vstd::string::is_ascii_spec_bytes("y");
        assert(str_bytes("Y") =~= seq![89u8]);
        assert(str_bytes("y") =~= seq![121u8]);
    }
    bytes_eq_str(&t, "Y") || bytes_eq_str(&t, "y")
}

/// Deletes a session, gated on interactive confirmation.  A declined
/// confirmation leaves the session and all its files untouched; a confirmed
/// one removes it whole.
pub fn delete_session(session: Option<SessionFiles>, answer: &Vec<u8>) -> (r: (
    Option<SessionFiles>,
    DeleteOutcome,
))
    ensures
        session is None ==> r.0 is None && r.1 == DeleteOutcome::Missing,
        session is Some && spec_affirmative(answer@) ==> r.0 is None && r.1
            == DeleteOutcome::Deleted,
        session is Some && !spec_affirmative(answer@) ==> r.0 == session && r.1
            == DeleteOutcome::Declined,
{
    match session {
        None => (None, DeleteOutcome::Missing),
        Some(files) => {
            if confirm_deletion(answer) {
                (None, DeleteOutcome::Deleted)
            } else {
                (Some(files), DeleteOutcome::Declined)
            }
        },
    }
}

} // verus!
