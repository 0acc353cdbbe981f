//! The on-disk document format of the context log and of the outgoing
//! request envelope.
//!
//! A context log is persisted as a single JSON document
//! `{"contents":[ ... ]}` whose elements mirror the turns: each turn is
//! `{"parts":[ ... ],"role":"user"}` (or `"model"`), and each part is either
//! `{"text":"..."}` or `{"inlineData":{"mimeType":"...","data":"..."}}`.
//! The same document, with the pending user turn included, is the body sent
//! to the remote endpoint.
//!
//! [`json_of_context`] states the document byte for byte, the serializer is
//! proved to produce exactly that sequence, and the parser is proved to be
//! its exact inverse on every serialized log ([`lemma_parse_of_serialized`]),
//! so loading a log a later invocation wrote recovers the turn history
//! unchanged.  The parser accepts exactly the canonical documents this
//! library writes; anything else is rejected as malformed.

use vstd::prelude::*;

verus! {

use crate::context::{Content, Context, Part, PartView, Role, TurnView};
use crate::utils::{append_bytes, bytes_of};

// ---------------------------------------------------------------------------
// The grammar's literal fragments.
// ---------------------------------------------------------------------------

/// The bytes of `{"contents":[`.
pub open spec fn lit_contents_open() -> Seq<u8> {
    seq![123u8, 34, 99, 111, 110, 116, 101, 110, 116, 115, 34, 58, 91]
}

/// The bytes of `]}`.
pub open spec fn lit_close_doc() -> Seq<u8> {
    seq![93u8, 125]
}

/// The bytes of `{"parts":[`.
pub open spec fn lit_parts_open() -> Seq<u8> {
    seq![123u8, 34, 112, 97, 114, 116, 115, 34, 58, 91]
}

/// The bytes of `],"role":"user"}`.
pub open spec fn lit_role_user() -> Seq<u8> {
    seq![93u8, 44, 34, 114, 111, 108, 101, 34, 58, 34, 117, 115, 101, 114, 34, 125]
}

/// The bytes of `],"role":"model"}`.
pub open spec fn lit_role_model() -> Seq<u8> {
    seq![93u8, 44, 34, 114, 111, 108, 101, 34, 58, 34, 109, 111, 100, 101, 108, 34, 125]
}

/// The bytes of `{"text":`.
pub open spec fn lit_text_open() -> Seq<u8> {
    seq![123u8, 34, 116, 101, 120, 116, 34, 58]
}

/// The bytes of `{"inlineData":{"mimeType":`.
pub open spec fn lit_inline_open() -> Seq<u8> {
    seq![
        123u8,
        34,
        105,
        110,
        108,
        105,
        110,
        101,
        68,
        97,
        116,
        97,
        34,
        58,
        123,
        34,
        109,
        105,
        109,
        101,
        84,
        121,
        112,
        101,
        34,
        58,
    ]
}

/// The bytes of `,"data":`.
pub open spec fn lit_data_key() -> Seq<u8> {
    seq![44u8, 34, 100, 97, 116, 97, 34, 58]
}

fn vec_contents_open() -> (r: Vec<u8>)
    ensures
        r@ == lit_contents_open(),
{
    let r = bytes_of("{\"contents\":[");
    proof {
        reveal_strlit("{\"contents\":[");
        vstd::string::is_ascii_spec_bytes("{\"contents\":[");
        assert(r@ =~= lit_contents_open());
    }
    r
}

fn vec_close_doc() -> (r: Vec<u8>)
    ensures
        r@ == lit_close_doc(),
{
    let r = bytes_of("]}");
    proof {
        reveal_strlit("]}");
        vstd::string::is_ascii_spec_bytes("]}");
        assert(r@ =~= lit_close_doc());
    }
    r
}

fn vec_parts_open() -> (r: Vec<u8>)
    ensures
        r@ == lit_parts_open(),
{
    let r = bytes_of("{\"parts\":[");
    proof {
        reveal_strlit("{\"parts\":[");
        vstd::string::is_ascii_spec_bytes("{\"parts\":[");
        assert(r@ =~= lit_parts_open());
    }
    r
}

fn vec_role_user() -> (r: Vec<u8>)
    ensures
        r@ == lit_role_user(),
{
    let r = bytes_of("],\"role\":\"user\"}");
    proof {
        reveal_strlit("],\"role\":\"user\"}");
        vstd::string::is_ascii_spec_bytes("],\"role\":\"user\"}");
        assert(r@ =~= lit_role_user());
    }
    r
}

fn vec_role_model() -> (r: Vec<u8>)
    ensures
        r@ == lit_role_model(),
{
    let r = bytes_of("],\"role\":\"model\"}");
    proof {
        reveal_strlit("],\"role\":\"model\"}");
        vstd::string::is_ascii_spec_bytes("],\"role\":\"model\"}");
        assert(r@ =~= lit_role_model());
    }
    r
}

fn vec_text_open() -> (r: Vec<u8>)
    ensures
        r@ == lit_text_open(),
{
    let r = bytes_of("{\"text\":");
    proof {
        reveal_strlit("{\"text\":");
        vstd::string::is_ascii_spec_bytes("{\"text\":");
        assert(r@ =~= lit_text_open());
    }
    r
}

fn vec_inline_open() -> (r: Vec<u8>)
    ensures
        r@ == lit_inline_open(),
{
    let r = bytes_of("{\"inlineData\":{\"mimeType\":");
    proof {
        reveal_strlit("{\"inlineData\":{\"mimeType\":");
        vstd::string::is_ascii_spec_bytes("{\"inlineData\":{\"mimeType\":");
        assert(r@ =~= lit_inline_open());
    }
    r
}

fn vec_data_key() -> (r: Vec<u8>)
    ensures
        r@ == lit_data_key(),
{
    let r = bytes_of(",\"data\":");
    proof {
        reveal_strlit(",\"data\":");
        vstd::string::is_ascii_spec_bytes(",\"data\":");
        assert(r@ =~= lit_data_key());
    }
    r
}

// ---------------------------------------------------------------------------
// The document, byte for byte.
// ---------------------------------------------------------------------------

/// The lowercase hex digit for `n < 16`.
pub open spec fn hex_digit(n: u8) -> u8 {
    if n < 10 {
        (48 + n) as u8
    } else {
        (87 + n) as u8
    }
}

/// How one byte of a string is written inside a JSON string: quote and
/// backslash get a backslash escape, newline, carriage return and tab their
/// short escapes, any other control byte a `\u00xx` escape, and every other
/// byte stands for itself.
pub open spec fn esc_byte(b: u8) -> Seq<u8> {
    if b == 34 {
        seq![92u8, 34]
    } else if b == 92 {
        seq![92u8, 92]
    } else if b == 10 {
        seq![92u8, 110]
    } else if b == 13 {
        seq![92u8, 114]
    } else if b == 9 {
        seq![92u8, 116]
    } else if b < 32 {
        seq![92u8, 117, 48, 48, hex_digit(b / 16), hex_digit(b % 16)]
    } else {
        seq![b]
    }
}

/// The escaped form of a whole string.
pub open spec fn esc(s: Seq<u8>) -> Seq<u8>
    decreases s.len(),
{
    if s.len() == 0 {
        Seq::empty()
    } else {
        esc_byte(s[0]) + esc(s.drop_first())
    }
}

/// A JSON string: the escaped bytes between two quotes.
pub open spec fn json_string(s: Seq<u8>) -> Seq<u8> {
    seq![34u8] + esc(s) + seq![34u8]
}

/// The document form of one part.
pub open spec fn json_of_part(p: PartView) -> Seq<u8> {
    match p {
        PartView::Text { text } => lit_text_open() + json_string(text) + seq![125u8],
        PartView::Inline { mime, data } => lit_inline_open() + json_string(mime) + lit_data_key()
            + json_string(data) + seq![125u8, 125],
    }
}

/// The document form of a comma-separated list of parts.
pub open spec fn json_of_parts(ps: Seq<PartView>) -> Seq<u8>
    decreases ps.len(),
{
    if ps.len() == 0 {
        Seq::empty()
    } else if ps.len() == 1 {
        json_of_part(ps[0])
    } else {
        json_of_part(ps[0]) + seq![44u8] + json_of_parts(ps.drop_first())
    }
}

/// The document form of one turn.
pub open spec fn json_of_turn(t: TurnView) -> Seq<u8> {
    lit_parts_open() + json_of_parts(t.parts) + (if t.role == Role::User {
        lit_role_user()
    } else {
        lit_role_model()
    })
}

/// The document form of a comma-separated list of turns.
pub open spec fn json_of_turns(ts: Seq<TurnView>) -> Seq<u8>
    decreases ts.len(),
{
    if ts.len() == 0 {
        Seq::empty()
    } else if ts.len() == 1 {
        json_of_turn(ts[0])
    } else {
        json_of_turn(ts[0]) + seq![44u8] + json_of_turns(ts.drop_first())
    }
}

/// The whole context document, byte for byte.
pub open spec fn json_of_context(ts: Seq<TurnView>) -> Seq<u8> {
    lit_contents_open() + json_of_turns(ts) + lit_close_doc()
}

// ---------------------------------------------------------------------------
// The serializer.
// ---------------------------------------------------------------------------

proof fn lemma_esc_snoc(s: Seq<u8>, b: u8)
    ensures
        esc(s.push(b)) == esc(s) + esc_byte(b),
    decreases s.len(),
{
    if s.len() == 0 {
        assert(s.push(b).drop_first() =~= Seq::<u8>::empty());
        assert(s.push(b)[0] == b);
        assert(esc(Seq::<u8>::empty()) == Seq::<u8>::empty());
        assert(esc(s.push(b)) =~= esc_byte(b));
        assert(esc(s) + esc_byte(b) =~= esc_byte(b));
    } else {
        assert(s.push(b).drop_first() =~= s.drop_first().push(b));
        lemma_esc_snoc(s.drop_first(), b);
        assert(esc_byte(s[0]) + (esc(s.drop_first()) + esc_byte(b)) =~= (esc_byte(s[0]) + esc(
            s.drop_first(),
        )) + esc_byte(b));
    }
}

proof fn lemma_json_of_parts_snoc(ps: Seq<PartView>, p: PartView)
    ensures
        json_of_parts(ps.push(p)) == if ps.len() == 0 {
            json_of_part(p)
        } else {
            json_of_parts(ps) + seq![44u8] + json_of_part(p)
        },
    decreases ps.len(),
{
    if ps.len() == 0 {
        assert(ps.push(p)[0] == p);
    } else if ps.len() == 1 {
        assert(ps.push(p).drop_first() =~= ps.drop_first().push(p));
        assert(ps.push(p).drop_first() =~= seq![p]);
        assert(json_of_parts(seq![p]) == json_of_part(p));
        assert(json_of_parts(ps) == json_of_part(ps[0]));
    } else {
        assert(ps.push(p).drop_first() =~= ps.drop_first().push(p));
        lemma_json_of_parts_snoc(ps.drop_first(), p);
        assert(json_of_part(ps[0]) + seq![44u8] + (json_of_parts(ps.drop_first()) + seq![44u8]
            + json_of_part(p)) =~= (json_of_part(ps[0]) + seq![44u8] + json_of_parts(
            ps.drop_first(),
        )) + seq![44u8] + json_of_part(p));
    }
}

proof fn lemma_json_of_turns_snoc(ts: Seq<TurnView>, t: TurnView)
    ensures
        json_of_turns(ts.push(t)) == if ts.len() == 0 {
            json_of_turn(t)
        } else {
            json_of_turns(ts) + seq![44u8] + json_of_turn(t)
        },
    decreases ts.len(),
{
    if ts.len() == 0 {
        assert(ts.push(t)[0] == t);
    } else if ts.len() == 1 {
        assert(ts.push(t).drop_first() =~= ts.drop_first().push(t));
        assert(ts.push(t).drop_first() =~= seq![t]);
        assert(json_of_turns(seq![t]) == json_of_turn(t));
        assert(json_of_turns(ts) == json_of_turn(ts[0]));
    } else {
        assert(ts.push(t).drop_first() =~= ts.drop_first().push(t));
        lemma_json_of_turns_snoc(ts.drop_first(), t);
        assert(json_of_turn(ts[0]) + seq![44u8] + (json_of_turns(ts.drop_first()) + seq![44u8]
            + json_of_turn(t)) =~= (json_of_turn(ts[0]) + seq![44u8] + json_of_turns(
            ts.drop_first(),
        )) + seq![44u8] + json_of_turn(t));
    }
}

/// The lowercase hex digit for `n < 16`, executable form.
fn hex_digit_byte(n: u8) -> (r: u8)
    requires
        n < 16,
    ensures
        r == hex_digit(n),
{
    if n < 10 {
        48 + n
    } else {
        87 + n
    }
}

/// Appends the escaped form of `s` to `out`.
fn write_escaped(out: &mut Vec<u8>, s: &Vec<u8>)
    ensures
        final(out)@ == old(out)@ + esc(s@),
{
    let mut i: usize = 0;
    while i < s.len()
        invariant
            i <= s@.len(),
            out@ == old(out)@ + esc(s@.subrange(0, i as int)),
        decreases s@.len() - i,
    {
        proof {
            assert(s@.subrange(0, i + 1) =~= s@.subrange(0, i as int).push(s@[i as int]));
            lemma_esc_snoc(s@.subrange(0, i as int), s@[i as int]);
        }
        let b = s[i];
        if b == 34 {
            out.push(92);
            out.push(34);
        } else if b == 92 {
            out.push(92);
            out.push(92);
        } else if b == 10 {
            out.push(92);
            out.push(110);
        } else if b == 13 {
            out.push(92);
            out.push(114);
        } else if b == 9 {
            out.push(92);
            out.push(116);
        } else if b < 32 {
            out.push(92);
            out.push(117);
            out.push(48);
            out.push(48);
            out.push(hex_digit_byte(b / 16));
            out.push(hex_digit_byte(b % 16));
        } else {
            out.push(b);
        }
        proof {
            assert(out@ =~= old(out)@ + esc(s@.subrange(0, i + 1)));
        }
        i = i + 1;
    }
    proof {
        assert(s@.subrange(0, s@.len() as int) =~= s@);
    }
}

/// Appends the JSON string form of `s` to `out`.
fn write_json_string(out: &mut Vec<u8>, s: &Vec<u8>)
    ensures
        final(out)@ == old(out)@ + json_string(s@),
{
    out.push(34);
    write_escaped(out, s);
    out.push(34);
    proof {
        assert(out@ =~= old(out)@ + json_string(s@));
    }
}

/// Appends the document form of one part to `out`.
fn write_part(out: &mut Vec<u8>, p: &Part)
    ensures
        final(out)@ == old(out)@ + json_of_part(p@),
{
    match p {
        Part::Text { text } => {
            let open = vec_text_open();
            append_bytes(out, &open);
            write_json_string(out, text);
            out.push(125);
            proof {
                assert(out@ =~= old(out)@ + json_of_part(p@));
            }
        },
        Part::InlineData { inlineData } => {
            let open = vec_inline_open();
            append_bytes(out, &open);
            write_json_string(out, &inlineData.mimeType);
            let key = vec_data_key();
            append_bytes(out, &key);
            write_json_string(out, &inlineData.data);
            out.push(125);
            out.push(125);
            proof {
                assert(out@ =~= old(out)@ + json_of_part(p@));
            }
        },
    }
}

/// Appends the document form of one turn to `out`.
fn write_turn(out: &mut Vec<u8>, t: &Content)
    ensures
        final(out)@ == old(out)@ + json_of_turn(t@),
{
    let open = vec_parts_open();
    append_bytes(out, &open);
    let ghost views = t@.parts;
    let mut i: usize = 0;
    while i < t.parts.len()
        invariant
            i <= t.parts@.len(),
            views == t@.parts,
            views.len() == t.parts@.len(),
            forall|j: int| 0 <= j < views.len() ==> views[j] == t.parts@[j]@,
            out@ == old(out)@ + lit_parts_open() + json_of_parts(views.subrange(0, i as int)),
        decreases t.parts@.len() - i,
    {
        proof {
            assert(views.subrange(0, i + 1) =~= views.subrange(0, i as int).push(
                views[i as int],
            ));
            lemma_json_of_parts_snoc(views.subrange(0, i as int), views[i as int]);
        }
        if i > 0 {
            out.push(44);
        }
        write_part(out, &t.parts[i]);
        proof {
            assert(out@ =~= old(out)@ + lit_parts_open() + json_of_parts(
                views.subrange(0, i + 1),
            ));
        }
        i = i + 1;
    }
    proof {
        assert(views.subrange(0, views.len() as int) =~= views);
    }
    if matches!(t.role, Role::User) {
        let tail = vec_role_user();
        append_bytes(out, &tail);
    } else {
        let tail = vec_role_model();
        append_bytes(out, &tail);
    }
    proof {
        assert(out@ =~= old(out)@ + json_of_turn(t@));
    }
}

/// Appends the document form of the turns of `context`, with `extra`
/// appended after them when present, to `out`.
fn write_turns(out: &mut Vec<u8>, context: &Context, extra: Option<&Content>)
    ensures
        final(out)@ == old(out)@ + json_of_turns(
            match extra {
                Some(e) => context@.push(e@),
                None => context@,
            },
        ),
{
    let ghost views = context@;
    let mut i: usize = 0;
    while i < context.contents.len()
        invariant
            i <= context.contents@.len(),
            views == context@,
            views.len() == context.contents@.len(),
            forall|j: int| 0 <= j < views.len() ==> views[j] == context.contents@[j]@,
            out@ == old(out)@ + json_of_turns(views.subrange(0, i as int)),
        decreases context.contents@.len() - i,
    {
        proof {
            assert(views.subrange(0, i + 1) =~= views.subrange(0, i as int).push(
                views[i as int],
            ));
            lemma_json_of_turns_snoc(views.subrange(0, i as int), views[i as int]);
        }
        if i > 0 {
            out.push(44);
        }
        write_turn(out, &context.contents[i]);
        proof {
            assert(out@ =~= old(out)@ + json_of_turns(views.subrange(0, i + 1)));
        }
        i = i + 1;
    }
    proof {
        assert(views.subrange(0, views.len() as int) =~= views);
    }
    match extra {
        Some(e) => {
            proof {
                lemma_json_of_turns_snoc(views, e@);
            }
            if context.contents.len() > 0 {
                out.push(44);
            }
            write_turn(out, e);
            proof {
                assert(out@ =~= old(out)@ + json_of_turns(views.push(e@)));
            }
        },
        None => {
        },
    }
}

/// Serializes the whole context log into its canonical document.
pub fn serialize_context(context: &Context) -> (r: Vec<u8>)
    ensures
        r@ == json_of_context(context@),
{
    let mut out = vec_contents_open();
    write_turns(&mut out, context, None);
    let close = vec_close_doc();
    append_bytes(&mut out, &close);
    proof {
        assert(out@ =~= json_of_context(context@));
    }
    out
}

/// Serializes the context log with one further turn appended after the
/// stored history, leaving the log itself untouched.  This is the body of
/// the outgoing request: the durable history plus the pending user turn.
pub fn serialize_context_with_extra(context: &Context, extra: &Content) -> (r: Vec<u8>)
    ensures
        r@ == json_of_context(context@.push(extra@)),
{
    let mut out = vec_contents_open();
    write_turns(&mut out, context, Some(extra));
    let close = vec_close_doc();
    append_bytes(&mut out, &close);
    proof {
        assert(out@ =~= json_of_context(context@.push(extra@)));
    }
    out
}

// ---------------------------------------------------------------------------
// The parser: the exact inverse of the serializer.
// ---------------------------------------------------------------------------

/// The value of a lowercase hex digit byte.
pub open spec fn hex_val(c: u8) -> u8 {
    if c < 58 {
        (c - 48) as u8
    } else {
        (c - 87) as u8
    }
}

/// A lowercase hex digit, as the serializer writes them.
pub open spec fn is_hex_lower(c: u8) -> bool {
    (48 <= c <= 57) || (97 <= c <= 102)
}

/// Matches the literal fragment `lit` at position `i`, yielding the position
/// just after it.
pub open spec fn sp_lit(s: Seq<u8>, i: int, lit: Seq<u8>) -> Option<int> {
    if 0 <= i && i + lit.len() <= s.len() && s.subrange(i, i + lit.len()) == lit {
        Some(i + lit.len())
    } else {
        None
    }
}

/// Prepends one unescaped byte to a parsed string tail.
pub open spec fn sp_cons(b: u8, rest: Option<(Seq<u8>, int)>) -> Option<(Seq<u8>, int)> {
    match rest {
        Some((t, j)) => Some((seq![b] + t, j)),
        None => None,
    }
}

/// Whether `\u00xx` with digit bytes `h`, `l` is an escape the serializer
/// writes: a control byte that has no short escape.
pub open spec fn is_canon_u_escape(h: u8, l: u8) -> bool {
    is_hex_lower(h) && is_hex_lower(l) && {
        let v = hex_val(h) * 16 + hex_val(l);
        v < 32 && v != 9 && v != 10 && v != 13
    }
}

/// Parses the body of a JSON string after its opening quote, yielding the
/// unescaped bytes and the position just after the closing quote.
pub open spec fn sp_string_body(s: Seq<u8>, i: int) -> Option<(Seq<u8>, int)>
    decreases s.len() - i,
    when 0 <= i <= s.len()
{
    if i == s.len() {
        None
    } else if s[i] == 34 {
        Some((Seq::empty(), i + 1))
    } else if s[i] == 92 {
        if i + 1 == s.len() {
            None
        } else {
            let e = s[i + 1];
            if e == 34 {
                sp_cons(34, sp_string_body(s, i + 2))
            } else if e == 92 {
                sp_cons(92, sp_string_body(s, i + 2))
            } else if e == 110 {
                sp_cons(10, sp_string_body(s, i + 2))
            } else if e == 114 {
                sp_cons(13, sp_string_body(s, i + 2))
            } else if e == 116 {
                sp_cons(9, sp_string_body(s, i + 2))
            } else if e == 117 {
                if i + 6 <= s.len() && s[i + 2] == 48 && s[i + 3] == 48 && is_canon_u_escape(
                    s[i + 4],
                    s[i + 5],
                ) {
                    sp_cons(
                        (hex_val(s[i + 4]) * 16 + hex_val(s[i + 5])) as u8,
                        sp_string_body(s, i + 6),
                    )
                } else {
                    None
                }
            } else {
                None
            }
        }
    } else if s[i] >= 32 {
        sp_cons(s[i], sp_string_body(s, i + 1))
    } else {
        None
    }
}

/// Parses a whole JSON string, opening quote included.
pub open spec fn sp_string(s: Seq<u8>, i: int) -> Option<(Seq<u8>, int)> {
    if 0 <= i < s.len() && s[i] == 34 {
        sp_string_body(s, i + 1)
    } else {
        None
    }
}

/// Parses one part.
pub open spec fn sp_part(s: Seq<u8>, i: int) -> Option<(PartView, int)> {
    if sp_lit(s, i, lit_text_open()) is Some {
        match sp_string(s, i + lit_text_open().len()) {
            Some((t, j)) => match sp_lit(s, j, seq![125u8]) {
                Some(k) => Some((PartView::Text { text: t }, k)),
                None => None,
            },
            None => None,
        }
    } else if sp_lit(s, i, lit_inline_open()) is Some {
        match sp_string(s, i + lit_inline_open().len()) {
            Some((m, j)) => match sp_lit(s, j, lit_data_key()) {
                Some(k) => match sp_string(s, k) {
                    Some((d, l)) => match sp_lit(s, l, seq![125u8, 125]) {
                        Some(e) => Some((PartView::Inline { mime: m, data: d }, e)),
                        None => None,
                    },
                    None => None,
                },
                None => None,
            },
            None => None,
        }
    } else {
        None
    }
}

/// Parses a non-empty comma-separated list of parts.
pub open spec fn sp_parts_ne(s: Seq<u8>, i: int) -> Option<(Seq<PartView>, int)>
    decreases s.len() - i,
    when 0 <= i <= s.len()
{
    match sp_part(s, i) {
        Some((p, j)) => if i < j <= s.len() {
            if j < s.len() && s[j] == 44 {
                match sp_parts_ne(s, j + 1) {
                    Some((ps, k)) => Some((seq![p] + ps, k)),
                    None => None,
                }
            } else {
                Some((seq![p], j))
            }
        } else {
            None
        },
        None => None,
    }
}

/// Parses a possibly empty list of parts, stopping before the closing `]`.
pub open spec fn sp_parts(s: Seq<u8>, i: int) -> Option<(Seq<PartView>, int)> {
    if 0 <= i < s.len() && s[i] == 93 {
        Some((Seq::empty(), i))
    } else if 0 <= i <= s.len() {
        sp_parts_ne(s, i)
    } else {
        None
    }
}

/// Parses one turn.
pub open spec fn sp_turn(s: Seq<u8>, i: int) -> Option<(TurnView, int)> {
    match sp_lit(s, i, lit_parts_open()) {
        Some(j) => match sp_parts(s, j) {
            Some((ps, k)) => match sp_lit(s, k, lit_role_user()) {
                Some(m) => Some((TurnView { role: Role::User, parts: ps }, m)),
                None => match sp_lit(s, k, lit_role_model()) {
                    Some(m) => Some((TurnView { role: Role::Model, parts: ps }, m)),
                    None => None,
                },
            },
            None => None,
        },
        None => None,
    }
}

/// Parses a non-empty comma-separated list of turns.
pub open spec fn sp_turns_ne(s: Seq<u8>, i: int) -> Option<(Seq<TurnView>, int)>
    decreases s.len() - i,
    when 0 <= i <= s.len()
{
    match sp_turn(s, i) {
        Some((t, j)) => if i < j <= s.len() {
            if j < s.len() && s[j] == 44 {
                match sp_turns_ne(s, j + 1) {
                    Some((ts, k)) => Some((seq![t] + ts, k)),
                    None => None,
                }
            } else {
                Some((seq![t], j))
            }
        } else {
            None
        },
        None => None,
    }
}

/// Parses a possibly empty list of turns, stopping before the closing `]`.
pub open spec fn sp_contents_list(s: Seq<u8>, i: int) -> Option<(Seq<TurnView>, int)> {
    if 0 <= i < s.len() && s[i] == 93 {
        Some((Seq::empty(), i))
    } else if 0 <= i <= s.len() {
        sp_turns_ne(s, i)
    } else {
        None
    }
}

/// Parses a whole context document.  The document must be consumed exactly.
pub open spec fn sp_context(s: Seq<u8>) -> Option<Seq<TurnView>> {
    match sp_lit(s, 0, lit_contents_open()) {
        Some(i) => match sp_contents_list(s, i) {
            Some((ts, j)) => match sp_lit(s, j, lit_close_doc()) {
                Some(k) => if k == s.len() {
                    Some(ts)
                } else {
                    None
                },
                None => None,
            },
            None => None,
        },
        None => None,
    }
}

// ---------------------------------------------------------------------------
// The executable parser.
// ---------------------------------------------------------------------------

/// Concatenation of an already-parsed prefix with a parsed string tail.
pub open spec fn sp_cat(pre: Seq<u8>, rest: Option<(Seq<u8>, int)>) -> Option<(Seq<u8>, int)> {
    match rest {
        Some((t, j)) => Some((pre + t, j)),
        None => None,
    }
}

proof fn lemma_cat_cons(pre: Seq<u8>, b: u8, rest: Option<(Seq<u8>, int)>)
    ensures
        sp_cat(pre, sp_cons(b, rest)) == sp_cat(pre.push(b), rest),
{
    match rest {
        Some((t, j)) => {
            assert(pre + (seq![b] + t) =~= pre.push(b) + t);
        },
        None => {},
    }
}

/// Decides [`is_hex_lower`] on one byte.
fn is_hex_lower_byte(c: u8) -> (r: bool)
    ensures
        r == is_hex_lower(c),
{
    (48 <= c && c <= 57) || (97 <= c && c <= 102)
}

/// The value of a lowercase hex digit byte, executable form.
fn hex_val_byte(c: u8) -> (r: u8)
    requires
        is_hex_lower(c),
    ensures
        r == hex_val(c),
        r < 16,
{
    if c < 58 {
        c - 48
    } else {
        c - 87
    }
}

/// Matches a literal fragment at position `i`.
fn try_lit(s: &Vec<u8>, i: usize, lit: &Vec<u8>) -> (r: Option<usize>)
    requires
        i <= s@.len(),
    ensures
        match r {
            Some(j) => sp_lit(s@, i as int, lit@) == Some(j as int) && i <= j <= s@.len(),
            None => sp_lit(s@, i as int, lit@) is None,
        },
{
    if s.len() - i < lit.len() {
        return None;
    }
    let mut k: usize = 0;
    while k < lit.len()
        invariant
            k <= lit@.len(),
            i + lit@.len() <= s@.len(),
            s@.len() <= usize::MAX,
            forall|j: int| 0 <= j < k ==> s@[i + j] == lit@[j],
        decreases lit@.len() - k,
    {
        if s[i + k] != lit[k] {
            proof {
                assert(s@.subrange(i as int, i + lit@.len())[k as int] == s@[i + k]);
            }
            return None;
        }
        k = k + 1;
    }
    proof {
        assert(s@.subrange(i as int, i + lit@.len()) =~= lit@);
    }
    Some(i + lit.len())
}

/// Parses the body of a JSON string after its opening quote.
fn parse_string_body(s: &Vec<u8>, i: usize) -> (r: Option<(Vec<u8>, usize)>)
    requires
        i <= s@.len(),
    ensures
        match r {
            Some((t, j)) => sp_string_body(s@, i as int) == Some((t@, j as int)) && i < j
                <= s@.len(),
            None => sp_string_body(s@, i as int) is None,
        },
{
    let mut acc: Vec<u8> = Vec::new();
    let mut j: usize = i;
    loop
        invariant
            i <= j <= s@.len(),
            sp_string_body(s@, i as int) == sp_cat(acc@, sp_string_body(s@, j as int)),
        decreases s@.len() - j,
    {
        if j == s.len() {
            return None;
        }
        let b = s[j];
        if b == 34 {
            proof {
                assert(acc@ + Seq::<u8>::empty() =~= acc@);
            }
            return Some((acc, j + 1));
        } else if b == 92 {
            if j + 1 == s.len() {
                return None;
            }
            let e = s[j + 1];
            if e == 34 || e == 92 || e == 110 || e == 114 || e == 116 {
                let unescaped: u8 = if e == 34 {
                    34
                } else if e == 92 {
                    92
                } else if e == 110 {
                    10
                } else if e == 114 {
                    13
                } else {
                    9
                };
                proof {
                    lemma_cat_cons(acc@, unescaped, sp_string_body(s@, j + 2));
                }
                acc.push(unescaped);
                j = j + 2;
            } else if e == 117 {
                if s.len() - j < 6 {
                    return None;
                }
                let h = s[j + 4];
                let l = s[j + 5];
                if s[j + 2] == 48 && s[j + 3] == 48 && is_hex_lower_byte(h) && is_hex_lower_byte(
                    l,
                ) {
                    let v = hex_val_byte(h) * 16 + hex_val_byte(l);
                    if v < 32 && v != 9 && v != 10 && v != 13 {
                        proof {
                            lemma_cat_cons(acc@, v, sp_string_body(s@, j + 6));
                        }
                        acc.push(v);
                        j = j + 6;
                    } else {
                        return None;
                    }
                } else {
                    return None;
                }
            } else {
                return None;
            }
        } else if b >= 32 {
            proof {
                lemma_cat_cons(acc@, b, sp_string_body(s@, j + 1));
            }
            acc.push(b);
            j = j + 1;
        } else {
            return None;
        }
    }
}

/// Parses a whole JSON string, opening quote included.
fn parse_string(s: &Vec<u8>, i: usize) -> (r: Option<(Vec<u8>, usize)>)
    requires
        i <= s@.len(),
    ensures
        match r {
            Some((t, j)) => sp_string(s@, i as int) == Some((t@, j as int)) && i < j <= s@.len(),
            None => sp_string(s@, i as int) is None,
        },
{
    if i < s.len() && s[i] == 34 {
        parse_string_body(s, i + 1)
    } else {
        None
    }
}

/// Parses one part.
fn parse_part(s: &Vec<u8>, i: usize) -> (r: Option<(Part, usize)>)
    requires
        i <= s@.len(),
    ensures
        match r {
            Some((p, j)) => sp_part(s@, i as int) == Some((p@, j as int)) && i < j <= s@.len(),
            None => sp_part(s@, i as int) is None,
        },
{
    let text_open = vec_text_open();
    match try_lit(s, i, &text_open) {
        Some(j0) => {
            match parse_string(s, j0) {
                Some((t, j)) => {
                    if j < s.len() && s[j] == 125 {
                        proof {
                            assert(s@.subrange(j as int, j + 1) =~= seq![125u8]);
                        }
                        Some((Part::Text { text: t }, j + 1))
                    } else {
                        proof {
                            if j < s@.len() {
                                assert(s@.subrange(j as int, j + 1)[0] == s@[j as int]);
                            }
                        }
                        None
                    }
                },
                None => None,
            }
        },
        None => {
            let inline_open = vec_inline_open();
            match try_lit(s, i, &inline_open) {
                Some(j0) => {
                    match parse_string(s, j0) {
                        Some((m, j)) => {
                            let data_key = vec_data_key();
                            match try_lit(s, j, &data_key) {
                                Some(k) => {
                                    match parse_string(s, k) {
                                        Some((d, l)) => {
                                            if s.len() - l >= 2 && s[l] == 125 && s[l + 1] == 125 {
                                                proof {
                                                    assert(s@.subrange(l as int, l + 2) =~= seq![
                                                        125u8,
                                                        125,
                                                    ]);
                                                }
                                                Some(
                                                    (
                                                        Part::InlineData {
                                                            inlineData: crate::context::InlineData {
                                                                mimeType: m,
                                                                data: d,
                                                            },
                                                        },
                                                        l + 2,
                                                    ),
                                                )
                                            } else {
                                                proof {
                                                    if l + 2 <= s@.len() {
                                                        assert(s@.subrange(l as int, l + 2)[0]
                                                            == s@[l as int]);
                                                        assert(s@.subrange(l as int, l + 2)[1]
                                                            == s@[l + 1]);
                                                    }
                                                }
                                                None
                                            }
                                        },
                                        None => None,
                                    }
                                },
                                None => None,
                            }
                        },
                        None => None,
                    }
                },
                None => None,
            }
        },
    }
}

/// Concatenation of already-parsed parts with a parsed list tail.
pub open spec fn cat_parts(pre: Seq<PartView>, rest: Option<(Seq<PartView>, int)>) -> Option<
    (Seq<PartView>, int),
> {
    match rest {
        Some((ps, k)) => Some((pre + ps, k)),
        None => None,
    }
}

proof fn lemma_cat_parts_cons(pre: Seq<PartView>, p: PartView, rest: Option<(Seq<PartView>, int)>)
    ensures
        cat_parts(
            pre,
            match rest {
                Some((ps, k)) => Some((seq![p] + ps, k)),
                None => None,
            },
        ) == cat_parts(pre.push(p), rest),
{
    match rest {
        Some((ps, k)) => {
            assert(pre + (seq![p] + ps) =~= pre.push(p) + ps);
        },
        None => {},
    }
}

/// Parses a possibly empty list of parts, stopping before the closing `]`.
fn parse_parts(s: &Vec<u8>, i: usize) -> (r: Option<(Vec<Part>, usize)>)
    requires
        i <= s@.len(),
    ensures
        match r {
            Some((ps, j)) => sp_parts(s@, i as int) == Some(
                (ps@.map_values(|p: Part| p@), j as int),
            ) && i <= j <= s@.len(),
            None => sp_parts(s@, i as int) is None,
        },
{
    if i < s.len() && s[i] == 93 {
        let empty: Vec<Part> = Vec::new();
        proof {
            assert(empty@.map_values(|p: Part| p@) =~= Seq::<PartView>::empty());
        }
        return Some((empty, i));
    }
    let mut out: Vec<Part> = Vec::new();
    let mut j: usize = i;
    loop
        invariant
            i <= j <= s@.len(),
            sp_parts(s@, i as int) == cat_parts(
                out@.map_values(|p: Part| p@),
                sp_parts_ne(s@, j as int),
            ),
        decreases s@.len() - j,
    {
        match parse_part(s, j) {
            Some((p, k)) => {
                proof {
                    lemma_cat_parts_cons(
                        out@.map_values(|x: Part| x@),
                        p@,
                        if k < s@.len() && s@[k as int] == 44 {
                            sp_parts_ne(s@, k + 1)
                        } else {
                            Option::<(Seq<PartView>, int)>::None
                        },
                    );
                    assert(out@.push(p).map_values(|x: Part| x@) =~= out@.map_values(
                        |x: Part| x@,
                    ).push(p@));
                }
                let ghost pre_push = out@.push(p).map_values(|x: Part| x@);
                out.push(p);
                if k < s.len() && s[k] == 44 {
                    j = k + 1;
                } else {
                    proof {
                        assert(sp_parts_ne(s@, j as int) == Some((seq![p@], k as int)));
                        assert(out@.map_values(|x: Part| x@) =~= pre_push);
                    }
                    return Some((out, k));
                }
            },
            None => {
                return None;
            },
        }
    }
}

/// Parses one turn.
fn parse_turn(s: &Vec<u8>, i: usize) -> (r: Option<(Content, usize)>)
    requires
        i <= s@.len(),
    ensures
        match r {
            Some((t, j)) => sp_turn(s@, i as int) == Some((t@, j as int)) && i < j <= s@.len(),
            None => sp_turn(s@, i as int) is None,
        },
{
    let parts_open = vec_parts_open();
    match try_lit(s, i, &parts_open) {
        Some(j0) => {
            match parse_parts(s, j0) {
                Some((ps, k)) => {
                    let role_user = vec_role_user();
                    match try_lit(s, k, &role_user) {
                        Some(m) => Some((Content { parts: ps, role: Role::User }, m)),
                        None => {
                            let role_model = vec_role_model();
                            match try_lit(s, k, &role_model) {
                                Some(m) => Some((Content { parts: ps, role: Role::Model }, m)),
                                None => None,
                            }
                        },
                    }
                },
                None => None,
            }
        },
        None => None,
    }
}

/// Concatenation of already-parsed turns with a parsed list tail.
pub open spec fn cat_turns(pre: Seq<TurnView>, rest: Option<(Seq<TurnView>, int)>) -> Option<
    (Seq<TurnView>, int),
> {
    match rest {
        Some((ts, k)) => Some((pre + ts, k)),
        None => None,
    }
}

proof fn lemma_cat_turns_cons(pre: Seq<TurnView>, t: TurnView, rest: Option<(Seq<TurnView>, int)>)
    ensures
        cat_turns(
            pre,
            match rest {
                Some((ts, k)) => Some((seq![t] + ts, k)),
                None => None,
            },
        ) == cat_turns(pre.push(t), rest),
{
    match rest {
        Some((ts, k)) => {
            assert(pre + (seq![t] + ts) =~= pre.push(t) + ts);
        },
        None => {},
    }
}

/// Parses a possibly empty list of turns, stopping before the closing `]`.
fn parse_contents_list(s: &Vec<u8>, i: usize) -> (r: Option<(Vec<Content>, usize)>)
    requires
        i <= s@.len(),
    ensures
        match r {
            Some((ts, j)) => sp_contents_list(s@, i as int) == Some(
                (ts@.map_values(|t: Content| t@), j as int),
            ) && i <= j <= s@.len(),
            None => sp_contents_list(s@, i as int) is None,
        },
{
    if i < s.len() && s[i] == 93 {
        let empty: Vec<Content> = Vec::new();
        proof {
            assert(empty@.map_values(|t: Content| t@) =~= Seq::<TurnView>::empty());
        }
        return Some((empty, i));
    }
    let mut out: Vec<Content> = Vec::new();
    let mut j: usize = i;
    loop
        invariant
            i <= j <= s@.len(),
            sp_contents_list(s@, i as int) == cat_turns(
                out@.map_values(|t: Content| t@),
                sp_turns_ne(s@, j as int),
            ),
        decreases s@.len() - j,
    {
        match parse_turn(s, j) {
            Some((t, k)) => {
                proof {
                    lemma_cat_turns_cons(
                        out@.map_values(|x: Content| x@),
                        t@,
                        if k < s@.len() && s@[k as int] == 44 {
                            sp_turns_ne(s@, k + 1)
                        } else {
                            Option::<(Seq<TurnView>, int)>::None
                        },
                    );
                    assert(out@.push(t).map_values(|x: Content| x@) =~= out@.map_values(
                        |x: Content| x@,
                    ).push(t@));
                }
                let ghost pre_push = out@.push(t).map_values(|x: Content| x@);
                out.push(t);
                if k < s.len() && s[k] == 44 {
                    j = k + 1;
                } else {
                    proof {
                        assert(sp_turns_ne(s@, j as int) == Some((seq![t@], k as int)));
                        assert(out@.map_values(|x: Content| x@) =~= pre_push);
                    }
                    return Some((out, k));
                }
            },
            None => {
                return None;
            },
        }
    }
}

/// Loads the context log from the session's document: an absent file is
/// `NotFound` (the session must be ensured first), a document the parser
/// refuses is `ParseError`, and otherwise the full turn history is
/// recovered exactly.
pub fn load_context(doc: &Option<Vec<u8>>) -> (r: Result<Context, crate::CoreError>)
    ensures
        match doc {
            None => r == Err::<Context, crate::CoreError>(crate::CoreError::NotFound),
            Some(d) => match sp_context(d@) {
                Some(ts) => (r matches Ok(c) && c@ == ts),
                None => r == Err::<Context, crate::CoreError>(crate::CoreError::ParseError),
            },
        },
{
    match doc {
        None => Err(crate::CoreError::NotFound),
        Some(d) => match parse_context(d) {
            Some(c) => Ok(c),
            None => Err(crate::CoreError::ParseError),
        },
    }
}

/// Parses a whole context document.  Yields the context exactly when the
/// document is canonical, that is, exactly when [`sp_context`] accepts it.
pub fn parse_context(doc: &Vec<u8>) -> (r: Option<Context>)
    ensures
        match r {
            Some(c) => sp_context(doc@) == Some(c@),
            None => sp_context(doc@) is None,
        },
{
    let contents_open = vec_contents_open();
    match try_lit(doc, 0, &contents_open) {
        Some(i) => {
            match parse_contents_list(doc, i) {
                Some((ts, j)) => {
                    let close = vec_close_doc();
                    match try_lit(doc, j, &close) {
                        Some(k) => {
                            if k == doc.len() {
                                Some(Context { contents: ts })
                            } else {
                                None
                            }
                        },
                        None => None,
                    }
                },
                None => None,
            }
        },
        None => None,
    }
}

// ---------------------------------------------------------------------------
// The round trip: parsing a serialized log recovers it exactly.
// ---------------------------------------------------------------------------

proof fn lemma_region_index(s: Seq<u8>, i: int, r: Seq<u8>, j: int)
    requires
        0 <= i,
        i + r.len() <= s.len(),
        s.subrange(i, i + r.len()) == r,
        0 <= j < r.len(),
    ensures
        s[i + j] == r[j],
{
    assert(s.subrange(i, i + r.len())[j] == s[i + j]);
}

proof fn lemma_region_split(s: Seq<u8>, i: int, a: Seq<u8>, b: Seq<u8>)
    requires
        0 <= i,
        i + a.len() + b.len() <= s.len(),
        s.subrange(i, i + a.len() + b.len()) == a + b,
    ensures
        s.subrange(i, i + a.len()) == a,
        s.subrange(i + a.len(), i + a.len() + b.len()) == b,
{
    let al = a.len() as int;
    let l = a.len() + b.len();
    let whole = s.subrange(i, i + l);
    assert(s.subrange(i, i + al) =~= whole.subrange(0, al));
    assert((a + b).subrange(0, al) =~= a);
    assert(s.subrange(i + al, i + l) =~= whole.subrange(al, l as int));
    assert((a + b).subrange(al, l as int) =~= b);
}

proof fn lemma_lit_at(s: Seq<u8>, i: int, lit: Seq<u8>)
    requires
        0 <= i,
        i + lit.len() <= s.len(),
        s.subrange(i, i + lit.len()) == lit,
    ensures
        sp_lit(s, i, lit) == Some(i + lit.len()),
{
}

proof fn lemma_string_body_roundtrip(s: Seq<u8>, i: int, t: Seq<u8>)
    requires
        0 <= i,
        i + esc(t).len() + 1 <= s.len(),
        s.subrange(i, i + esc(t).len()) == esc(t),
        s[i + esc(t).len()] == 34,
    ensures
        sp_string_body(s, i) == Some((t, i + esc(t).len() + 1)),
    decreases t.len(),
{
    if t.len() == 0 {
        assert(esc(t).len() == 0);
    } else {
        let b = t[0];
        let e0 = esc_byte(b);
        let t1 = t.drop_first();
        assert(esc(t) == e0 + esc(t1));
        let i1 = i + e0.len();
        lemma_region_split(s, i, e0, esc(t1));
        lemma_region_index(s, i, e0, 0);
        if e0.len() >= 2 {
            lemma_region_index(s, i, e0, 1);
        }
        lemma_string_body_roundtrip(s, i1, t1);
        assert(seq![b] + t1 =~= t);
        if b == 34 {
            assert(s[i] == 92 && s[i + 1] == 34);
        } else if b == 92 {
            assert(s[i] == 92 && s[i + 1] == 92);
        } else if b == 10 {
            assert(s[i] == 92 && s[i + 1] == 110);
        } else if b == 13 {
            assert(s[i] == 92 && s[i + 1] == 114);
        } else if b == 9 {
            assert(s[i] == 92 && s[i + 1] == 116);
        } else if b < 32 {
            lemma_region_index(s, i, e0, 2);
            lemma_region_index(s, i, e0, 3);
            lemma_region_index(s, i, e0, 4);
            lemma_region_index(s, i, e0, 5);
            assert(s[i] == 92 && s[i + 1] == 117 && s[i + 2] == 48 && s[i + 3] == 48);
            assert(s[i + 4] == hex_digit(b / 16) && s[i + 5] == hex_digit(b % 16));
            assert(is_hex_lower(hex_digit(b / 16)));
            assert(is_hex_lower(hex_digit(b % 16)));
            assert(hex_val(hex_digit(b / 16)) == b / 16);
            assert(hex_val(hex_digit(b % 16)) == b % 16);
            assert((b / 16) * 16 + b % 16 == b);
            assert(is_canon_u_escape(s[i + 4], s[i + 5]));
            assert(sp_string_body(s, i) == sp_cons(b, sp_string_body(s, i + 6)));
        } else {
            assert(s[i] == b);
        }
    }
}

proof fn lemma_string_at(s: Seq<u8>, i: int, t: Seq<u8>)
    requires
        0 <= i,
        i + json_string(t).len() <= s.len(),
        s.subrange(i, i + json_string(t).len()) == json_string(t),
    ensures
        sp_string(s, i) == Some((t, i + json_string(t).len())),
{
    let js = json_string(t);
    assert(js =~= (seq![34u8] + esc(t)) + seq![34u8]);
    lemma_region_split(s, i, seq![34u8] + esc(t), seq![34u8]);
    lemma_region_split(s, i, seq![34u8], esc(t));
    lemma_region_index(s, i, seq![34u8], 0);
    lemma_region_index(s, i + 1 + esc(t).len(), seq![34u8], 0);
    lemma_string_body_roundtrip(s, i + 1, t);
}

proof fn lemma_part_roundtrip(s: Seq<u8>, i: int, p: PartView)
    requires
        0 <= i,
        i + json_of_part(p).len() <= s.len(),
        s.subrange(i, i + json_of_part(p).len()) == json_of_part(p),
    ensures
        sp_part(s, i) == Some((p, i + json_of_part(p).len())),
        json_of_part(p).len() > 0,
        json_of_part(p)[0] == 123,
{
    match p {
        PartView::Text { text } => {
            let open = lit_text_open();
            let js = json_string(text);
            let region = json_of_part(p);
            assert(region == open + js + seq![125u8]);
            assert(region =~= (open + js) + seq![125u8]);
            lemma_region_split(s, i, open + js, seq![125u8]);
            lemma_region_split(s, i, open, js);
            lemma_lit_at(s, i, open);
            lemma_string_at(s, i + open.len(), text);
            let k = i + open.len() + js.len();
            assert(s.subrange(k, k + 1) =~= seq![125u8]);
            lemma_lit_at(s, k, seq![125u8]);
            assert(region[0] == open[0]);
        },
        PartView::Inline { mime, data } => {
            let open = lit_inline_open();
            let jm = json_string(mime);
            let key = lit_data_key();
            let jd = json_string(data);
            let region = json_of_part(p);
            assert(region == open + jm + key + jd + seq![125u8, 125]);
            assert(region =~= (((open + jm) + key) + jd) + seq![125u8, 125]);
            lemma_region_split(s, i, ((open + jm) + key) + jd, seq![125u8, 125]);
            assert((((open + jm) + key) + jd) =~= ((open + jm) + key) + jd);
            lemma_region_split(s, i, (open + jm) + key, jd);
            lemma_region_split(s, i, open + jm, key);
            lemma_region_split(s, i, open, jm);
            lemma_lit_at(s, i, open);
            lemma_string_at(s, i + open.len(), mime);
            let k = i + open.len() + jm.len();
            lemma_lit_at(s, k, key);
            lemma_string_at(s, k + key.len(), data);
            let l = k + key.len() + jd.len();
            assert(s.subrange(l, l + 2) =~= seq![125u8, 125]);
            lemma_lit_at(s, l, seq![125u8, 125]);
            // the text branch is not taken: its literal differs at index 2
            if sp_lit(s, i, lit_text_open()) is Some {
                lemma_region_index(s, i, lit_text_open(), 2);
                lemma_region_index(s, i, region, 2);
                assert(region[2] == open[2]);
                assert(false);
            }
            assert(region[0] == open[0]);
        },
    }
}

proof fn lemma_json_of_part_head(p: PartView)
    ensures
        json_of_part(p).len() > 0,
        json_of_part(p)[0] == 123,
{
    match p {
        PartView::Text { text } => {
            assert(json_of_part(p)[0] == lit_text_open()[0]);
        },
        PartView::Inline { mime, data } => {
            assert(json_of_part(p)[0] == lit_inline_open()[0]);
        },
    }
}

proof fn lemma_json_of_parts_head(ps: Seq<PartView>)
    requires
        ps.len() > 0,
    ensures
        json_of_parts(ps).len() > 0,
        json_of_parts(ps)[0] == 123,
{
    lemma_json_of_part_head(ps[0]);
    if ps.len() > 1 {
        assert(json_of_parts(ps)[0] == json_of_part(ps[0])[0]);
    }
}

proof fn lemma_parts_roundtrip(s: Seq<u8>, i: int, ps: Seq<PartView>)
    requires
        0 <= i,
        i + json_of_parts(ps).len() < s.len(),
        s.subrange(i, i + json_of_parts(ps).len()) == json_of_parts(ps),
        s[i + json_of_parts(ps).len()] == 93,
    ensures
        sp_parts(s, i) == Some((ps, i + json_of_parts(ps).len())),
    decreases ps.len(),
{
    if ps.len() == 0 {
        assert(s[i] == 93);
    } else if ps.len() == 1 {
        let p0 = ps[0];
        assert(json_of_parts(ps) == json_of_part(p0));
        lemma_part_roundtrip(s, i, p0);
        let j = i + json_of_part(p0).len();
        assert(s[j] == 93);
        assert(sp_parts_ne(s, i) == Some((seq![p0], j)));
        assert(seq![p0] =~= ps);
        lemma_region_index(s, i, json_of_parts(ps), 0);
        lemma_json_of_parts_head(ps);
        assert(s[i] == 123);
    } else {
        let p0 = ps[0];
        let rest = ps.drop_first();
        let region = json_of_parts(ps);
        assert(region == json_of_part(p0) + seq![44u8] + json_of_parts(rest));
        assert(region =~= (json_of_part(p0) + seq![44u8]) + json_of_parts(rest));
        lemma_region_split(s, i, json_of_part(p0) + seq![44u8], json_of_parts(rest));
        lemma_region_split(s, i, json_of_part(p0), seq![44u8]);
        lemma_part_roundtrip(s, i, p0);
        let j = i + json_of_part(p0).len();
        assert(s.subrange(j, j + 1) =~= seq![44u8]);
        assert(s[j] == 44) by {
            assert(s.subrange(j, j + 1)[0] == s[j]);
        }
        lemma_parts_roundtrip(s, j + 1, rest);
        lemma_json_of_parts_head(rest);
        assert(s[j + 1] == 123) by {
            lemma_region_index(s, j + 1, json_of_parts(rest), 0);
        }
        assert(sp_parts(s, j + 1) == sp_parts_ne(s, j + 1));
        assert(sp_parts_ne(s, i) == Some((seq![p0] + rest, i + region.len())));
        assert(seq![p0] + rest =~= ps);
        lemma_region_index(s, i, region, 0);
        lemma_json_of_parts_head(ps);
        assert(s[i] == 123);
    }
}

proof fn lemma_json_of_turn_head(t: TurnView)
    ensures
        json_of_turn(t).len() > 0,
        json_of_turn(t)[0] == 123,
{
    assert(json_of_turn(t)[0] == lit_parts_open()[0]);
}

proof fn lemma_json_of_turns_head(ts: Seq<TurnView>)
    requires
        ts.len() > 0,
    ensures
        json_of_turns(ts).len() > 0,
        json_of_turns(ts)[0] == 123,
{
    lemma_json_of_turn_head(ts[0]);
    if ts.len() > 1 {
        assert(json_of_turns(ts)[0] == json_of_turn(ts[0])[0]);
    }
}

proof fn lemma_turn_roundtrip(s: Seq<u8>, i: int, t: TurnView)
    requires
        0 <= i,
        i + json_of_turn(t).len() <= s.len(),
        s.subrange(i, i + json_of_turn(t).len()) == json_of_turn(t),
    ensures
        sp_turn(s, i) == Some((t, i + json_of_turn(t).len())),
{
    let open = lit_parts_open();
    let body = json_of_parts(t.parts);
    let tail = if t.role == Role::User {
        lit_role_user()
    } else {
        lit_role_model()
    };
    let region = json_of_turn(t);
    assert(region =~= (open + body) + tail);
    lemma_region_split(s, i, open + body, tail);
    lemma_region_split(s, i, open, body);
    lemma_lit_at(s, i, open);
    let j = i + open.len();
    let k = j + body.len();
    lemma_region_index(s, k, tail, 0);
    assert(s[k] == 93);
    lemma_parts_roundtrip(s, j, t.parts);
    lemma_lit_at(s, k, tail);
    if t.role == Role::User {
        assert(sp_turn(s, i) == Some((TurnView { role: Role::User, parts: t.parts }, k + tail.len())));
        assert(TurnView { role: Role::User, parts: t.parts } == t);
    } else {
        // the user tail is not matched: the two role literals differ at index 9
        if sp_lit(s, k, lit_role_user()) is Some {
            let sub = s.subrange(k, k + lit_role_user().len());
            assert(sub[9] == s[k + 9]);
            lemma_region_index(s, k, tail, 9);
            assert(false);
        }
        assert(sp_turn(s, i) == Some(
            (TurnView { role: Role::Model, parts: t.parts }, k + tail.len()),
        ));
        assert(TurnView { role: Role::Model, parts: t.parts } == t);
    }
}

#[verifier::rlimit(50)]
proof fn lemma_turns_roundtrip(s: Seq<u8>, i: int, ts: Seq<TurnView>)
    requires
        0 <= i,
        i + json_of_turns(ts).len() < s.len(),
        s.subrange(i, i + json_of_turns(ts).len()) == json_of_turns(ts),
        s[i + json_of_turns(ts).len()] == 93,
    ensures
        sp_contents_list(s, i) == Some((ts, i + json_of_turns(ts).len())),
    decreases ts.len(),
{
    if ts.len() == 0 {
        assert(s[i] == 93);
    } else if ts.len() == 1 {
        let t0 = ts[0];
        assert(json_of_turns(ts) == json_of_turn(t0));
        lemma_turn_roundtrip(s, i, t0);
        let j = i + json_of_turn(t0).len();
        assert(s[j] == 93);
        lemma_json_of_turn_head(t0);
        assert(sp_turns_ne(s, i) == Some((seq![t0], j)));
        assert(seq![t0] =~= ts);
        lemma_region_index(s, i, json_of_turns(ts), 0);
        lemma_json_of_turns_head(ts);
        assert(s[i] == 123);
    } else {
        let t0 = ts[0];
        let rest = ts.drop_first();
        let region = json_of_turns(ts);
        assert(region == json_of_turn(t0) + seq![44u8] + json_of_turns(rest));
        assert(region =~= (json_of_turn(t0) + seq![44u8]) + json_of_turns(rest));
        lemma_region_split(s, i, json_of_turn(t0) + seq![44u8], json_of_turns(rest));
        lemma_region_split(s, i, json_of_turn(t0), seq![44u8]);
        lemma_turn_roundtrip(s, i, t0);
        lemma_json_of_turn_head(t0);
        let j = i + json_of_turn(t0).len();
        lemma_region_index(s, j, seq![44u8], 0);
        assert(s[j] == 44);
        lemma_turns_roundtrip(s, j + 1, rest);
        lemma_json_of_turns_head(rest);
        assert(s[j + 1] == 123) by {
            lemma_region_index(s, j + 1, json_of_turns(rest), 0);
        }
        assert(sp_contents_list(s, j + 1) == sp_turns_ne(s, j + 1));
        assert(sp_turns_ne(s, i) == Some((seq![t0] + rest, i + region.len())));
        assert(seq![t0] + rest =~= ts);
        lemma_region_index(s, i, region, 0);
        lemma_json_of_turns_head(ts);
        assert(s[i] == 123);
    }
}

/// The round trip: parsing a serialized context log yields exactly the turns
/// that were serialized.  Together with the contracts of
/// [`serialize_context`] and [`parse_context`], a log written by one
/// invocation is recovered unchanged by the next.
pub proof fn lemma_parse_of_serialized(ts: Seq<TurnView>)
    ensures
        sp_context(json_of_context(ts)) == Some(ts),
{
    let s = json_of_context(ts);
    let open = lit_contents_open();
    let body = json_of_turns(ts);
    let close = lit_close_doc();
    assert(s =~= (open + body) + close);
    assert(s.subrange(0, s.len() as int) =~= s);
    lemma_region_split(s, 0, open + body, close);
    lemma_region_split(s, 0, open, body);
    lemma_lit_at(s, 0, open);
    let j = open.len() as int;
    let k = j + body.len();
    lemma_region_index(s, k, close, 0);
    assert(s[k] == 93);
    if ts.len() == 0 {
        assert(body.len() == 0);
        assert(sp_contents_list(s, j) == Some((Seq::<TurnView>::empty(), j)));
        assert(Seq::<TurnView>::empty() =~= ts);
    } else {
        lemma_turns_roundtrip(s, j, ts);
    }
    lemma_lit_at(s, k, close);
    assert(k + close.len() == s.len());
}

} // verus!
