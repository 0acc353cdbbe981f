//! The context log: an ordered, append-only sequence of conversation turns.
//!
//! A turn carries a role (user or model) and an ordered list of parts; a part
//! is either plain text or an inlined attachment (MIME type plus encoded
//! payload).  Turns are never removed or reordered: the only operations are
//! the appends below, and every contract states the new log as the old log
//! with exactly one turn pushed.

use vstd::prelude::*;

verus! {

/// The speaker of a turn.
#[derive(Clone, Copy, Debug, PartialEq, Eq, Structural)]
pub enum Role {
    User,
    Model,
}

/// An attachment payload inlined into a turn: a MIME type and the encoded
/// bytes of the attached file.
#[allow(non_snake_case)]
#[derive(Debug)]
pub struct InlineData {
    pub mimeType: Vec<u8>,
    pub data: Vec<u8>,
}

/// A content fragment within a turn.
#[allow(non_snake_case)]
#[derive(Debug)]
pub enum Part {
    Text { text: Vec<u8> },
    InlineData { inlineData: InlineData },
}

/// One message of the conversation history.
#[derive(Debug)]
pub struct Content {
    pub parts: Vec<Part>,
    pub role: Role,
}

/// The full, ordered turn history of one session.
#[derive(Debug)]
pub struct Context {
    pub contents: Vec<Content>,
}

/// The mathematical model of a part.
pub enum PartView {
    Text { text: Seq<u8> },
    Inline { mime: Seq<u8>, data: Seq<u8> },
}

/// The mathematical model of a turn: its role and its parts in order.
pub struct TurnView {
    pub role: Role,
    pub parts: Seq<PartView>,
}

impl View for Part {
    type V = PartView;

    open spec fn view(&self) -> PartView {
        match self {
            Part::Text { text } => PartView::Text { text: text@ },
            Part::InlineData { inlineData } => PartView::Inline {
                mime: inlineData.mimeType@,
                data: inlineData.data@,
            },
        }
    }
}

impl View for Content {
    type V = TurnView;

    open spec fn view(&self) -> TurnView {
        TurnView { role: self.role, parts: self.parts@.map_values(|p: Part| p@) }
    }
}

impl View for Context {
    type V = Seq<TurnView>;

    open spec fn view(&self) -> Seq<TurnView> {
        self.contents@.map_values(|c: Content| c@)
    }
}

/// A turn holding a single text part.
pub open spec fn text_turn(role: Role, text: Seq<u8>) -> TurnView {
    TurnView { role, parts: seq![PartView::Text { text }] }
}

/// A user turn holding a text part followed by one inlined attachment.
pub open spec fn user_image_turn(text: Seq<u8>, mime: Seq<u8>, data: Seq<u8>) -> TurnView {
    TurnView {
        role: Role::User,
        parts: seq![PartView::Text { text }, PartView::Inline { mime, data }],
    }
}

impl Context {
    /// A context log with no turns.
    pub fn empty() -> (c: Context)
        ensures
            c@ == Seq::<TurnView>::empty(),
    {
        let c = Context { contents: Vec::new() };
        proof {
            assert(c@ =~= Seq::<TurnView>::empty());
        }
        c
    }
}

proof fn lemma_view_push(contents: Seq<Content>, c: Content)
    ensures
        contents.push(c).map_values(|x: Content| x@) == contents.map_values(|x: Content| x@).push(
            c@,
        ),
{
    assert(contents.push(c).map_values(|x: Content| x@) =~= contents.map_values(
        |x: Content| x@,
    ).push(c@));
}

/// Appends one user turn holding only the query text.
pub fn add_user_context_without_image(context: &mut Context, query: Vec<u8>)
    ensures
        final(context)@ == old(context)@.push(text_turn(Role::User, query@)),
{
    let ghost q = query@;
    let mut parts: Vec<Part> = Vec::new();
    parts.push(Part::Text { text: query });
    let turn = Content { parts, role: Role::User };
    proof {
        assert(turn@.parts =~= text_turn(Role::User, q).parts);
        lemma_view_push(context.contents@, turn);
    }
    context.contents.push(turn);
}

/// Appends one user turn holding the query text and one inlined attachment.
pub fn add_user_context_with_image(context: &mut Context, query: Vec<u8>, attachment: InlineData)
    ensures
        final(context)@ == old(context)@.push(
            user_image_turn(query@, attachment.mimeType@, attachment.data@),
        ),
{
    let ghost q = query@;
    let ghost m = attachment.mimeType@;
    let ghost d = attachment.data@;
    let mut parts: Vec<Part> = Vec::new();
    parts.push(Part::Text { text: query });
    parts.push(Part::InlineData { inlineData: attachment });
    let turn = Content { parts, role: Role::User };
    proof {
        assert(turn@.parts =~= user_image_turn(q, m, d).parts);
        lemma_view_push(context.contents@, turn);
    }
    context.contents.push(turn);
}

/// Appends one model turn holding the reply text.
pub fn add_model_context(context: &mut Context, data: Vec<u8>)
    ensures
        final(context)@ == old(context)@.push(text_turn(Role::Model, data@)),
{
    let ghost d = data@;
    let mut parts: Vec<Part> = Vec::new();
    parts.push(Part::Text { text: data });
    let turn = Content { parts, role: Role::Model };
    proof {
        assert(turn@.parts =~= text_turn(Role::Model, d).parts);
        lemma_view_push(context.contents@, turn);
    }
    context.contents.push(turn);
}

/// Appends one already-built turn.
pub fn append_turn(context: &mut Context, turn: Content)
    ensures
        final(context)@ == old(context)@.push(turn@),
{
    proof {
        lemma_view_push(context.contents@, turn);
    }
    context.contents.push(turn);
}

/// A fresh context log: empty, or seeded with a single user turn holding a
/// persona text when one is explicitly selected.
pub fn initialize_context(persona: Option<Vec<u8>>) -> (c: Context)
    ensures
        c@ == initial_turns(
            match persona {
                Some(p) => Some(p@),
                None => None,
            },
        ),
{
    let mut c = Context::empty();
    match persona {
        Some(p) => {
            add_user_context_without_image(&mut c, p);
            proof {
                assert(c@ =~= initial_turns(Some(p@)));
            }
        },
        None => {
        },
    }
    c
}

/// The turns of a fresh context log.
pub open spec fn initial_turns(persona: Option<Seq<u8>>) -> Seq<TurnView> {
    match persona {
        Some(p) => seq![text_turn(Role::User, p)],
        None => Seq::empty(),
    }
}

/// A well-formed turn holds at least one part and at most one inlined
/// attachment.
pub open spec fn wf_turn(t: TurnView) -> bool {
    &&& t.parts.len() >= 1
    &&& t.parts.filter(|p: PartView| p is Inline).len() <= 1
}

/// Every turn of a well-formed history is well-formed.
pub open spec fn wf_context(turns: Seq<TurnView>) -> bool {
    forall|i: int| 0 <= i < turns.len() ==> wf_turn(#[trigger] turns[i])
}

/// The turn constructors build only well-formed turns.
pub proof fn lemma_turn_constructors_wf(role: Role, text: Seq<u8>, mime: Seq<u8>, data: Seq<u8>)
    ensures
        wf_turn(text_turn(role, text)),
        wf_turn(user_image_turn(text, mime, data)),
{
    reveal_with_fuel(Seq::<PartView>::filter, 3);
    let pred = |p: PartView| p is Inline;
    let single = text_turn(role, text).parts;
    assert(single.drop_last() =~= Seq::<PartView>::empty());
    assert(Seq::<PartView>::empty().filter(pred) =~= Seq::<PartView>::empty());
    assert(single.filter(pred) =~= Seq::<PartView>::empty());
    let both = user_image_turn(text, mime, data).parts;
    assert(both.drop_last() =~= single);
    assert(both.filter(pred) =~= seq![PartView::Inline { mime, data }]);
}

/// Turn `i` of a well-formed conversation is a user turn at even positions
/// and a model turn at odd positions, in call order.
pub open spec fn alternating(turns: Seq<TurnView>) -> bool {
    forall|i: int|
        0 <= i < turns.len() ==> turns[i].role == (if i % 2 == 0 {
            Role::User
        } else {
            Role::Model
        })
}

/// One successful exchange, as it extends the turn history: the pending user
/// turn followed by the model's reply.
pub open spec fn exchange_turns(turns: Seq<TurnView>, user: TurnView, reply: Seq<u8>) -> Seq<
    TurnView,
> {
    turns.push(user).push(text_turn(Role::Model, reply))
}

/// One successful exchange keeps the conversation well-formed: appended to
/// an alternating history of even length, the user turn and the model turn
/// land on a user and a model position, and the length grows by exactly
/// two.
pub proof fn lemma_exchange_preserves_alternation(
    turns: Seq<TurnView>,
    user: TurnView,
    reply: Seq<u8>,
)
    requires
        alternating(turns),
        turns.len() % 2 == 0,
        user.role == Role::User,
    ensures
        alternating(exchange_turns(turns, user, reply)),
        exchange_turns(turns, user, reply).len() == turns.len() + 2,
{
    let extended = exchange_turns(turns, user, reply);
    assert forall|i: int| 0 <= i < extended.len() implies extended[i].role == (if i % 2 == 0 {
        Role::User
    } else {
        Role::Model
    }) by {
        if i < turns.len() {
            assert(extended[i] == turns[i]);
        }
    }
}

/// One successful exchange keeps every turn of the history well-formed,
/// provided the pending user turn is.
pub proof fn lemma_exchange_preserves_wf(turns: Seq<TurnView>, user: TurnView, reply: Seq<u8>)
    requires
        wf_context(turns),
        wf_turn(user),
    ensures
        wf_context(exchange_turns(turns, user, reply)),
{
    lemma_turn_constructors_wf(Role::Model, reply, Seq::empty(), Seq::empty());
    let extended = exchange_turns(turns, user, reply);

    assert forall|i: int| 0 <= i < extended.len() implies wf_turn(#[trigger] extended[i]) by {
        if i < turns.len() {
            assert(extended[i] == turns[i]);
        }
    }
}

/// The turn history after a whole sequence of successful exchanges, each
/// given as the pending user turn and the model's reply text, starting from
/// the empty log.
pub open spec fn turns_after_exchanges(exchanges: Seq<(TurnView, Seq<u8>)>) -> Seq<TurnView>
    decreases exchanges.len(),
{
    if exchanges.len() == 0 {
        Seq::empty()
    } else {
        exchange_turns(
            turns_after_exchanges(exchanges.drop_last()),
            exchanges.last().0,
            exchanges.last().1,
        )
    }
}

/// After `N` successful exchanges the context log holds exactly `2 N` turns,
/// alternating user, model, user, model, ... in call order.
pub proof fn lemma_context_log_shape(exchanges: Seq<(TurnView, Seq<u8>)>)
    requires
        forall|i: int| 0 <= i < exchanges.len() ==> (#[trigger] exchanges[i].0).role == Role::User,
    ensures
        turns_after_exchanges(exchanges).len() == 2 * exchanges.len(),
        alternating(turns_after_exchanges(exchanges)),
        forall|i: int|
            0 <= i < exchanges.len() ==> turns_after_exchanges(exchanges)[2 * i] == (
            #[trigger] exchanges[i]).0,
        forall|i: int|
            0 <= i < exchanges.len() ==> turns_after_exchanges(exchanges)[2 * i + 1] == text_turn(
                Role::Model,
                (#[trigger] exchanges[i]).1,
            ),
    decreases exchanges.len(),
{
    if exchanges.len() > 0 {
        let prev = exchanges.drop_last();
        lemma_context_log_shape(prev);
        let t0 = turns_after_exchanges(prev);
        let t = turns_after_exchanges(exchanges);
        assert(forall|i: int| 0 <= i < prev.len() ==> prev[i] == exchanges[i]);
        assert(forall|i: int| 0 <= i < t0.len() ==> t[i] == t0[i]);
        assert(t[2 * prev.len() as int] == exchanges.last().0);
        assert(t[2 * prev.len() as int + 1] == text_turn(Role::Model, exchanges.last().1));
        assert(exchanges.last() == exchanges[exchanges.len() - 1]);
    }
}

} // verus!
