//! A model of the store, and what the cache operations achieve against it.
//!
//! The store is taken as a map from keys to the bytes kept under them. It
//! answers a command at once and never fails, and nobody else writes to it.

use crate::cache::{fetched, stored, ActionView, CommandView, EventView, ExchangeView, OutcomeView};
use crate::cache::{Provider, RequestView, StageView};
use crate::error::ErrorKind;
use crate::reply::ReplyView;
use vstd::prelude::*;
use vstd::utf8::{encode_utf8, encode_utf8_decode_utf8, encode_utf8_valid_utf8};

verus! {

/// What the store does on a command: its contents afterwards, and its reply.
/// A stored string is kept as its UTF-8 bytes. Setting an expiry changes
/// nothing that a later fetch sees before the time is over.
pub open spec fn serve(store: Map<Seq<char>, Seq<u8>>, command: CommandView) -> (
    Map<Seq<char>, Seq<u8>>,
    ReplyView,
) {
    match command {
        CommandView::Store { key, value } => (
            store.insert(key, encode_utf8(value)),
            ReplyView::Okay,
        ),
        CommandView::Expire { key, seconds } => (
            store,
            ReplyView::Int(
                if store.contains_key(key) {
                    1
                } else {
                    0
                },
            ),
        ),
        CommandView::Fetch { key } => (
            store,
            if store.contains_key(key) {
                ReplyView::Data(store[key])
            } else {
                ReplyView::Nil
            },
        ),
    }
}

/// Does what `action` asks, against `store` and with a provider that always
/// has a connection, reports it to the exchange, and goes on so for at most
/// `steps` instructions. Gives the store afterwards, and the outcome if the
/// operation came to its end.
pub open spec fn drive(
    x: ExchangeView,
    action: ActionView,
    store: Map<Seq<char>, Seq<u8>>,
    steps: nat,
) -> (Map<Seq<char>, Seq<u8>>, Option<OutcomeView>)
    decreases steps,
{
    if steps == 0 {
        (store, None)
    } else {
        match action {
            ActionView::Acquire => {
                let (y, then) = x.next(EventView::Acquired);
                drive(y, then, store, (steps - 1) as nat)
            },
            ActionView::Send(command) => {
                let (kept, reply) = serve(store, command);
                let (y, then) = x.next(EventView::Replied(reply));
                drive(y, then, kept, (steps - 1) as nat)
            },
            ActionView::Release { healthy } => {
                let (y, then) = x.next(EventView::Released);
                drive(y, then, store, (steps - 1) as nat)
            },
            ActionView::Return(outcome) => (store, Some(outcome)),
            ActionView::Ignored => (store, None),
        }
    }
}

/// Carries out the whole operation `request` against `store`.
pub open spec fn perform(
    provider: Provider,
    request: RequestView,
    store: Map<Seq<char>, Seq<u8>>,
) -> (Map<Seq<char>, Seq<u8>>, Option<OutcomeView>) {
    let x = ExchangeView { provider, request, stage: StageView::Idle };
    let (y, then) = x.next(EventView::Start);
    drive(y, then, store, 5)
}

/// Storing a string and then fetching it gives the string back, whatever the
/// key, the string and the time to live are, and whatever the store held.
pub proof fn lemma_round_trip(
    provider: Provider,
    key: Seq<char>,
    value: Seq<char>,
    ttl_seconds: usize,
    store: Map<Seq<char>, Seq<u8>>,
)
    ensures
        ({
            let (kept, set) = perform(
                provider,
                RequestView::Store { key, value, ttl_seconds },
                store,
            );
            let (left, got) = perform(provider, RequestView::Fetch { key }, kept);
            &&& set is Some
            &&& stored(set->Some_0) == Ok::<(), (ErrorKind, Seq<char>)>(())
            &&& got is Some
            &&& fetched(got->Some_0) == Ok::<Seq<char>, ErrorKind>(value)
            &&& left == kept
            &&& kept == store.insert(key, encode_utf8(value))
        }),
{
    reveal_with_fuel(drive, 6);
    encode_utf8_valid_utf8(value);
    encode_utf8_decode_utf8(value);
}

/// Fetching a key under which nothing is stored is a decoding failure, and
/// no failure of a command.
pub proof fn lemma_absent_key(provider: Provider, key: Seq<char>, store: Map<Seq<char>, Seq<u8>>)
    requires
        !store.contains_key(key),
    ensures
        ({
            let (left, got) = perform(provider, RequestView::Fetch { key }, store);
            &&& got == Some(Ok::<ReplyView, (ErrorKind, Seq<char>)>(ReplyView::Nil))
            &&& fetched(got->Some_0) == Err::<Seq<char>, ErrorKind>(ErrorKind::TypeDecoding)
            &&& left == store
        }),
{
    reveal_with_fuel(drive, 6);
}

/// The exchange after a sequence of reports.
pub open spec fn after_events(x: ExchangeView, events: Seq<EventView>) -> ExchangeView
    decreases events.len(),
{
    if events.len() == 0 {
        x
    } else {
        after_events(x, events.drop_last()).next(events.last()).0
    }
}

/// What the caller is told on report `i` of `events`.
pub open spec fn told(x: ExchangeView, events: Seq<EventView>, i: int) -> ActionView {
    after_events(x, events.take(i)).next(events[i]).1
}

/// No report changes what an exchange is asked to do, nor its provider.
pub proof fn lemma_request_stays(x: ExchangeView, events: Seq<EventView>)
    ensures
        after_events(x, events).request == x.request,
        after_events(x, events).provider == x.provider,
    decreases events.len(),
{
    if events.len() > 0 {
        lemma_request_stays(x, events.drop_last());
    }
}

/// Whatever is reported, and from whatever stage, an exchange sends only
/// commands of its script.
pub proof fn lemma_sends_follow_script(x: ExchangeView, events: Seq<EventView>, i: int)
    requires
        0 <= i < events.len(),
    ensures
        told(x, events, i) matches ActionView::Send(command) ==> x.request.script().contains(
            command,
        ),
{
    lemma_request_stays(x, events.take(i));
    let y = after_events(x, events.take(i));
    let script = x.request.script();
    if let ActionView::Send(command) = told(x, events, i) {
        match y.stage {
            StageView::Acquiring => {
                assert(script[0] == command);
            },
            StageView::Executing(n) => {
                assert(script[n + 1] == command);
            },
            _ => {},
        }
    }
}

/// A store operation with a time to live of zero never sets an expiry,
/// whatever is reported to it.
pub proof fn lemma_no_expiry_for_zero(
    x: ExchangeView,
    key: Seq<char>,
    value: Seq<char>,
    events: Seq<EventView>,
    i: int,
)
    requires
        x.request == (RequestView::Store { key, value, ttl_seconds: 0 }),
        0 <= i < events.len(),
    ensures
        !(told(x, events, i) matches ActionView::Send(CommandView::Expire { .. })),
{
    lemma_sends_follow_script(x, events, i);
    if let ActionView::Send(command) = told(x, events, i) {
        let script = x.request.script();
        let n = choose|n: int| 0 <= n < script.len() && script[n] == command;
        assert(script[n] == command);
    }
}

/// An exchange that holds a connection ends only by giving it back: while
/// commands are under way no report makes it hand over an outcome, the
/// last answer has the connection given back as healthy and a failed command
/// as unhealthy, and the outcome follows when the connection is back.
pub proof fn lemma_connection_is_given_back(x: ExchangeView, event: EventView)
    ensures
        x.stage is Executing ==> !(x.next(event).1 is Return) && (x.next(event).0.stage is Executing
            || x.next(event).0.stage is Releasing),
        x.stage is Executing && event is CommandFailed ==> x.next(event).1 == (ActionView::Release {
            healthy: false,
        }),
        x.stage is Executing && x.next(event).0.stage is Releasing ==> x.next(event).1 is Release,
        x.stage is Releasing ==> (x.next(event).1 is Return <==> event is Released),
        x.stage matches StageView::Releasing(outcome) ==> (event is Released ==> x.next(event).1
            == ActionView::Return(outcome)),
{
}

/// With a time to live above zero, a store operation that meets no failure
/// sends the expiry for the same key right after the value, on the same
/// connection: between the two nothing is acquired or given back.
pub proof fn lemma_expiry_follows(
    provider: Provider,
    key: Seq<char>,
    value: Seq<char>,
    ttl_seconds: usize,
    first: ReplyView,
)
    requires
        ttl_seconds > 0,
    ensures
        ({
            let x = ExchangeView {
                provider,
                request: RequestView::Store { key, value, ttl_seconds },
                stage: StageView::Acquiring,
            };
            let (y, a) = x.next(EventView::Acquired);
            let (z, b) = y.next(EventView::Replied(first));
            &&& a == ActionView::Send(CommandView::Store { key, value })
            &&& b == ActionView::Send(CommandView::Expire { key, seconds: ttl_seconds })
        }),
{
}

} // verus!
