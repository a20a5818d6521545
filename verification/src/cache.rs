//! The cache operations: which commands go out on a connection, in which
//! order, and what is made of the answers.
//!
//! One operation is an [`Exchange`]. It sends nothing itself: it names the
//! next thing to do, the caller does it and reports what happened.

use crate::error::{Error, ErrorKind};
use crate::reply::{decode_string, Reply, ReplyView};
use vstd::prelude::*;

verus! {

/// Where connections come from.
#[derive(Clone, Copy, Debug, PartialEq, Eq, Structural)]
pub enum Provider {
    /// A fresh connection for every operation, closed after it.
    Direct,
    /// A pool of reusable connections.
    Pooled,
}

/// One command for the store.
#[derive(Clone, Debug, PartialEq, Eq)]
pub enum Command {
    /// Store `value` under `key`.
    Store { key: String, value: String },
    /// Let `key` expire after `seconds`.
    Expire { key: String, seconds: usize },
    /// Fetch what is stored under `key`.
    Fetch { key: String },
}

/// A command as a mathematical value.
pub enum CommandView {
    /// Store `value` under `key`.
    Store { key: Seq<char>, value: Seq<char> },
    /// Let `key` expire after `seconds`.
    Expire { key: Seq<char>, seconds: usize },
    /// Fetch what is stored under `key`.
    Fetch { key: Seq<char> },
}

impl View for Command {
    type V = CommandView;

    open spec fn view(&self) -> CommandView {
        match self {
            Command::Store { key, value } => CommandView::Store { key: key@, value: value@ },
            Command::Expire { key, seconds } => CommandView::Expire {
                key: key@,
                seconds: *seconds,
            },
            Command::Fetch { key } => CommandView::Fetch { key: key@ },
        }
    }
}

/// What an operation is asked to do.
#[derive(Clone, Debug, PartialEq, Eq)]
pub enum Request {
    /// Store `value` under `key`; with `ttl_seconds` above zero the key
    /// expires after so many seconds, with zero it does not expire.
    Store { key: String, value: String, ttl_seconds: usize },
    /// Fetch the string stored under `key`.
    Fetch { key: String },
}

/// A request as a mathematical value.
pub enum RequestView {
    /// Store `value` under `key`, to expire after `ttl_seconds` unless zero.
    Store { key: Seq<char>, value: Seq<char>, ttl_seconds: usize },
    /// Fetch the string stored under `key`.
    Fetch { key: Seq<char> },
}

impl View for Request {
    type V = RequestView;

    open spec fn view(&self) -> RequestView {
        match self {
            Request::Store { key, value, ttl_seconds } => RequestView::Store {
                key: key@,
                value: value@,
                ttl_seconds: *ttl_seconds,
            },
            Request::Fetch { key } => RequestView::Fetch { key: key@ },
        }
    }
}

impl RequestView {
    /// The commands of the request, in the order in which they go out on one
    /// connection. The expiry is set by a second command, and only for a
    /// time to live above zero.
    pub open spec fn script(self) -> Seq<CommandView> {
        match self {
            RequestView::Store { key, value, ttl_seconds } => if ttl_seconds > 0 {
                seq![
                    CommandView::Store { key, value },
                    CommandView::Expire { key, seconds: ttl_seconds },
                ]
            } else {
                seq![CommandView::Store { key, value }]
            },
            RequestView::Fetch { key } => seq![CommandView::Fetch { key }],
        }
    }
}

impl Request {
    /// The command at place `i` of the request's script, if it has so many.
    pub fn command(&self, i: usize) -> (c: Option<Command>)
        ensures
            c is Some <==> i < self@.script().len(),
            c matches Some(command) ==> command@ == self@.script()[i as int],
    {
        match self {
            Request::Store { key, value, ttl_seconds } => {
                if i == 0 {
                    Some(Command::Store { key: key.clone(), value: value.clone() })
                } else if i == 1 && *ttl_seconds > 0 {
                    Some(Command::Expire { key: key.clone(), seconds: *ttl_seconds })
                } else {
                    None
                }
            },
            Request::Fetch { key } => {
                if i == 0 {
                    Some(Command::Fetch { key: key.clone() })
                } else {
                    None
                }
            },
        }
    }
}

/// What the caller reports to an exchange.
#[derive(Debug, PartialEq, Eq)]
pub enum Event {
    /// The operation is to begin.
    Start,
    /// A connection was acquired.
    Acquired,
    /// No connection could be had; the text says why.
    AcquireFailed(String),
    /// The store answered the command that was sent.
    Replied(Reply),
    /// The command that was sent failed; the text says why.
    CommandFailed(String),
    /// The connection was given back.
    Released,
}

/// A report as a mathematical value.
pub enum EventView {
    /// The operation is to begin.
    Start,
    /// A connection was acquired.
    Acquired,
    /// No connection could be had.
    AcquireFailed(Seq<char>),
    /// The store answered the command that was sent.
    Replied(ReplyView),
    /// The command that was sent failed.
    CommandFailed(Seq<char>),
    /// The connection was given back.
    Released,
}

impl View for Event {
    type V = EventView;

    open spec fn view(&self) -> EventView {
        match self {
            Event::Start => EventView::Start,
            Event::Acquired => EventView::Acquired,
            Event::AcquireFailed(why) => EventView::AcquireFailed(why@),
            Event::Replied(reply) => EventView::Replied(reply@),
            Event::CommandFailed(why) => EventView::CommandFailed(why@),
            Event::Released => EventView::Released,
        }
    }
}

/// How an operation ended, as a mathematical value: the last reply, or the
/// stage and text of the failure.
pub type OutcomeView = Result<ReplyView, (ErrorKind, Seq<char>)>;

/// The mathematical value of an operation's end.
pub open spec fn outcome_view(outcome: Result<Reply, Error>) -> OutcomeView {
    match outcome {
        Ok(reply) => Ok(reply@),
        Err(e) => Err(e@),
    }
}

/// What the caller is to do next.
#[derive(Debug, PartialEq, Eq)]
pub enum Action {
    /// Acquire a connection from the provider.
    Acquire,
    /// Send the command on the connection that was acquired.
    Send(Command),
    /// Give the connection back; `healthy` is false after a failed command.
    Release { healthy: bool },
    /// The operation is over: hand the outcome to whoever asked.
    Return(Result<Reply, Error>),
    /// The report answered nothing that was asked; nothing has changed.
    Ignored,
}

/// An instruction as a mathematical value.
pub enum ActionView {
    /// Acquire a connection from the provider.
    Acquire,
    /// Send the command on the connection that was acquired.
    Send(CommandView),
    /// Give the connection back.
    Release { healthy: bool },
    /// The operation is over.
    Return(OutcomeView),
    /// Nothing has changed.
    Ignored,
}

impl View for Action {
    type V = ActionView;

    open spec fn view(&self) -> ActionView {
        match self {
            Action::Acquire => ActionView::Acquire,
            Action::Send(command) => ActionView::Send(command@),
            Action::Release { healthy } => ActionView::Release { healthy: *healthy },
            Action::Return(outcome) => ActionView::Return(outcome_view(*outcome)),
            Action::Ignored => ActionView::Ignored,
        }
    }
}

/// How far an operation has come.
#[derive(Debug, PartialEq, Eq)]
pub enum Stage {
    /// Nothing is under way.
    Idle,
    /// A connection was asked for.
    Acquiring,
    /// The command at this place of the script was sent.
    Executing(usize),
    /// The connection is being given back; the outcome is kept until then.
    Releasing(Result<Reply, Error>),
    /// No connection could be had. Nothing leads on from here.
    AcquisitionFailed,
}

/// A stage as a mathematical value.
pub enum StageView {
    /// Nothing is under way.
    Idle,
    /// A connection was asked for.
    Acquiring,
    /// The command at this place of the script was sent.
    Executing(usize),
    /// The connection is being given back.
    Releasing(OutcomeView),
    /// No connection could be had.
    AcquisitionFailed,
}

impl View for Stage {
    type V = StageView;

    open spec fn view(&self) -> StageView {
        match self {
            Stage::Idle => StageView::Idle,
            Stage::Acquiring => StageView::Acquiring,
            Stage::Executing(i) => StageView::Executing(*i),
            Stage::Releasing(outcome) => StageView::Releasing(outcome_view(*outcome)),
            Stage::AcquisitionFailed => StageView::AcquisitionFailed,
        }
    }
}

/// One cache operation under way.
#[derive(Debug, PartialEq, Eq)]
pub struct Exchange {
    provider: Provider,
    request: Request,
    stage: Stage,
}

/// An exchange as a mathematical value.
pub struct ExchangeView {
    /// Where the connection comes from.
    pub provider: Provider,
    /// What is asked.
    pub request: RequestView,
    /// How far the operation has come.
    pub stage: StageView,
}

impl View for Exchange {
    type V = ExchangeView;

    closed spec fn view(&self) -> ExchangeView {
        ExchangeView { provider: self.provider, request: self.request@, stage: self.stage@ }
    }
}

impl ExchangeView {
    /// The stage of the failure when no connection can be had: without a
    /// pool the client could not be built, with one the pool gave nothing.
    pub open spec fn acquisition_kind(self) -> ErrorKind {
        match self.provider {
            Provider::Direct => ErrorKind::ClientConstruction,
            Provider::Pooled => ErrorKind::Acquisition,
        }
    }

    /// The exchange at another stage.
    pub open spec fn at(self, stage: StageView) -> ExchangeView {
        ExchangeView { stage, ..self }
    }

    /// The exchange after a report, and what the caller is to do next.
    ///
    /// A connection is acquired first. Every command of the script goes out
    /// on it, each after the answer to the one before. After the last answer
    /// the connection is given back as healthy, after a failed command at
    /// once and as unhealthy; the outcome is handed over when it is back. A
    /// failed acquisition ends the operation for good. A report that answers
    /// nothing that was asked changes nothing.
    pub open spec fn next(self, event: EventView) -> (ExchangeView, ActionView) {
        match (self.stage, event) {
            (StageView::Idle, EventView::Start) => (
                self.at(StageView::Acquiring),
                ActionView::Acquire,
            ),
            (StageView::Acquiring, EventView::Acquired) => (
                self.at(StageView::Executing(0)),
                ActionView::Send(self.request.script()[0]),
            ),
            (StageView::Acquiring, EventView::AcquireFailed(why)) => (
                self.at(StageView::AcquisitionFailed),
                ActionView::Return(Err((self.acquisition_kind(), why))),
            ),
            (StageView::Executing(i), EventView::Replied(reply)) => if i + 1
                < self.request.script().len() {
                (
                    self.at(StageView::Executing((i + 1) as usize)),
                    ActionView::Send(self.request.script()[i + 1]),
                )
            } else {
                (self.at(StageView::Releasing(Ok(reply))), ActionView::Release { healthy: true })
            },
            (StageView::Executing(_), EventView::CommandFailed(why)) => (
                self.at(StageView::Releasing(Err((ErrorKind::CommandExecution, why)))),
                ActionView::Release { healthy: false },
            ),
            (StageView::Releasing(outcome), EventView::Released) => (
                self.at(StageView::Idle),
                ActionView::Return(outcome),
            ),
            _ => (self, ActionView::Ignored),
        }
    }
}

/// The operation that stores `value` under `key`, to expire after
/// `ttl_seconds` unless that is zero.
pub fn set_str(provider: Provider, key: &str, value: &str, ttl_seconds: usize) -> (x: Exchange)
    ensures
        x@ == (ExchangeView {
            provider,
            request: RequestView::Store { key: key@, value: value@, ttl_seconds },
            stage: StageView::Idle,
        }),
{
    Exchange {
        provider,
        request: Request::Store { key: key.to_owned(), value: value.to_owned(), ttl_seconds },
        stage: Stage::Idle,
    }
}

/// The operation that fetches the string stored under `key`.
pub fn get_str(provider: Provider, key: &str) -> (x: Exchange)
    ensures
        x@ == (ExchangeView {
            provider,
            request: RequestView::Fetch { key: key@ },
            stage: StageView::Idle,
        }),
{
    Exchange { provider, request: Request::Fetch { key: key.to_owned() }, stage: Stage::Idle }
}

impl Exchange {
    /// Where the connection comes from.
    pub fn provider(&self) -> (p: Provider)
        ensures
            p == self@.provider,
    {
        self.provider
    }

    /// What is asked.
    pub fn request(&self) -> (r: &Request)
        ensures
            r@ == self@.request,
    {
        &self.request
    }

    /// How far the operation has come.
    pub fn stage(&self) -> (s: &Stage)
        ensures
            s@ == self@.stage,
    {
        &self.stage
    }

    /// Takes a report, and says what the caller is to do next.
    pub fn advance(self, event: Event) -> (r: (Exchange, Action))
        ensures
            (r.0@, r.1@) == self@.next(event@),
    {
        let Exchange { provider, request, stage } = self;
        match stage {
            Stage::Idle => match event {
                Event::Start => (
                    Exchange { provider, request, stage: Stage::Acquiring },
                    Action::Acquire,
                ),
                _ => (Exchange { provider, request, stage: Stage::Idle }, Action::Ignored),
            },
            Stage::Acquiring => match event {
                Event::Acquired => {
                    let first = request.command(0).unwrap();
                    (
                        Exchange { provider, request, stage: Stage::Executing(0) },
                        Action::Send(first),
                    )
                },
                Event::AcquireFailed(why) => {
                    let kind = match provider {
                        Provider::Direct => ErrorKind::ClientConstruction,
                        Provider::Pooled => ErrorKind::Acquisition,
                    };
                    (
                        Exchange { provider, request, stage: Stage::AcquisitionFailed },
                        Action::Return(Err(Error::new(kind, why))),
                    )
                },
                _ => (Exchange { provider, request, stage: Stage::Acquiring }, Action::Ignored),
            },
            Stage::Executing(i) => match event {
                Event::Replied(reply) => {
                    let following = if i < usize::MAX {
                        request.command(i + 1)
                    } else {
                        None
                    };
                    match following {
                        Some(command) => (
                            Exchange { provider, request, stage: Stage::Executing(i + 1) },
                            Action::Send(command),
                        ),
                        None => (
                            Exchange { provider, request, stage: Stage::Releasing(Ok(reply)) },
                            Action::Release { healthy: true },
                        ),
                    }
                },
                Event::CommandFailed(why) => (
                    Exchange {
                        provider,
                        request,
                        stage: Stage::Releasing(Err(Error::new(ErrorKind::CommandExecution, why))),
                    },
                    Action::Release { healthy: false },
                ),
                _ => (Exchange { provider, request, stage: Stage::Executing(i) }, Action::Ignored),
            },
            Stage::Releasing(outcome) => match event {
                Event::Released => (
                    Exchange { provider, request, stage: Stage::Idle },
                    Action::Return(outcome),
                ),
                _ => (
                    Exchange { provider, request, stage: Stage::Releasing(outcome) },
                    Action::Ignored,
                ),
            },
            Stage::AcquisitionFailed => (
                Exchange { provider, request, stage: Stage::AcquisitionFailed },
                Action::Ignored,
            ),
        }
    }
}

/// What a store operation hands to its caller: nothing, or the failure.
pub open spec fn stored(outcome: OutcomeView) -> Result<(), (ErrorKind, Seq<char>)> {
    match outcome {
        Ok(_) => Ok(()),
        Err(e) => Err(e),
    }
}

/// What a fetch hands to its caller: the string that the last reply stands
/// for, a decoding failure where it stands for none, or the failure that
/// ended the operation before.
pub open spec fn fetched(outcome: OutcomeView) -> Result<Seq<char>, ErrorKind> {
    match outcome {
        Ok(reply) => match reply.text() {
            Some(text) => Ok(text),
            None => Err(ErrorKind::TypeDecoding),
        },
        Err(e) => Err(e.0),
    }
}

/// Ends a store operation: the reply is dropped, a failure is passed on.
pub fn finish_set(outcome: Result<Reply, Error>) -> (r: Result<(), Error>)
    ensures
        r is Ok <==> outcome is Ok,
        r matches Err(e) ==> outcome == Err::<Reply, Error>(e),
{
    match outcome {
        Ok(_) => Ok(()),
        Err(e) => Err(e),
    }
}

/// Ends a fetch: the reply is read as a string, a failure is passed on.
pub fn finish_get(outcome: Result<Reply, Error>) -> (r: Result<String, Error>)
    ensures
        match r {
            Ok(s) => fetched(outcome_view(outcome)) == Ok::<Seq<char>, ErrorKind>(s@),
            Err(e) => fetched(outcome_view(outcome)) == Err::<Seq<char>, ErrorKind>(e@.0),
        },
        outcome matches Err(e) ==> r == Err::<String, Error>(e),
{
    match outcome {
        Ok(reply) => decode_string(&reply),
        Err(e) => Err(e),
    }
}

} // verus!
