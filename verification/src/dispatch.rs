//! From a message to the command that it calls for.
//!
//! Nothing here runs a command or sends anything. `handle_command` says which
//! handler a message calls for and with what, and `step` is the whole
//! dispatcher as a machine of two states: whoever drives it performs the
//! action it returns, and hands back the handler's result as the next event.

use crate::invocation::{
    is_name, is_suffix, lemma_parse_message, message, parse, parse_invocation, Args, Parsed,
};
use crate::number::unsigned;
use crate::registry::Commands;
use vstd::prelude::*;
use vstd::string::StringSliceAdditionalSpecFns;
use vstd::utf8::{decode_utf8, encode_utf8_decode_utf8};

verus! {

/// A handler to run, with the name it was called by and what it gets.
#[derive(Debug)]
pub struct Call<'a, H> {
    /// The handler of the command.
    pub run: H,
    /// The name or alias that the message used.
    pub name: &'a str,
    /// What is handed to the handler.
    pub args: Args<'a>,
}

/// What a `Call` holds: the handler and the parts of the message.
pub ghost struct Called<H> {
    /// The handler of the command.
    pub run: H,
    /// The message as it was read.
    pub parsed: Parsed,
}

impl<'a, H> View for Call<'a, H> {
    type V = Called<H>;

    open spec fn view(&self) -> Called<H> {
        Called {
            run: self.run,
            parsed: Parsed {
                name: self.name.spec_bytes(),
                num: self.args.num,
                rest: self.args.msg.spec_bytes(),
            },
        }
    }
}

impl<'a, H> Call<'a, H> {
    /// Runs the handler on `ctx`, on `origin` and on what the message holds
    /// for it, and hands back what the handler returns. Nothing is added,
    /// changed or looked at on the way in or out.
    pub fn invoke<C, O, R>(self, ctx: C, origin: O) -> (result: R) where
        H: FnOnce(C, O, Args<'a>) -> R,

        requires
            call_requires(self.run, (ctx, origin, self.args)),
        ensures
            call_ensures(self.run, (ctx, origin, self.args), result),
    {
        (self.run)(ctx, origin, self.args)
    }
}

/// What the message `msg` calls for under `table`: the handler bound to the
/// name that the message invokes, with the parts of the message. A message
/// that is no command calls for nothing, and so does one whose name is unbound.
///
/// A message is taken by its bytes, which are UTF-8, and the table is keyed
/// by texts: the name is looked up as the text that its bytes encode.
pub open spec fn dispatch<H>(table: Map<Seq<char>, H>, msg: Seq<u8>) -> Option<Called<H>> {
    match parse(msg) {
        Some(parsed) => {
            let name = decode_utf8(parsed.name);
            if table.contains_key(name) {
                Some(Called { run: table[name], parsed })
            } else {
                None
            }
        },
        None => None,
    }
}

/// Finds what `msg` calls for among `cmds`. The name is matched as it is
/// written: exactly, and with upper and lower case kept apart.
pub fn handle_command<'a, H: Copy>(cmds: &Commands<H>, msg: &'a str) -> (call: Option<Call<'a, H>>)
    ensures
        match call {
            Some(found) => dispatch(cmds@, msg.spec_bytes()) == Some(found@),
            None => dispatch(cmds@, msg.spec_bytes()) is None,
        },
{
    let Some(invocation) = parse_invocation(msg) else {
        return None;
    };
    proof {
        encode_utf8_decode_utf8(invocation.name@);
    }
    let Some(run) = cmds.command(invocation.name) else {
        return None;
    };
    Some(Call { run, name: invocation.name, args: invocation.args })
}

/// The two states of a dispatcher.
#[derive(Clone, Copy, Debug, PartialEq, Eq, Structural)]
pub enum State {
    /// Waiting for the next message.
    Idle,
    /// A handler is running.
    Processing,
}

/// What can happen to a dispatcher.
#[derive(Debug)]
pub enum Event<'a, E> {
    /// A message has arrived.
    Message(&'a str),
    /// The running handler has returned.
    Finished(Result<(), E>),
}

/// What a dispatcher asks for next.
#[derive(Debug)]
pub enum Action<'a, H, E> {
    /// Nothing: no reply, no record.
    Nothing,
    /// Record the call, run the handler, and hand its result back as `Event::Finished`.
    Invoke(Call<'a, H>),
    /// Record the failure of the handler. Nothing is sent to the place the
    /// message came from: that is the handler's part.
    Report(E),
}

/// An `Event` by the text of its message.
pub ghost enum Happened<E> {
    /// A message has arrived.
    Message(Seq<u8>),
    /// The running handler has returned.
    Finished(Result<(), E>),
}

/// An `Action` by what its call holds.
pub ghost enum Asked<H, E> {
    /// Nothing.
    Nothing,
    /// Run a handler.
    Invoke(Called<H>),
    /// Record a failure.
    Report(E),
}

impl<'a, E> View for Event<'a, E> {
    type V = Happened<E>;

    open spec fn view(&self) -> Happened<E> {
        match *self {
            Event::Message(msg) => Happened::Message(msg.spec_bytes()),
            Event::Finished(result) => Happened::Finished(result),
        }
    }
}

impl<'a, H, E> View for Action<'a, H, E> {
    type V = Asked<H, E>;

    open spec fn view(&self) -> Asked<H, E> {
        match *self {
            Action::Nothing => Asked::Nothing,
            Action::Invoke(call) => Asked::Invoke(call@),
            Action::Report(error) => Asked::Report(error),
        }
    }
}

/// Whether `event` can happen in `state`: a message arrives at an idle
/// dispatcher, and a handler returns to one that is processing.
pub open spec fn expected<E>(state: State, event: Happened<E>) -> bool {
    match event {
        Happened::Message(_) => state == State::Idle,
        Happened::Finished(_) => state == State::Processing,
    }
}

/// The state that follows `event`, and what is asked for.
///
/// A message that calls for a handler starts processing. Every other message
/// leaves the dispatcher idle and asks for nothing. When the handler returns,
/// the dispatcher is idle again whatever the result, and a failure is reported.
pub open spec fn next<H, E>(table: Map<Seq<char>, H>, event: Happened<E>) -> (State, Asked<H, E>) {
    match event {
        Happened::Message(msg) => match dispatch(table, msg) {
            Some(called) => (State::Processing, Asked::Invoke(called)),
            None => (State::Idle, Asked::Nothing),
        },
        Happened::Finished(Ok(_)) => (State::Idle, Asked::Nothing),
        Happened::Finished(Err(error)) => (State::Idle, Asked::Report(error)),
    }
}

/// Takes the dispatcher from `state` through `event`.
pub fn step<'a, H: Copy, E>(cmds: &Commands<H>, state: State, event: Event<'a, E>) -> (then: (
    State,
    Action<'a, H, E>,
))
    requires
        expected(state, event@),
    ensures
        (then.0, then.1@) == next(cmds@, event@),
{
    match event {
        Event::Message(msg) => match handle_command(cmds, msg) {
            Some(call) => (State::Processing, Action::Invoke(call)),
            None => (State::Idle, Action::Nothing),
        },
        Event::Finished(Ok(_)) => (State::Idle, Action::Nothing),
        Event::Finished(Err(error)) => (State::Idle, Action::Report(error)),
    }
}

/// A handler that fails does not stand in the way of the next message: the
/// dispatcher is idle after the failure, so the next message is expected, and
/// what it calls for depends on the table and on its own text alone.
pub proof fn lemma_failure_is_isolated<H, E>(table: Map<Seq<char>, H>, error: E, msg: Seq<u8>)
    ensures
        expected(State::Processing, Happened::<E>::Finished(Err(error))),
        next(table, Happened::<E>::Finished(Err(error))) == (
            State::Idle,
            Asked::<H, E>::Report(error),
        ),
        expected(next(table, Happened::<E>::Finished(Err(error))).0, Happened::<E>::Message(msg)),
        next(table, Happened::<E>::Message(msg)).1 == match dispatch(table, msg) {
            Some(called) => Asked::<H, E>::Invoke(called),
            None => Asked::<H, E>::Nothing,
        },
{
}

/// A command message whose name is bound to no handler asks for nothing and
/// leaves the dispatcher idle.
pub proof fn lemma_unknown_command_is_ignored<H, E>(table: Map<Seq<char>, H>, msg: Seq<u8>)
    requires
        parse(msg) is Some,
        !table.contains_key(decode_utf8(parse(msg)->0.name)),
    ensures
        dispatch(table, msg) is None,
        next(table, Happened::<E>::Message(msg)) == (State::Idle, Asked::<H, E>::Nothing),
{
}

/// An alias is the command: where two names are bound to one handler,
/// messages that differ in the name alone call for the same handler with
/// the same number and the same text.
pub proof fn lemma_alias_equivalence<H>(
    table: Map<Seq<char>, H>,
    name: Seq<u8>,
    alias: Seq<u8>,
    suffix: Seq<u8>,
    rest: Seq<u8>,
)
    requires
        is_name(name),
        is_name(alias),
        is_suffix(suffix),
        suffix.len() == 0 || unsigned(suffix) is Some,
        table.contains_key(decode_utf8(name)),
        table.contains_key(decode_utf8(alias)),
        table[decode_utf8(name)] == table[decode_utf8(alias)],
    ensures
        dispatch(table, message(name, suffix, rest)) == Some(
            Called {
                run: table[decode_utf8(name)],
                parsed: Parsed { name, num: unsigned(suffix), rest },
            },
        ),
        dispatch(table, message(alias, suffix, rest)) == Some(
            Called {
                run: table[decode_utf8(name)],
                parsed: Parsed { name: alias, num: unsigned(suffix), rest },
            },
        ),
{
    lemma_parse_message(name, suffix, rest);
    lemma_parse_message(alias, suffix, rest);
}

} // verus!
