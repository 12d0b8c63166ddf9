//! Carrying out requests on the stored redirections.
//!
//! A `start` request only decides what to start: the caller opens the
//! listener, then records the redirection with [`CommandHandler::register`].
//! `stop`, `slow` and `resume` change the mode of the first redirection with
//! the given name.

use vstd::prelude::*;
use vstd::string::*;
use crate::input_param::{CommandView, ErrorKind, ParsedCommand};
use crate::numbers::{
    parse_i32, parse_u64, spec_parse_i32, spec_parse_u64, decimal, law_parse_i32_reads_decimal,
};
use crate::redirection::{
    Redirection, RedirectionMode, ConnectionAction, spec_connection_action, spec_listen_address,
};
use crate::redirections_storage::{
    RedirectionsStorage, first_named, with_mode_of, lemma_first_named, lemma_first_named_push,
    lemma_first_named_same_names,
};

verus! {

/// Why a request was refused.
#[derive(Debug, Clone, Copy, PartialEq, Eq, Structural)]
pub enum CommandError {
    /// The exposed port of a `start` is not an `i32`.
    InvalidPort,
    /// The delay of a `slow` is not a `u64`.
    InvalidMs,
    /// No redirection has the given name.
    NotFound,
}

/// The text that describes a refused request.
pub open spec fn spec_command_error_message(e: CommandError) -> Seq<char> {
    match e {
        CommandError::InvalidPort => "Invalid port value"@,
        CommandError::InvalidMs => "Invalid ms value"@,
        CommandError::NotFound => "Redirection not found"@,
    }
}

pub open spec fn spec_command_error_kind(e: CommandError) -> ErrorKind {
    match e {
        CommandError::NotFound => ErrorKind::NotFound,
        _ => ErrorKind::InvalidInput,
    }
}

impl CommandError {
    /// A bad value is an invalid input; an unknown name is not found.
    pub fn kind(&self) -> (k: ErrorKind)
        ensures
            k == spec_command_error_kind(*self),
    {
        match self {
            CommandError::NotFound => ErrorKind::NotFound,
            _ => ErrorKind::InvalidInput,
        }
    }

    /// The text that describes this error.
    pub fn message(&self) -> (m: String)
        ensures
            m@ == spec_command_error_message(*self),
    {
        match self {
            CommandError::InvalidPort => String::from_str("Invalid port value"),
            CommandError::InvalidMs => String::from_str("Invalid ms value"),
            CommandError::NotFound => String::from_str("Redirection not found"),
        }
    }
}

/// What a request that was carried out asks of the caller.
#[derive(Debug)]
pub enum HandleOutcome {
    /// Open a listener for this redirection, then record it with
    /// [`CommandHandler::register`].
    Launch(Redirection),
    /// Nothing: the stored redirections have been updated.
    Updated,
}

pub struct CommandHandler<H> {
    storage: RedirectionsStorage<H>,
}

/// The redirection that `start <name> <expose>:<target>` launches.
pub open spec fn launched(r: Redirection, name: Seq<char>, port: i32, target: Seq<char>) -> bool {
    &&& r.name@ == name
    &&& r.listening_port == port
    &&& r.target_address@ == target
    &&& r.mode == RedirectionMode::Started
}

/// The outcome and the redirections after a mode change on `name`.
pub open spec fn mode_changed(
    before: Seq<Redirection>,
    name: Seq<char>,
    mode: RedirectionMode,
    r: Result<HandleOutcome, CommandError>,
    after: Seq<Redirection>,
) -> bool {
    match with_mode_of(before, name, mode) {
        Some(updated) => r matches Ok(HandleOutcome::Updated) && after == updated,
        None => r == Err::<HandleOutcome, CommandError>(CommandError::NotFound) && after == before,
    }
}

/// What carrying out `command` on the redirections `before` gives: the
/// outcome `r` and the redirections `after`.
pub open spec fn handled(
    before: Seq<Redirection>,
    command: CommandView,
    r: Result<HandleOutcome, CommandError>,
    after: Seq<Redirection>,
) -> bool {
    match command {
        CommandView::Start(name, expose, target) => {
            &&& after == before
            &&& match spec_parse_i32(expose) {
                None => r == Err::<HandleOutcome, CommandError>(CommandError::InvalidPort),
                Some(port) => r matches Ok(HandleOutcome::Launch(x)) && launched(
                    x,
                    name,
                    port,
                    target,
                ),
            }
        },
        CommandView::Stop(name) => mode_changed(before, name, RedirectionMode::Off, r, after),
        CommandView::Slow(name, ms) => match spec_parse_u64(ms) {
            None => r == Err::<HandleOutcome, CommandError>(CommandError::InvalidMs) && after
                == before,
            Some(v) => mode_changed(before, name, RedirectionMode::Slowed(v), r, after),
        },
        CommandView::Resume(name) => mode_changed(
            before,
            name,
            RedirectionMode::Started,
            r,
            after,
        ),
    }
}

impl<H> CommandHandler<H> {
    /// The stored redirections.
    pub closed spec fn redirections(&self) -> Seq<Redirection> {
        self.storage.redirections@
    }

    /// The stored listener handles.
    pub closed spec fn handles(&self) -> Seq<H> {
        self.storage.threads@
    }

    pub fn from_storage(storage: RedirectionsStorage<H>) -> (h: Self)
        ensures
            h.redirections() == storage.redirections@,
            h.handles() == storage.threads@,
    {
        CommandHandler { storage }
    }

    /// The storage this handler works on.
    pub fn storage(&self) -> (s: &RedirectionsStorage<H>)
        ensures
            s.redirections@ == self.redirections(),
            s.threads@ == self.handles(),
    {
        &self.storage
    }

    /// The position at which the next registered redirection will stand:
    /// its listener reads the stored mode there.
    pub fn next_position(&self) -> (i: usize)
        ensures
            i == self.redirections().len(),
    {
        self.storage.redirections.len()
    }

    /// Records a launched redirection and the handle of its listener.
    pub fn register(&mut self, redirection: Redirection, handle: H)
        ensures
            final(self).redirections() == old(self).redirections().push(redirection),
            final(self).handles() == old(self).handles().push(handle),
            final(self).redirections()[old(self).redirections().len() as int] == redirection,
    {
        self.storage.add_redirection(redirection, handle);
    }

    /// Carries out one request.
    pub fn handle(&mut self, command: ParsedCommand) -> (r: Result<HandleOutcome, CommandError>)
        ensures
            handled(old(self).redirections(), command@, r, final(self).redirections()),
            final(self).handles() == old(self).handles(),
    {
        match command {
            ParsedCommand::Start(name, expose, target) => self.handle_start(name, expose, target),
            ParsedCommand::Stop(name) => self.handle_stop(name),
            ParsedCommand::Slow(name, time) => self.handle_slow(name, time),
            ParsedCommand::Resume(name) => self.handle_resume(name),
        }
    }

    fn handle_start(&self, name: String, expose: String, target: String) -> (r: Result<
        HandleOutcome,
        CommandError,
    >)
        ensures
            match spec_parse_i32(expose@) {
                None => r == Err::<HandleOutcome, CommandError>(CommandError::InvalidPort),
                Some(port) => r matches Ok(HandleOutcome::Launch(x)) && launched(
                    x,
                    name@,
                    port,
                    target@,
                ),
            },
    {
        let port = match parse_i32(expose.as_str()) {
            Some(p) => p,
            None => {
                return Err(CommandError::InvalidPort);
            },
        };
        let mut r = Redirection::new(name, port, target);
        r.start();
        Ok(HandleOutcome::Launch(r))
    }

    fn handle_stop(&mut self, name: String) -> (r: Result<HandleOutcome, CommandError>)
        ensures
            mode_changed(
                old(self).redirections(),
                name@,
                RedirectionMode::Off,
                r,
                final(self).redirections(),
            ),
            final(self).handles() == old(self).handles(),
    {
        match self.storage.position_by_name(name.as_str()) {
            Some(i) => {
                proof {
                    lemma_first_named(self.storage.redirections@, name@);
                }
                let mut r = self.storage.redirections[i].clone();
                r.stop();
                self.storage.redirections.set(i, r);
                Ok(HandleOutcome::Updated)
            },
            None => Err(CommandError::NotFound),
        }
    }

    fn handle_slow(&mut self, name: String, time: String) -> (r: Result<
        HandleOutcome,
        CommandError,
    >)
        ensures
            match spec_parse_u64(time@) {
                None => r == Err::<HandleOutcome, CommandError>(CommandError::InvalidMs)
                    && final(self).redirections() == old(self).redirections(),
                Some(v) => mode_changed(
                    old(self).redirections(),
                    name@,
                    RedirectionMode::Slowed(v),
                    r,
                    final(self).redirections(),
                ),
            },
            final(self).handles() == old(self).handles(),
    {
        let ms = match parse_u64(time.as_str()) {
            Some(v) => v,
            None => {
                return Err(CommandError::InvalidMs);
            },
        };
        match self.storage.position_by_name(name.as_str()) {
            Some(i) => {
                proof {
                    lemma_first_named(self.storage.redirections@, name@);
                }
                let mut r = self.storage.redirections[i].clone();
                r.slow(ms);
                self.storage.redirections.set(i, r);
                Ok(HandleOutcome::Updated)
            },
            None => Err(CommandError::NotFound),
        }
    }

    fn handle_resume(&mut self, name: String) -> (r: Result<HandleOutcome, CommandError>)
        ensures
            mode_changed(
                old(self).redirections(),
                name@,
                RedirectionMode::Started,
                r,
                final(self).redirections(),
            ),
            final(self).handles() == old(self).handles(),
    {
        match self.storage.position_by_name(name.as_str()) {
            Some(i) => {
                proof {
                    lemma_first_named(self.storage.redirections@, name@);
                }
                let mut r = self.storage.redirections[i].clone();
                r.start();
                self.storage.redirections.set(i, r);
                Ok(HandleOutcome::Updated)
            },
            None => Err(CommandError::NotFound),
        }
    }
}

/// The lookup after a mode change finds the same position as before it.
proof fn lemma_first_named_after_update(rs: Seq<Redirection>, name: Seq<char>, i: int, r: Redirection)
    requires
        0 <= i < rs.len(),
        r.name == rs[i].name,
    ensures
        first_named(rs.update(i, r), name) == first_named(rs, name),
{
    let after = rs.update(i, r);
    assert forall|j: int| 0 <= j < rs.len() implies (#[trigger] after[j]).name@ == rs[j].name@ by {}
    lemma_first_named_same_names(after, rs, name, 0);
}

/// Read after write: once the first redirection called `name` has been given
/// `mode`, a lookup by `name` finds the same position, and it has `mode`.
pub proof fn law_mode_change_is_read_back(rs: Seq<Redirection>, name: Seq<char>, mode: RedirectionMode)
    requires
        with_mode_of(rs, name, mode) is Some,
    ensures
        ({
            let after = with_mode_of(rs, name, mode)->0;
            &&& first_named(after, name) == first_named(rs, name)
            &&& after[first_named(after, name)->0].mode == mode
        }),
{
    lemma_first_named(rs, name);
    let i = first_named(rs, name)->0;
    lemma_first_named_after_update(rs, name, i, rs[i].with_mode(mode));
}

/// The last mode given wins: giving `name` the mode `m1` and then `m2` leaves
/// the redirections as giving it `m2` alone does.
pub proof fn law_last_mode_wins(
    rs: Seq<Redirection>,
    name: Seq<char>,
    m1: RedirectionMode,
    m2: RedirectionMode,
)
    requires
        with_mode_of(rs, name, m1) is Some,
    ensures
        with_mode_of(with_mode_of(rs, name, m1)->0, name, m2) == with_mode_of(rs, name, m2),
{
    lemma_first_named(rs, name);
    let i = first_named(rs, name)->0;
    let mid = rs.update(i, rs[i].with_mode(m1));
    lemma_first_named_after_update(rs, name, i, rs[i].with_mode(m1));
    assert(mid.update(i, mid[i].with_mode(m2)) =~= rs.update(i, rs[i].with_mode(m2)));
}

/// A mode change touches nothing else: the redirections keep their number,
/// order, names, ports and targets, and every redirection other than the first
/// one called `name` is left as it was.
pub proof fn law_mode_change_is_local(rs: Seq<Redirection>, name: Seq<char>, mode: RedirectionMode)
    requires
        with_mode_of(rs, name, mode) is Some,
    ensures
        ({
            let after = with_mode_of(rs, name, mode)->0;
            let i = first_named(rs, name)->0;
            &&& after.len() == rs.len()
            &&& forall|j: int|
                0 <= j < rs.len() ==> {
                    &&& (#[trigger] after[j]).name == rs[j].name
                    &&& after[j].listening_port == rs[j].listening_port
                    &&& after[j].target_address == rs[j].target_address
                }
            &&& forall|j: int| 0 <= j < rs.len() && j != i ==> #[trigger] after[j] == rs[j]
        }),
{
    lemma_first_named(rs, name);
}

/// Carrying out any request keeps the number of redirections and their names,
/// ports and targets: requests only ever change modes.
pub proof fn law_requests_only_change_modes(
    before: Seq<Redirection>,
    command: CommandView,
    r: Result<HandleOutcome, CommandError>,
    after: Seq<Redirection>,
)
    requires
        handled(before, command, r, after),
    ensures
        after.len() == before.len(),
        forall|j: int|
            0 <= j < before.len() ==> {
                &&& (#[trigger] after[j]).name == before[j].name
                &&& after[j].listening_port == before[j].listening_port
                &&& after[j].target_address == before[j].target_address
            },
{
    let name = match command {
        CommandView::Start(n, _, _) => n,
        CommandView::Stop(n) => n,
        CommandView::Slow(n, _) => n,
        CommandView::Resume(n) => n,
    };
    lemma_first_named(before, name);
}

/// A refused request changes nothing.
pub proof fn law_refused_request_changes_nothing(
    before: Seq<Redirection>,
    command: CommandView,
    e: CommandError,
    after: Seq<Redirection>,
)
    requires
        handled(before, command, Err(e), after),
    ensures
        after == before,
{
}

/// Once registered, a redirection can be found by its name: a lookup after
/// `register` finds the earlier redirection of that name if there was one,
/// else the new one.
pub proof fn law_registered_is_found(rs: Seq<Redirection>, r: Redirection)
    ensures
        first_named(rs.push(r), r.name@) == match first_named(rs, r.name@) {
            Some(i) => Some(i),
            None => Some(rs.len() as int),
        },
{
    lemma_first_named_push(rs, r, r.name@, 0);
}

/// What the listener of the first redirection called `name` does with new
/// connections after a mode change: `stop` closes them, `slow` delays them,
/// `resume` relays them.
pub proof fn law_mode_change_sets_connection_action(
    rs: Seq<Redirection>,
    name: Seq<char>,
    mode: RedirectionMode,
)
    requires
        with_mode_of(rs, name, mode) is Some,
    ensures
        ({
            let after = with_mode_of(rs, name, mode)->0;
            spec_connection_action(after[first_named(after, name)->0].mode) == match mode {
                RedirectionMode::Off => ConnectionAction::Close,
                RedirectionMode::Slowed(ms) => ConnectionAction::DelayThenRelay(ms),
                RedirectionMode::Started => ConnectionAction::Relay,
            }
        }),
{
    law_mode_change_is_read_back(rs, name, mode);
}

/// A `start` whose exposed port is written in decimal launches a redirection
/// that listens on exactly that port: on `127.0.0.1:` followed by the same text.
pub proof fn law_start_listens_on_given_port(
    before: Seq<Redirection>,
    name: Seq<char>,
    port: i32,
    target: Seq<char>,
    r: Result<HandleOutcome, CommandError>,
    after: Seq<Redirection>,
)
    requires
        handled(before, CommandView::Start(name, decimal(port as int), target), r, after),
    ensures
        r matches Ok(HandleOutcome::Launch(x)) && x.listening_port == port && spec_listen_address(
            x.listening_port,
        ) == "127.0.0.1:"@ + decimal(port as int),
{
    law_parse_i32_reads_decimal(port);
}

/// A registered redirection can always be switched: after `register(x, _)`,
/// `stop`, `slow` and `resume` on `x`'s name are never refused as not found.
pub proof fn law_registered_can_be_switched(rs: Seq<Redirection>, x: Redirection, mode: RedirectionMode)
    ensures
        with_mode_of(rs.push(x), x.name@, mode) is Some,
{
    law_registered_is_found(rs, x);
}

/// `resume` undoes `stop` and `slow`: after a `stop` or `slow` on `name` that
/// was carried out, a `resume` on `name` succeeds, the first redirection called
/// `name` is relaying again, as right after it was launched, and the
/// redirections are as a `resume` alone would have left them.
pub proof fn law_resume_undoes_stop_or_slow(
    before: Seq<Redirection>,
    first: CommandView,
    r1: Result<HandleOutcome, CommandError>,
    mid: Seq<Redirection>,
    name: Seq<char>,
    r2: Result<HandleOutcome, CommandError>,
    after: Seq<Redirection>,
)
    requires
        (first matches CommandView::Stop(n) && n == name) || (first matches CommandView::Slow(
            n,
            _,
        ) && n == name),
        handled(before, first, r1, mid),
        r1 is Ok,
        handled(mid, CommandView::Resume(name), r2, after),
    ensures
        r2 matches Ok(HandleOutcome::Updated),
        Some(after) == with_mode_of(before, name, RedirectionMode::Started),
        after[first_named(after, name)->0].mode == RedirectionMode::Started,
        first_named(after, name) == first_named(before, name),
{
    let m = match first {
        CommandView::Slow(_, t) => RedirectionMode::Slowed(spec_parse_u64(t)->0),
        _ => RedirectionMode::Off,
    };
    assert(with_mode_of(before, name, m) == Some(mid));
    law_last_mode_wins(before, name, m, RedirectionMode::Started);
    law_mode_change_is_read_back(before, name, m);
    law_mode_change_is_read_back(mid, name, RedirectionMode::Started);
}

/// A `resume` (or `stop`, or a `slow` with a valid delay) on a name that no
/// redirection has is refused as not found, with the text "Redirection not
/// found", and changes nothing.
pub proof fn law_unknown_name_is_not_found(
    before: Seq<Redirection>,
    command: CommandView,
    r: Result<HandleOutcome, CommandError>,
    after: Seq<Redirection>,
)
    requires
        command is Resume || command is Stop || (command matches CommandView::Slow(_, t)
            && spec_parse_u64(t) is Some),
        first_named(
            before,
            match command {
                CommandView::Resume(n) => n,
                CommandView::Stop(n) => n,
                CommandView::Slow(n, _) => n,
                CommandView::Start(n, _, _) => n,
            },
        ) is None,
        handled(before, command, r, after),
    ensures
        r == Err::<HandleOutcome, CommandError>(CommandError::NotFound),
        spec_command_error_kind(CommandError::NotFound) == ErrorKind::NotFound,
        spec_command_error_message(CommandError::NotFound) == "Redirection not found"@,
        after == before,
{
}

/// A listener told the position `next_position` gave before `register` keeps
/// finding its redirection there: after `register` the redirection stands at
/// that position, and no request afterwards moves it or changes its name,
/// port or target.
pub proof fn law_registered_position_is_stable(
    rs: Seq<Redirection>,
    x: Redirection,
    command: CommandView,
    r: Result<HandleOutcome, CommandError>,
    after: Seq<Redirection>,
)
    requires
        handled(rs.push(x), command, r, after),
    ensures
        after.len() == rs.len() + 1,
        after[rs.len() as int].name == x.name,
        after[rs.len() as int].listening_port == x.listening_port,
        after[rs.len() as int].target_address == x.target_address,
{
    law_requests_only_change_modes(rs.push(x), command, r, after);
}

/// `i` is the position of the first redirection called `name`.
proof fn lemma_first_named_is(rs: Seq<Redirection>, name: Seq<char>, i: int)
    requires
        0 <= i < rs.len(),
        rs[i].name@ == name,
        forall|j: int| 0 <= j < i ==> #[trigger] rs[j].name@ != name,
    ensures
        first_named(rs, name) == Some(i),
{
    lemma_first_named(rs, name);
    if first_named(rs, name) is None {
        assert(rs[i].name@ != name);
    } else {
        let k = first_named(rs, name)->0;
        if k < i {
            assert(rs[k].name@ != name);
        } else if k > i {
            assert(rs[i].name@ != name);
        }
    }
}

/// `stop`, `slow` and `resume` on a name that a stored redirection has always
/// succeed, whatever mode that redirection is in: the first redirection
/// called `name` (at `i`) gets `mode`, keeps its name, port and target, and
/// every other redirection is left as it was.
proof fn lemma_switch_at(
    before: Seq<Redirection>,
    name: Seq<char>,
    i: int,
    mode: RedirectionMode,
    r: Result<HandleOutcome, CommandError>,
    after: Seq<Redirection>,
)
    requires
        0 <= i < before.len(),
        before[i].name@ == name,
        forall|j: int| 0 <= j < i ==> #[trigger] before[j].name@ != name,
        mode_changed(before, name, mode, r, after),
    ensures
        r matches Ok(HandleOutcome::Updated),
        after.len() == before.len(),
        after[i].mode == mode,
        after[i].name == before[i].name,
        after[i].listening_port == before[i].listening_port,
        after[i].target_address == before[i].target_address,
        forall|j: int| 0 <= j < before.len() && j != i ==> #[trigger] after[j] == before[j],
{
    lemma_first_named_is(before, name, i);
}

/// A `stop` on a name that a stored redirection has always succeeds, even when
/// that redirection is already off: the first redirection called `name` (at
/// `i`) is off afterwards, with its name, port and target kept, and every
/// other redirection is left as it was.
pub proof fn law_stop_switches_off(
    before: Seq<Redirection>,
    name: Seq<char>,
    i: int,
    r: Result<HandleOutcome, CommandError>,
    after: Seq<Redirection>,
)
    requires
        0 <= i < before.len(),
        before[i].name@ == name,
        forall|j: int| 0 <= j < i ==> #[trigger] before[j].name@ != name,
        handled(before, CommandView::Stop(name), r, after),
    ensures
        r matches Ok(HandleOutcome::Updated),
        after.len() == before.len(),
        after[i].mode == RedirectionMode::Off,
        after[i].name == before[i].name,
        after[i].listening_port == before[i].listening_port,
        after[i].target_address == before[i].target_address,
        forall|j: int| 0 <= j < before.len() && j != i ==> #[trigger] after[j] == before[j],
{
    lemma_switch_at(before, name, i, RedirectionMode::Off, r, after);
}

/// A `resume` on a name that a stored redirection has always succeeds, even
/// when that redirection is already relaying: the first redirection called
/// `name` (at `i`) relays afterwards, and every other redirection is left as
/// it was.
pub proof fn law_resume_switches_on(
    before: Seq<Redirection>,
    name: Seq<char>,
    i: int,
    r: Result<HandleOutcome, CommandError>,
    after: Seq<Redirection>,
)
    requires
        0 <= i < before.len(),
        before[i].name@ == name,
        forall|j: int| 0 <= j < i ==> #[trigger] before[j].name@ != name,
        handled(before, CommandView::Resume(name), r, after),
    ensures
        r matches Ok(HandleOutcome::Updated),
        after.len() == before.len(),
        after[i].mode == RedirectionMode::Started,
        after[i].name == before[i].name,
        after[i].listening_port == before[i].listening_port,
        after[i].target_address == before[i].target_address,
        forall|j: int| 0 <= j < before.len() && j != i ==> #[trigger] after[j] == before[j],
{
    lemma_switch_at(before, name, i, RedirectionMode::Started, r, after);
}

/// A `slow` whose delay text reads as the `u64` `v`, on a name that a stored
/// redirection has, always succeeds, whatever `v` and whatever the mode: the
/// first redirection called `name` (at `i`) relays after `v` milliseconds
/// afterwards, and every other redirection is left as it was.
pub proof fn law_slow_sets_delay(
    before: Seq<Redirection>,
    name: Seq<char>,
    ms: Seq<char>,
    v: u64,
    i: int,
    r: Result<HandleOutcome, CommandError>,
    after: Seq<Redirection>,
)
    requires
        spec_parse_u64(ms) == Some(v),
        0 <= i < before.len(),
        before[i].name@ == name,
        forall|j: int| 0 <= j < i ==> #[trigger] before[j].name@ != name,
        handled(before, CommandView::Slow(name, ms), r, after),
    ensures
        r matches Ok(HandleOutcome::Updated),
        after.len() == before.len(),
        after[i].mode == RedirectionMode::Slowed(v),
        after[i].name == before[i].name,
        after[i].listening_port == before[i].listening_port,
        after[i].target_address == before[i].target_address,
        forall|j: int| 0 <= j < before.len() && j != i ==> #[trigger] after[j] == before[j],
{
    lemma_switch_at(before, name, i, RedirectionMode::Slowed(v), r, after);
}

/// The delay of `slow <name> <v>`, with `v` written in decimal, is exactly `v`
/// milliseconds, for every `u64` `v`.
pub proof fn law_slow_delay_is_the_written_number(
    before: Seq<Redirection>,
    name: Seq<char>,
    v: u64,
    i: int,
    r: Result<HandleOutcome, CommandError>,
    after: Seq<Redirection>,
)
    requires
        0 <= i < before.len(),
        before[i].name@ == name,
        forall|j: int| 0 <= j < i ==> #[trigger] before[j].name@ != name,
        handled(before, CommandView::Slow(name, decimal(v as int)), r, after),
    ensures
        r matches Ok(HandleOutcome::Updated),
        after[i].mode == RedirectionMode::Slowed(v),
{
    crate::numbers::law_parse_u64_reads_decimal(v);
    law_slow_sets_delay(before, name, decimal(v as int), v, i, r, after);
}

/// A `start` whose port text reads as `port` launches a redirection with the
/// request's name, that port, exactly the request's target text as its target
/// address, relaying from the start; nothing stored changes until it is
/// registered.
pub proof fn law_start_launches_to_target(
    before: Seq<Redirection>,
    name: Seq<char>,
    expose: Seq<char>,
    port: i32,
    target: Seq<char>,
    r: Result<HandleOutcome, CommandError>,
    after: Seq<Redirection>,
)
    requires
        spec_parse_i32(expose) == Some(port),
        handled(before, CommandView::Start(name, expose, target), r, after),
    ensures
        r matches Ok(HandleOutcome::Launch(x)) && x.name@ == name && x.listening_port == port
            && x.target_address@ == target && x.mode == RedirectionMode::Started,
        after == before,
{
}

} // verus!
