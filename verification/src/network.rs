//! The remote-control protocol: the receiver's state, the commands it accepts
//! and its replies, and the lines the sender writes.
//!
//! A session is one line per request: where the receiver has a password, the
//! client first sends `AUTH <password>` and gets `OK` or `ERR auth_failed`;
//! then it sends one command (`STOP`, `PLAY_QUEUE` or `PLAY <name>`) and gets
//! one reply line.

use vstd::prelude::*;
use crate::text::{
    chars_of, chars_eq, push_str, starts_with, starts_with_spec, string_of, trim, trim_chars,
    trim_start, trim_end, is_white_space, push_decimal, decimal_digits, parse_u16, parse_u16_spec,
};
use crate::config::{default_remote_port, DEFAULT_REMOTE_PORT};

verus! {

broadcast use vstd::seq_lib::group_seq_properties;

/// The longest line, in bytes, that either side accepts.
pub const MAX_LINE_BYTES: usize = 512;

/// The receiver's state, shared by the listener thread and the UI.
pub struct ListenerState {
    running: bool,
    shutdown: bool,
    error: Option<String>,
}

impl ListenerState {
    pub closed spec fn running(&self) -> bool {
        self.running
    }

    /// A stop was asked for and the listener thread has not yet seen it.
    pub closed spec fn shutdown_requested(&self) -> bool {
        self.shutdown
    }

    pub closed spec fn error(&self) -> Option<Seq<char>> {
        match self.error {
            Some(e) => Some(e@),
            None => None,
        }
    }

    /// Not listening, with no error.
    pub fn new() -> (s: Self)
        ensures
            !s.running(),
            !s.shutdown_requested(),
            s.error() is None,
    {
        ListenerState { running: false, shutdown: false, error: None }
    }

    /// Mark the listener as started, or refuse where one is already running.
    /// Binding the socket is done before this by the caller.
    pub fn begin(&mut self) -> (r: Result<(), String>)
        ensures
            old(self).running() ==> r is Err && *final(self) == *old(self) && r->Err_0@
                == "Already listening"@,
            !old(self).running() ==> r is Ok && final(self).running()
                && !final(self).shutdown_requested() && final(self).error() is None,
    {
        if self.running {
            let mut e = String::new();
            push_str(&mut e, "Already listening");
            return Err(e);
        }
        self.running = true;
        self.shutdown = false;
        self.error = None;
        Ok(())
    }

    /// The listener thread ended, after a stop or after `accept` failed.
    pub fn ended(&mut self, accept_error: Option<String>)
        ensures
            !final(self).running(),
            final(self).shutdown_requested() == old(self).shutdown_requested(),
            accept_error matches Some(e) ==> final(self).error() == Some(e@),
            accept_error is None ==> final(self).error() == old(self).error(),
    {
        self.running = false;
        if let Some(e) = accept_error {
            self.error = Some(e);
        }
    }
}

/// Start the receiver, given how binding its socket went (the caller binds
/// only where none is listening): refused with `Already listening` where one
/// runs, refused with the bind error where binding failed, and otherwise
/// listening, with no stop asked and no error kept.
pub fn start_listening(state: &mut ListenerState, bind: Result<(), String>) -> (r: Result<(), String>)
    ensures
        old(state).running() ==> (r matches Err(e) && e@ == "Already listening"@) && *final(state)
            == *old(state),
        !old(state).running() && bind is Err ==> r == bind && *final(state) == *old(state),
        !old(state).running() && bind is Ok ==> r is Ok && final(state).running()
            && !final(state).shutdown_requested() && final(state).error() is None,
{
    if state.running {
        return state.begin();
    }
    match bind {
        Err(e) => Err(e),
        Ok(()) => state.begin(),
    }
}

/// Whether the receiver is listening.
pub fn is_listening(state: &ListenerState) -> (b: bool)
    ensures
        b == state.running(),
{
    state.running
}

/// Whether the listener thread is to stop before its next `accept`.
pub fn stop_requested(state: &ListenerState) -> (b: bool)
    ensures
        b == state.shutdown_requested(),
{
    state.shutdown
}

/// The error that ended the listener, if any, which is then cleared.
pub fn take_listener_error(state: &mut ListenerState) -> (e: Option<String>)
    ensures
        match e {
            Some(s) => old(state).error() == Some(s@),
            None => old(state).error() is None,
        },
        final(state).error() is None,
        final(state).running() == old(state).running(),
        final(state).shutdown_requested() == old(state).shutdown_requested(),
{
    let e = state.error.take();
    e
}

/// Ask the listener thread to stop.
pub fn stop_listener(state: &mut ListenerState)
    ensures
        final(state).shutdown_requested(),
        final(state).running() == old(state).running(),
        final(state).error() == old(state).error(),
{
    state.shutdown = true;
}

// ---- Replies ----

/// A reply line of the receiver.
#[derive(Clone, Copy, Debug, PartialEq, Eq, Structural)]
pub enum Reply {
    Success,
    AuthFailed,
    Recording,
    AlreadyPlaying,
    EmptyQueue,
    LoadFailed,
    EmptyName,
    NotFound,
    UnknownCommand,
}

/// The text of a reply, with its line end.
pub open spec fn reply_spec(r: Reply) -> Seq<char> {
    match r {
        Reply::Success => "OK\n"@,
        Reply::AuthFailed => "ERR auth_failed\n"@,
        Reply::Recording => "ERR recording\n"@,
        Reply::AlreadyPlaying => "ERR already_playing\n"@,
        Reply::EmptyQueue => "ERR empty_queue\n"@,
        Reply::LoadFailed => "ERR load_failed\n"@,
        Reply::EmptyName => "ERR empty_name\n"@,
        Reply::NotFound => "ERR not_found\n"@,
        Reply::UnknownCommand => "ERR unknown_command\n"@,
    }
}

/// The line that the receiver writes for a reply.
pub fn reply_text(r: Reply) -> (s: String)
    ensures
        s@ == reply_spec(r),
{
    let mut s = String::new();
    match r {
        Reply::Success => push_str(&mut s, "OK\n"),
        Reply::AuthFailed => push_str(&mut s, "ERR auth_failed\n"),
        Reply::Recording => push_str(&mut s, "ERR recording\n"),
        Reply::AlreadyPlaying => push_str(&mut s, "ERR already_playing\n"),
        Reply::EmptyQueue => push_str(&mut s, "ERR empty_queue\n"),
        Reply::LoadFailed => push_str(&mut s, "ERR load_failed\n"),
        Reply::EmptyName => push_str(&mut s, "ERR empty_name\n"),
        Reply::NotFound => push_str(&mut s, "ERR not_found\n"),
        Reply::UnknownCommand => push_str(&mut s, "ERR unknown_command\n"),
    }
    s
}

// ---- Reading lines ----

/// A line read from a peer, as `BufRead::read_line` left it: the bytes read
/// (`None` where reading failed) and the text. Nothing at end of stream, on a
/// failed read, or where the line is longer than 512 bytes.
pub fn read_line(bytes_read: Option<usize>, line: String) -> (r: Option<String>)
    ensures
        r is Some <==> (bytes_read matches Some(n) && 0 < n <= MAX_LINE_BYTES),
        r matches Some(l) ==> l == line,
{
    match bytes_read {
        Some(n) => {
            if n == 0 || n > MAX_LINE_BYTES {
                None
            } else {
                Some(line)
            }
        },
        None => None,
    }
}

// ---- The receiver ----

/// The request that a command line makes.
pub ghost enum RequestSpec {
    Respond(Reply),
    Cancel,
    Queue,
    Play(Seq<char>),
}

/// What the receiver does with a command line, given whether it is recording,
/// whether it is playing and whether its queue is empty.
pub open spec fn command_spec(line: Seq<char>, recording: bool, playing: bool, queue_empty: bool) -> RequestSpec {
    let t = trim(line);
    if recording {
        RequestSpec::Respond(Reply::Recording)
    } else if t == "STOP"@ {
        RequestSpec::Cancel
    } else if t == "PLAY_QUEUE"@ {
        if playing {
            RequestSpec::Respond(Reply::AlreadyPlaying)
        } else if queue_empty {
            RequestSpec::Respond(Reply::EmptyQueue)
        } else {
            RequestSpec::Queue
        }
    } else if starts_with_spec(t, "PLAY "@) {
        let name = trim(t.skip(5));
        if name.len() == 0 {
            RequestSpec::Respond(Reply::EmptyName)
        } else if playing {
            RequestSpec::Respond(Reply::AlreadyPlaying)
        } else {
            RequestSpec::Play(name)
        }
    } else {
        RequestSpec::Respond(Reply::UnknownCommand)
    }
}

/// What the receiver does with a command.
#[derive(Clone, Debug)]
pub enum CommandPlan {
    /// Write this reply and do nothing else.
    Respond(Reply),
    /// Cancel playback and reply `OK`.
    CancelPlayback,
    /// Load the queued sequences and play those that load.
    PlayQueue,
    /// Load the named sequence and play it.
    PlaySequence(String),
}

pub open spec fn plan_view(p: CommandPlan) -> RequestSpec {
    match p {
        CommandPlan::Respond(r) => RequestSpec::Respond(r),
        CommandPlan::CancelPlayback => RequestSpec::Cancel,
        CommandPlan::PlayQueue => RequestSpec::Queue,
        CommandPlan::PlaySequence(n) => RequestSpec::Play(n@),
    }
}

/// Decide what a command line asks of the receiver.
pub fn execute_command(line: &str, recording: bool, playing: bool, queue_empty: bool) -> (p:
    CommandPlan)
    ensures
        plan_view(p) == command_spec(line@, recording, playing, queue_empty),
{
    let t = trim_chars(&chars_of(line));
    if recording {
        return CommandPlan::Respond(Reply::Recording);
    }
    if chars_eq(&t, &chars_of("STOP")) {
        return CommandPlan::CancelPlayback;
    }
    if chars_eq(&t, &chars_of("PLAY_QUEUE")) {
        if playing {
            return CommandPlan::Respond(Reply::AlreadyPlaying);
        }
        if queue_empty {
            return CommandPlan::Respond(Reply::EmptyQueue);
        }
        return CommandPlan::PlayQueue;
    }
    let play = chars_of("PLAY ");
    if starts_with(&t, &play) {
        proof {
            reveal_strlit("PLAY ");
        }
        let mut rest: Vec<char> = Vec::new();
        let mut i: usize = 5;
        while i < t.len()
            invariant
                5 <= i <= t.len(),
                rest@ == t@.subrange(5, i as int),
            decreases t.len() - i,
        {
            rest.push(t[i]);
            i = i + 1;
            assert(rest@ =~= t@.subrange(5, i as int));
        }
        assert(rest@ =~= t@.skip(5));
        let name = trim_chars(&rest);
        if name.len() == 0 {
            return CommandPlan::Respond(Reply::EmptyName);
        }
        if playing {
            return CommandPlan::Respond(Reply::AlreadyPlaying);
        }
        return CommandPlan::PlaySequence(string_of(&name));
    }
    CommandPlan::Respond(Reply::UnknownCommand)
}

/// The reply to `PLAY_QUEUE` once the queue was loaded: `OK` where at least
/// one sequence loaded, which is then played.
pub fn queue_load_reply(loaded: usize) -> (r: Reply)
    ensures
        r == (if loaded == 0 { Reply::LoadFailed } else { Reply::Success }),
{
    if loaded == 0 {
        Reply::LoadFailed
    } else {
        Reply::Success
    }
}

/// The reply to `PLAY <name>` once the sequence was looked up.
pub fn play_load_reply(found: bool) -> (r: Reply)
    ensures
        r == (if found { Reply::Success } else { Reply::NotFound }),
{
    if found {
        Reply::Success
    } else {
        Reply::NotFound
    }
}

/// The reply to a command once it was carried out: its own reply for a plan
/// that only answers; `OK` for a cancel; for `PLAY_QUEUE`, by how many queued
/// sequences loaded; for `PLAY <name>`, by whether the sequence loaded.
pub fn plan_reply(plan: &CommandPlan, loaded: usize, found: bool) -> (r: Reply)
    ensures
        match plan {
            CommandPlan::Respond(x) => r == *x,
            CommandPlan::CancelPlayback => r == Reply::Success,
            CommandPlan::PlayQueue => r == (if loaded == 0 { Reply::LoadFailed } else { Reply::Success }),
            CommandPlan::PlaySequence(_) => r == (if found { Reply::Success } else { Reply::NotFound }),
        },
{
    match plan {
        CommandPlan::Respond(x) => *x,
        CommandPlan::CancelPlayback => Reply::Success,
        CommandPlan::PlayQueue => queue_load_reply(loaded),
        CommandPlan::PlaySequence(_) => play_load_reply(found),
    }
}

/// A client's first line is accepted where it starts with `AUTH ` and the rest,
/// trimmed, is the password.
pub open spec fn auth_accepted_spec(line: Seq<char>, password: Seq<char>) -> bool {
    starts_with_spec(line, "AUTH "@) && trim(line.skip(5)) == password
}

/// Whether the receiver accepts a client's authentication line.
pub fn auth_accepted(line: &str, password: &str) -> (b: bool)
    ensures
        b == auth_accepted_spec(line@, password@),
{
    proof {
        reveal_strlit("AUTH ");
    }
    let l = chars_of(line);
    if !starts_with(&l, &chars_of("AUTH ")) {
        return false;
    }
    let mut rest: Vec<char> = Vec::new();
    let mut i: usize = 5;
    while i < l.len()
        invariant
            5 <= i <= l.len(),
            rest@ == l@.subrange(5, i as int),
        decreases l.len() - i,
    {
        rest.push(l[i]);
        i = i + 1;
        assert(rest@ =~= l@.subrange(5, i as int));
    }
    assert(rest@ =~= l@.skip(5));
    chars_eq(&trim_chars(&rest), &chars_of(password))
}

/// The port typed into the remote dialog, or the default port where the text
/// is not one.
pub fn port_from_text(text: &str) -> (p: u16)
    ensures
        match parse_u16_spec(text@) {
            Some(v) => p == v,
            None => p == DEFAULT_REMOTE_PORT,
        },
{
    match parse_u16(text) {
        Some(p) => p,
        None => default_remote_port(),
    }
}

/// The address the receiver binds: every interface, at `port`.
pub fn listen_address(port: u16) -> (s: String)
    ensures
        s@ == "0.0.0.0:"@ + decimal_digits(port as nat),
{
    let mut s = String::new();
    push_str(&mut s, "0.0.0.0:");
    push_decimal(&mut s, port as u64);
    s
}

/// The address the sender connects to: `host:port`.
pub fn host_address(host: &str, port: u16) -> (s: String)
    ensures
        s@ == host@ + ":"@ + decimal_digits(port as nat),
{
    let mut s = String::new();
    push_str(&mut s, host);
    push_str(&mut s, ":");
    push_decimal(&mut s, port as u64);
    s
}

// ---- A client's session ----

/// Where a client's session with the receiver stands.
#[derive(Clone, Copy, Debug, PartialEq, Eq, Structural)]
pub enum SessionPhase {
    /// The receiver waits for the `AUTH` line.
    Auth,
    /// The receiver waits for the one command of the session.
    Command,
    /// The session is over; the connection is closed.
    Closed,
}

/// What the receiver does with a line of a session.
#[derive(Clone, Debug)]
pub enum SessionAction {
    /// Close the connection without a word.
    Close,
    /// Write this reply.
    Reply(Reply),
    /// Carry out this command and write its reply.
    Run(CommandPlan),
}

/// The first phase of a session: authentication where a password is set.
pub fn session_start(password: &Option<String>) -> (p: SessionPhase)
    ensures
        p == (if password is Some { SessionPhase::Auth } else { SessionPhase::Command }),
{
    match password {
        Some(_) => SessionPhase::Auth,
        None => SessionPhase::Command,
    }
}

/// One line of a session (`None` where none could be read, see `read_line`):
/// a missing line closes the session; a refused `AUTH` line is answered
/// `ERR auth_failed` and closes it, an accepted one is answered `OK`; the
/// command that follows is carried out and ends the session. Without a
/// password there is nothing to authenticate, and the line is the command.
pub fn session_step(
    phase: SessionPhase,
    password: &Option<String>,
    line: Option<String>,
    recording: bool,
    playing: bool,
    queue_empty: bool,
) -> (r: (SessionPhase, SessionAction))
    ensures
        phase == SessionPhase::Closed ==> r.0 == SessionPhase::Closed && r.1 is Close,
        phase != SessionPhase::Closed && line is None ==> r.0 == SessionPhase::Closed && r.1 is Close,
        phase == SessionPhase::Auth && line is Some ==> match password {
            Some(pw) => if auth_accepted_spec(line->Some_0@, pw@) {
                r.0 == SessionPhase::Command && (r.1 matches SessionAction::Reply(x) && x
                    == Reply::Success)
            } else {
                r.0 == SessionPhase::Closed && (r.1 matches SessionAction::Reply(x) && x
                    == Reply::AuthFailed)
            },
            None => r.0 == SessionPhase::Closed && (r.1 matches SessionAction::Run(plan)
                && plan_view(plan) == command_spec(line->Some_0@, recording, playing, queue_empty)),
        },
        phase == SessionPhase::Command && line is Some ==> r.0 == SessionPhase::Closed && (r.1 matches SessionAction::Run(plan)
            && plan_view(plan) == command_spec(line->Some_0@, recording, playing, queue_empty)),
{
    match phase {
        SessionPhase::Closed => (SessionPhase::Closed, SessionAction::Close),
        SessionPhase::Auth => match line {
            None => (SessionPhase::Closed, SessionAction::Close),
            Some(l) => match password {
                Some(pw) => {
                    if auth_accepted(l.as_str(), pw.as_str()) {
                        (SessionPhase::Command, SessionAction::Reply(Reply::Success))
                    } else {
                        (SessionPhase::Closed, SessionAction::Reply(Reply::AuthFailed))
                    }
                },
                None => (
                    SessionPhase::Closed,
                    SessionAction::Run(execute_command(l.as_str(), recording, playing, queue_empty)),
                ),
            },
        },
        SessionPhase::Command => match line {
            None => (SessionPhase::Closed, SessionAction::Close),
            Some(l) => (
                SessionPhase::Closed,
                SessionAction::Run(execute_command(l.as_str(), recording, playing, queue_empty)),
            ),
        },
    }
}

// ---- The sender ----

/// The authentication line that the sender writes.
pub open spec fn auth_line_spec(password: Seq<char>) -> Seq<char> {
    "AUTH "@ + password + "\n"@
}

/// The line `AUTH <password>` with its line end.
pub fn auth_line(password: &str) -> (s: String)
    ensures
        s@ == auth_line_spec(password@),
{
    let mut s = String::new();
    push_str(&mut s, "AUTH ");
    push_str(&mut s, password);
    push_str(&mut s, "\n");
    s
}

/// The line that carries a command, with its line end.
pub fn command_line(command: &str) -> (s: String)
    ensures
        s@ == command@ + "\n"@,
{
    let mut s = String::new();
    push_str(&mut s, command);
    push_str(&mut s, "\n");
    s
}

/// The command that plays a sequence on the receivers.
pub fn play_command(name: &str) -> (s: String)
    ensures
        s@ == "PLAY "@ + name@,
{
    let mut s = String::new();
    push_str(&mut s, "PLAY ");
    push_str(&mut s, name);
    s
}

/// Whether the receiver's answer to the authentication line (empty where none
/// came) lets the sender go on.
pub fn auth_reply_ok(response: &str) -> (b: bool)
    ensures
        b == (trim(response@) == "OK"@),
{
    chars_eq(&trim_chars(&chars_of(response)), &chars_of("OK"))
}

/// The answer to a command as the sender reports it: trimmed.
pub fn command_reply(response: &str) -> (s: String)
    ensures
        s@ == trim(response@),
{
    string_of(&trim_chars(&chars_of(response)))
}

/// What `send_command` returns once the receiver answered: an error where
/// authentication was asked for and refused, else the trimmed answer.
pub fn send_outcome(auth_response: Option<&str>, response: &str) -> (r: Result<String, String>)
    ensures
        match auth_response {
            Some(a) if trim(a@) != "OK"@ => r is Err && r->Err_0@ == "Authentication failed"@,
            _ => r is Ok && r->Ok_0@ == trim(response@),
        },
{
    if let Some(a) = auth_response {
        if !auth_reply_ok(a) {
            let mut e = String::new();
            push_str(&mut e, "Authentication failed");
            return Err(e);
        }
    }
    Ok(command_reply(response))
}

// ---- Laws of the protocol ----

proof fn lemma_trim_start_push(s: Seq<char>, c: char)
    ensures
        trim_start(s).len() > 0 ==> trim_start(s.push(c)) == trim_start(s).push(c),
        trim_start(s).len() == 0 ==> trim_start(s.push(c)) == trim_start(seq![c]),
    decreases s.len(),
{
    if s.len() > 0 && is_white_space(s[0]) {
        assert(s.push(c).drop_first() =~= s.drop_first().push(c));
        lemma_trim_start_push(s.drop_first(), c);
    } else if s.len() == 0 {
        assert(s.push(c) =~= seq![c]);
    } else {
        assert(s.push(c)[0] == s[0]);
    }
}

/// Trimming ignores one more trailing white-space character.
pub proof fn lemma_trim_push_white_space(s: Seq<char>, c: char)
    requires
        is_white_space(c),
    ensures
        trim(s.push(c)) == trim(s),
{
    lemma_trim_start_push(s, c);
    if trim_start(s).len() > 0 {
        assert(trim_start(s).push(c).drop_last() =~= trim_start(s));
    } else {
        assert(seq![c].drop_first() =~= Seq::<char>::empty());
        assert(seq![c][0] == c);
        assert(trim_start(Seq::<char>::empty()) =~= Seq::<char>::empty());
        assert(trim_start(seq![c]) =~= Seq::<char>::empty());
        assert(trim_start(s) =~= Seq::<char>::empty());
    }
}

/// The receiver accepts the sender's authentication line exactly when the
/// sender's password, trimmed, is the receiver's password.
pub proof fn lemma_auth_round_trip(password: Seq<char>, expected: Seq<char>)
    ensures
        auth_accepted_spec(auth_line_spec(password), expected) <==> trim(password) == expected,
{
    reveal_strlit("AUTH ");
    reveal_strlit("\n");
    let line = auth_line_spec(password);
    assert(line.take(5) =~= "AUTH "@);
    assert(line.skip(5) =~= password.push('\n'));
    lemma_trim_push_white_space(password, '\n');
}

proof fn lemma_trim_start_keeps(s: Seq<char>)
    requires
        s.len() > 0,
        !is_white_space(s[0]),
    ensures
        trim(s) == trim_end(s),
{
}

proof fn lemma_trim_end_prefix(p: Seq<char>, s: Seq<char>)
    requires
        p.len() > 0,
        !is_white_space(p.last()) || trim_end(s).len() > 0,
    ensures
        trim_end(p + s) == p + trim_end(s),
    decreases s.len(),
{
    if s.len() > 0 && is_white_space(s.last()) {
        assert((p + s).drop_last() =~= p + s.drop_last());
        lemma_trim_end_prefix(p, s.drop_last());
    } else if s.len() == 0 {
        assert(p + s =~= p);
    } else {
        assert((p + s).last() == s.last());
    }
}

/// A `PLAY <name>` command from the sender reaches an idle receiver as a
/// request to play the trimmed name, where that is not empty.
pub proof fn lemma_play_command_round_trip(name: Seq<char>, queue_empty: bool)
    requires
        trim(name).len() > 0,
    ensures
        command_spec("PLAY "@ + name + "\n"@, false, false, queue_empty) == RequestSpec::Play(
            trim(name),
        ),
{
    reveal_strlit("PLAY ");
    reveal_strlit("\n");
    reveal_strlit("STOP");
    reveal_strlit("PLAY_QUEUE");
    let p = "PLAY "@;
    let line = p + name + "\n"@;
    assert(line =~= p + name.push('\n'));
    lemma_trim_start_keeps(line);
    // trailing white space goes, the prefix stays
    assert(is_white_space('\n'));
    assert(name.push('\n').drop_last() =~= name);
    assert(trim_end(name.push('\n')) == trim_end(name));
    lemma_trim_end_nonempty(name);
    assert(trim_end(line) == p + trim_end(name.push('\n'))) by {
        lemma_trim_end_prefix(p, name.push('\n'));
    }
    let t = trim(line);
    assert(t == p + trim_end(name));
    assert(t[4] == ' ');
    assert(t != "STOP"@) by {
        if t.len() == 4 {
            assert(t[0] == 'P');
        }
    }
    assert(t != "PLAY_QUEUE"@) by {
        if t.len() == "PLAY_QUEUE"@.len() {
            assert("PLAY_QUEUE"@[4] == '_');
        }
    }
    assert(t.take(5) =~= p);
    assert(t.skip(5) =~= trim_end(name));
    lemma_trim_start_of_trim_end(name);
}

proof fn lemma_trim_end_cons(c: char, r: Seq<char>)
    ensures
        trim_end(r).len() > 0 ==> trim_end(seq![c] + r) == seq![c] + trim_end(r),
        trim_end(r).len() == 0 ==> trim_end(seq![c] + r) == trim_end(seq![c]),
    decreases r.len(),
{
    if r.len() > 0 && is_white_space(r.last()) {
        assert((seq![c] + r).drop_last() =~= seq![c] + r.drop_last());
        lemma_trim_end_cons(c, r.drop_last());
    } else if r.len() == 0 {
        assert(seq![c] + r =~= seq![c]);
    } else {
        assert((seq![c] + r).last() == r.last());
    }
}

proof fn lemma_trim_end_nonempty(s: Seq<char>)
    requires
        trim(s).len() > 0,
    ensures
        trim_end(s).len() > 0,
{
    lemma_trim_end_start_commute(s);
}

proof fn lemma_trim_end_start_commute(s: Seq<char>)
    ensures
        trim_end(trim_start(s)) == trim_start(trim_end(s)),
    decreases s.len(),
{
    if s.len() == 0 {
    } else {
        let c = s[0];
        let r = s.drop_first();
        assert(s =~= seq![c] + r);
        lemma_trim_end_cons(c, r);
        assert(seq![c].drop_last() =~= Seq::<char>::empty());
        if is_white_space(c) {
            lemma_trim_end_start_commute(r);
            if trim_end(r).len() > 0 {
                assert((seq![c] + trim_end(r)).drop_first() =~= trim_end(r));
            } else {
                assert(seq![c].last() == c);
                assert(trim_end(Seq::<char>::empty()) =~= Seq::<char>::empty());
                assert(trim_end(seq![c]) =~= Seq::<char>::empty());
                assert(trim_start(trim_end(r)) =~= Seq::<char>::empty());
            }
        } else {
            if trim_end(r).len() > 0 {
                assert((seq![c] + trim_end(r))[0] == c);
            } else {
                assert(trim_end(seq![c]) =~= seq![c]);
            }
        }
    }
}

proof fn lemma_trim_end_idempotent(s: Seq<char>)
    ensures
        trim_end(trim_end(s)) == trim_end(s),
    decreases s.len(),
{
    if s.len() > 0 && is_white_space(s.last()) {
        lemma_trim_end_idempotent(s.drop_last());
    }
}

proof fn lemma_trim_start_of_trim_end(s: Seq<char>)
    ensures
        trim(trim_end(s)) == trim(s),
{
    lemma_trim_end_start_commute(trim_end(s));
    lemma_trim_end_idempotent(s);
    lemma_trim_end_start_commute(s);
}

/// A word without white space, followed by a line end, trims to the word.
proof fn lemma_trim_word_line(w: Seq<char>)
    requires
        w.len() > 0,
        forall|i: int| 0 <= i < w.len() ==> !#[trigger] is_white_space(w[i]),
    ensures
        trim(w + "\n"@) == w,
{
    reveal_strlit("\n");
    let line = w + "\n"@;
    assert(line =~= w.push('\n'));
    assert(!is_white_space(line[0]));
    lemma_trim_push_white_space(w, '\n');
    assert(!is_white_space(w[0]));
    assert(trim_start(w) == w);
    assert(!is_white_space(w.last()));
    assert(trim_end(w) == w);
}

/// The sender's `STOP` and `PLAY_QUEUE` lines reach a receiver that is not
/// recording as those commands: `STOP` cancels playback; `PLAY_QUEUE` plays
/// the queue when idle with a non-empty queue.
pub proof fn lemma_stop_and_queue_round_trip(playing: bool, queue_empty: bool)
    ensures
        command_spec("STOP"@ + "\n"@, false, playing, queue_empty) == RequestSpec::Cancel,
        command_spec("PLAY_QUEUE"@ + "\n"@, false, false, false) == RequestSpec::Queue,
        command_spec("PLAY_QUEUE"@ + "\n"@, false, true, queue_empty) == RequestSpec::Respond(
            Reply::AlreadyPlaying,
        ),
        command_spec("PLAY_QUEUE"@ + "\n"@, false, false, true) == RequestSpec::Respond(
            Reply::EmptyQueue,
        ),
{
    reveal_strlit("STOP");
    reveal_strlit("PLAY_QUEUE");
    let stop = "STOP"@;
    let queue = "PLAY_QUEUE"@;
    assert forall|i: int| 0 <= i < stop.len() implies !#[trigger] is_white_space(stop[i]) by {}
    assert forall|i: int| 0 <= i < queue.len() implies !#[trigger] is_white_space(queue[i]) by {}
    lemma_trim_word_line(stop);
    lemma_trim_word_line(queue);
    assert(queue != stop);
}

/// A session between the sender and an idle receiver that share a password
/// (one without white space round it): the sender's `AUTH` line is accepted,
/// and its `PLAY <name>` line asks the receiver to play the trimmed name.
pub proof fn lemma_sender_session_plays(password: Seq<char>, name: Seq<char>, queue_empty: bool)
    requires
        trim(password) == password,
        trim(name).len() > 0,
    ensures
        auth_accepted_spec(auth_line_spec(password), password),
        command_spec("PLAY "@ + name + "\n"@, false, false, queue_empty) == RequestSpec::Play(
            trim(name),
        ),
{
    lemma_auth_round_trip(password, password);
    lemma_play_command_round_trip(name, queue_empty);
}

/// While a recording runs, the receiver refuses every command line alike:
/// whatever the line says, and whether or not something plays or the queue
/// is empty, it only answers `ERR recording`.
pub proof fn lemma_recording_refuses_every_command(line: Seq<char>, playing: bool, queue_empty: bool)
    ensures
        command_spec(line, true, playing, queue_empty) == RequestSpec::Respond(Reply::Recording),
{
}

/// While something plays (and no recording runs), no command line starts
/// another playback: neither the queue nor a sequence is played.
pub proof fn lemma_no_second_playback(line: Seq<char>, queue_empty: bool)
    ensures
        command_spec(line, false, true, queue_empty) != RequestSpec::Queue,
        !(command_spec(line, false, true, queue_empty) is Play),
{
}

} // verus!
