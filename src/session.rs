//! The lifecycle of one crawl run and its reaction to control messages.
use vstd::prelude::*;
use crate::address::{parse_absolute, url_serialization_of};
use crate::snippet::{matches_at, to_chars};

verus! {

/// Where a crawl session stands.
#[derive(Debug, Clone, Copy, PartialEq, Eq, Structural)]
pub enum SessionState {
    Idle,
    Running,
    Stopping,
    Stopped,
}

/// A control message: the fetch loop drained, or a stop was requested.
#[derive(Debug, Clone, Copy, PartialEq, Eq, Structural)]
pub enum Control {
    Continue,
    Shutdown,
}

/// Work the caller performs on the crawl engine, in the order given.
#[derive(Debug, Clone, Copy, PartialEq, Eq, Structural)]
pub enum EngineCommand {
    /// Stop receiving fetched pages.
    Unsubscribe,
    /// Signal the engine to stop crawling.
    Stop,
    /// Clear the engine's caches.
    ClearCaches,
    /// Cancel the still running consumer and crawl task.
    AbortConsumer,
}

/// Why a session operation was refused.
#[derive(Debug, Clone, Copy, PartialEq, Eq, Structural)]
pub enum SessionError {
    /// The target is not an absolute URL.
    InvalidInput,
    /// The session has left the idle state; a new session is needed.
    NotIdle,
}

/// The token of a `Continue` message.
pub open spec fn continue_token() -> Seq<char> {
    seq!['c', 'o', 'n', 't', 'i', 'n', 'u', 'e']
}

/// The token of a `Shutdown` message.
pub open spec fn shutdown_token() -> Seq<char> {
    seq!['s', 'h', 'u', 't', 'd', 'o', 'w', 'n']
}

/// `s` without its leading double quotes.
pub open spec fn drop_leading_quotes(s: Seq<char>) -> Seq<char>
    decreases s.len(),
{
    if s.len() > 0 && s[0] == '"' {
        drop_leading_quotes(s.subrange(1, s.len() as int))
    } else {
        s
    }
}

/// `s` without its trailing double quotes.
pub open spec fn drop_trailing_quotes(s: Seq<char>) -> Seq<char>
    decreases s.len(),
{
    if s.len() > 0 && s.last() == '"' {
        drop_trailing_quotes(s.drop_last())
    } else {
        s
    }
}

/// The control message that a text stands for, once the double quotes
/// around it are trimmed; any other text stands for none.
pub open spec fn control_of(msg: Seq<char>) -> Option<Control> {
    let t = drop_trailing_quotes(drop_leading_quotes(msg));
    if t == continue_token() {
        Some(Control::Continue)
    } else if t == shutdown_token() {
        Some(Control::Shutdown)
    } else {
        None
    }
}

/// The engine work that a control message asks for while running: both
/// messages tear the engine down; a shutdown first cancels the consumer,
/// which may be in the middle of a fetch.
pub open spec fn teardown_commands(c: Control) -> Seq<EngineCommand> {
    match c {
        Control::Continue => seq![
            EngineCommand::Unsubscribe,
            EngineCommand::Stop,
            EngineCommand::ClearCaches,
        ],
        Control::Shutdown => seq![
            EngineCommand::AbortConsumer,
            EngineCommand::Unsubscribe,
            EngineCommand::Stop,
            EngineCommand::ClearCaches,
        ],
    }
}

proof fn lemma_leading_quotes_skip(s: Seq<char>, lo: int)
    requires
        0 <= lo < s.len(),
        s[lo] == '"',
    ensures
        drop_leading_quotes(s.subrange(lo, s.len() as int)) == drop_leading_quotes(
            s.subrange(lo + 1, s.len() as int),
        ),
{
    let t = s.subrange(lo, s.len() as int);
    assert(t.subrange(1, t.len() as int) =~= s.subrange(lo + 1, s.len() as int));
}

proof fn lemma_trailing_quotes_skip(s: Seq<char>, lo: int, hi: int)
    requires
        0 <= lo < hi <= s.len(),
        s[hi - 1] == '"',
    ensures
        drop_trailing_quotes(s.subrange(lo, hi)) == drop_trailing_quotes(s.subrange(lo, hi - 1)),
{
    assert(s.subrange(lo, hi).drop_last() =~= s.subrange(lo, hi - 1));
}

/// Reads a control message; text that is neither token reads as `None`.
pub fn parse_control(msg: &str) -> (r: Option<Control>)
    ensures
        r == control_of(msg@),
{
    let c = to_chars(msg);
    let n = c.len();
    let mut lo: usize = 0;
    assert(c@.subrange(0, n as int) =~= c@);
    while lo < n && c[lo] == '"'
        invariant
            c@ == msg@,
            n == c@.len(),
            lo <= n,
            drop_leading_quotes(msg@) == drop_leading_quotes(c@.subrange(lo as int, n as int)),
        decreases n - lo,
    {
        proof {
            lemma_leading_quotes_skip(c@, lo as int);
        }
        lo = lo + 1;
    }
    assert(drop_leading_quotes(c@.subrange(lo as int, n as int)) == c@.subrange(lo as int, n as int));
    let mut hi: usize = n;
    while hi > lo && c[hi - 1] == '"'
        invariant
            c@ == msg@,
            n == c@.len(),
            lo <= hi <= n,
            drop_trailing_quotes(drop_leading_quotes(msg@)) == drop_trailing_quotes(
                c@.subrange(lo as int, hi as int),
            ),
        decreases hi - lo,
    {
        proof {
            lemma_trailing_quotes_skip(c@, lo as int, hi as int);
        }
        hi = hi - 1;
    }
    let t = Ghost(c@.subrange(lo as int, hi as int));
    assert(drop_trailing_quotes(t@) == t@) by {
        if t@.len() > 0 {
            assert(t@.last() == c@[hi - 1]);
        }
    }
    let cont = vec!['c', 'o', 'n', 't', 'i', 'n', 'u', 'e'];
    let shut = vec!['s', 'h', 'u', 't', 'd', 'o', 'w', 'n'];
    assert(cont@ =~= continue_token());
    assert(shut@ =~= shutdown_token());
    if hi - lo == 8 {
        if matches_at(&c, &cont, lo) {
            return Some(Control::Continue);
        }
        if matches_at(&c, &shut, lo) {
            return Some(Control::Shutdown);
        }
    }
    None
}

/// One crawl run against a target address.
pub struct CrawlSession {
    target: String,
    state: SessionState,
}

impl CrawlSession {
    /// The canonical target address.
    pub closed spec fn spec_target(&self) -> Seq<char> {
        self.target@
    }

    /// The current state.
    pub closed spec fn spec_state(&self) -> SessionState {
        self.state
    }

    /// A session for `target`, which must parse as an absolute URL; the
    /// session keeps its canonical form and starts idle.
    pub fn new(target: &str) -> (r: Result<CrawlSession, SessionError>)
        ensures
            match url_serialization_of(target@) {
                None => r == Err::<CrawlSession, SessionError>(SessionError::InvalidInput),
                Some(t) => r is Ok && r.unwrap().spec_target() == t && r.unwrap().spec_state()
                    == SessionState::Idle,
            },
    {
        match parse_absolute(target) {
            None => Err(SessionError::InvalidInput),
            Some(t) => Ok(CrawlSession { target: t, state: SessionState::Idle }),
        }
    }

    /// The canonical target address.
    pub fn target(&self) -> (r: &str)
        ensures
            r@ == self.spec_target(),
    {
        self.target.as_str()
    }

    /// The current state.
    pub fn state(&self) -> (r: SessionState)
        ensures
            r == self.spec_state(),
    {
        self.state
    }

    /// Moves an idle session to running; the caller then starts the crawl
    /// engine and the consumer.
    pub fn start(&mut self) -> (r: Result<(), SessionError>)
        ensures
            final(self).spec_target() == old(self).spec_target(),
            old(self).spec_state() == SessionState::Idle ==> r is Ok && final(self).spec_state()
                == SessionState::Running,
            old(self).spec_state() != SessionState::Idle ==> r == Err::<(), SessionError>(
                SessionError::NotIdle,
            ) && final(self).spec_state() == old(self).spec_state(),
    {
        if self.state == SessionState::Idle {
            self.state = SessionState::Running;
            Ok(())
        } else {
            Err(SessionError::NotIdle)
        }
    }

    /// Reacts to a control message. A running session moves to stopping and
    /// hands back the engine work to perform; in any other state nothing
    /// changes and there is no work.
    pub fn on_control(&mut self, c: Control) -> (r: Vec<EngineCommand>)
        ensures
            final(self).spec_target() == old(self).spec_target(),
            old(self).spec_state() == SessionState::Running ==> final(self).spec_state()
                == SessionState::Stopping && r@ == teardown_commands(c),
            old(self).spec_state() != SessionState::Running ==> final(self).spec_state()
                == old(self).spec_state() && r@ == Seq::<EngineCommand>::empty(),
    {
        let mut r: Vec<EngineCommand> = Vec::new();
        if self.state == SessionState::Running {
            self.state = SessionState::Stopping;
            if c == Control::Shutdown {
                r.push(EngineCommand::AbortConsumer);
            }
            r.push(EngineCommand::Unsubscribe);
            r.push(EngineCommand::Stop);
            r.push(EngineCommand::ClearCaches);
            assert(r@ =~= teardown_commands(c));
        } else {
            assert(r@ =~= Seq::<EngineCommand>::empty());
        }
        r
    }

    /// Reacts to a control message given as text; text that names no control
    /// message is ignored.
    pub fn on_message(&mut self, msg: &str) -> (r: Vec<EngineCommand>)
        ensures
            final(self).spec_target() == old(self).spec_target(),
            control_of(msg@) is None ==> final(self).spec_state() == old(self).spec_state()
                && r@ == Seq::<EngineCommand>::empty(),
            control_of(msg@) is Some && old(self).spec_state() == SessionState::Running
                ==> final(self).spec_state() == SessionState::Stopping
                && r@ == teardown_commands(control_of(msg@).unwrap()),
            control_of(msg@) is Some && old(self).spec_state() != SessionState::Running
                ==> final(self).spec_state() == old(self).spec_state()
                && r@ == Seq::<EngineCommand>::empty(),
    {
        match parse_control(msg) {
            None => Vec::new(),
            Some(c) => self.on_control(c),
        }
    }

    /// Records that the engine work of a teardown is done: a stopping session
    /// is stopped; any other state is kept.
    pub fn finish_teardown(&mut self)
        ensures
            final(self).spec_target() == old(self).spec_target(),
            old(self).spec_state() == SessionState::Stopping ==> final(self).spec_state()
                == SessionState::Stopped,
            old(self).spec_state() != SessionState::Stopping ==> final(self).spec_state()
                == old(self).spec_state(),
    {
        if self.state == SessionState::Stopping {
            self.state = SessionState::Stopped;
        }
    }

    /// Records that the crawl engine could not start or go on: the session is
    /// stopped whatever its state.
    pub fn engine_failed(&mut self)
        ensures
            final(self).spec_target() == old(self).spec_target(),
            final(self).spec_state() == SessionState::Stopped,
    {
        self.state = SessionState::Stopped;
    }
}

} // verus!
