//! The lease of a scoped connection, kept alive across idle periods.
//!
//! The lease is renewed at half its lifetime. A connection that fails is
//! replaced once, so a restarted compositor or an expired lease heals on the
//! next call; a second failure reaches the caller.

use vstd::prelude::*;

verus! {

/// How long a lease is asked for, in milliseconds.
pub const LEASE_TTL_MS: u64 = 900_000;

/// The age at which a lease is renewed, in milliseconds.
pub const LEASE_RENEWAL_MS: u64 = 450_000;

/// What to do next for a call.
#[derive(Debug, Clone, Copy, PartialEq, Eq, Structural)]
pub enum LinkAction {
    /// Renew the lease of the connection.
    Renew,
    /// Make a new connection.
    Connect,
    /// Make the call.
    Run,
    /// Hand the call's result to the caller.
    Succeed,
    /// Hand the last error to the caller.
    Fail,
}

/// What came of the last action.
#[derive(Debug, Clone, Copy, PartialEq, Eq, Structural)]
pub enum LinkEvent {
    /// A caller asks; `retry` tells whether a failed call may be made again.
    Begin { retry: bool },
    Renewed { ok: bool },
    Connected { ok: bool },
    Ran { ok: bool },
}

/// The connection of one worker.
#[derive(Debug, Clone, Copy, PartialEq, Eq, Structural)]
pub struct Link {
    pub connected: bool,
    /// When the lease was last granted or renewed, in milliseconds.
    pub renewed_at: u64,
    /// A failed call may still be made again.
    pub retry: bool,
}

/// The lease has reached half its lifetime.
pub open spec fn due(link: Link, now: u64) -> bool {
    now - link.renewed_at >= LEASE_RENEWAL_MS
}

/// The next state and action.
pub open spec fn next(link: Link, event: LinkEvent, now: u64) -> (Link, LinkAction) {
    match event {
        LinkEvent::Begin { retry } => (
            Link { retry, ..link },
            if !link.connected {
                LinkAction::Connect
            } else if due(link, now) {
                LinkAction::Renew
            } else {
                LinkAction::Run
            },
        ),
        LinkEvent::Renewed { ok } => if ok {
            (Link { renewed_at: now, ..link }, LinkAction::Run)
        } else {
            (Link { connected: false, ..link }, LinkAction::Connect)
        },
        LinkEvent::Connected { ok } => if ok {
            (Link { connected: true, renewed_at: now, ..link }, LinkAction::Run)
        } else {
            (link, LinkAction::Fail)
        },
        LinkEvent::Ran { ok } => if ok {
            (link, LinkAction::Succeed)
        } else if link.retry {
            (Link { connected: false, retry: false, ..link }, LinkAction::Connect)
        } else {
            (link, LinkAction::Fail)
        },
    }
}

impl Link {
    /// A worker that has not connected yet.
    pub fn new(now: u64) -> (link: Link)
        ensures
            link == (Link { connected: false, renewed_at: now, retry: false }),
    {
        Link { connected: false, renewed_at: now, retry: false }
    }

    /// Takes what came of the last action, and says what to do next.
    pub fn step(&mut self, event: LinkEvent, now: u64) -> (action: LinkAction)
        ensures
            (*final(self), action) == next(*old(self), event, now),
    {
        match event {
            LinkEvent::Begin { retry } => {
                self.retry = retry;
                if !self.connected {
                    LinkAction::Connect
                } else if now >= self.renewed_at && now - self.renewed_at >= LEASE_RENEWAL_MS {
                    LinkAction::Renew
                } else {
                    LinkAction::Run
                }
            },
            LinkEvent::Renewed { ok } => {
                if ok {
                    self.renewed_at = now;
                    LinkAction::Run
                } else {
                    self.connected = false;
                    LinkAction::Connect
                }
            },
            LinkEvent::Connected { ok } => {
                if ok {
                    self.connected = true;
                    self.renewed_at = now;
                    LinkAction::Run
                } else {
                    LinkAction::Fail
                }
            },
            LinkEvent::Ran { ok } => {
                if ok {
                    LinkAction::Succeed
                } else if self.retry {
                    self.connected = false;
                    self.retry = false;
                    LinkAction::Connect
                } else {
                    LinkAction::Fail
                }
            },
        }
    }
}

/// The event answers the action.
pub open spec fn answers(action: LinkAction, event: LinkEvent) -> bool {
    match action {
        LinkAction::Renew => event is Renewed,
        LinkAction::Connect => event is Connected,
        LinkAction::Run => event is Ran,
        LinkAction::Succeed | LinkAction::Fail => false,
    }
}

/// How often the call is made, from an action on, under these outcomes (each
/// with the time at which it was reported). Nothing is done once an outcome
/// does not answer the action.
pub open spec fn calls_made(
    link: Link,
    action: LinkAction,
    outcomes: Seq<(LinkEvent, u64)>,
) -> nat
    decreases outcomes.len(),
{
    let made: nat = if action == LinkAction::Run {
        1
    } else {
        0
    };
    if outcomes.len() == 0 || !answers(action, outcomes[0].0) {
        made
    } else {
        let (after, following) = next(link, outcomes[0].0, outcomes[0].1);
        made + calls_made(after, following, outcomes.skip(1))
    }
}

proof fn calls_are_bounded(link: Link, action: LinkAction, outcomes: Seq<(LinkEvent, u64)>)
    ensures
        calls_made(link, action, outcomes) <= (if action is Succeed || action is Fail {
            0nat
        } else if link.retry {
            2nat
        } else {
            1nat
        }),
    decreases outcomes.len(),
{
    if outcomes.len() > 0 && answers(action, outcomes[0].0) {
        let (after, following) = next(link, outcomes[0].0, outcomes[0].1);
        calls_are_bounded(after, following, outcomes.skip(1));
    }
}

/// Whatever happens, a call is made at most twice, and one that may not be
/// made again is made at most once.
pub proof fn at_most_one_retry(
    link: Link,
    retry: bool,
    now: u64,
    outcomes: Seq<(LinkEvent, u64)>,
)
    ensures
        ({
            let (begun, action) = next(link, LinkEvent::Begin { retry }, now);
            calls_made(begun, action, outcomes) <= (if retry {
                2nat
            } else {
                1nat
            })
        }),
{
    let (begun, action) = next(link, LinkEvent::Begin { retry }, now);
    calls_are_bounded(begun, action, outcomes);
}

} // verus!
