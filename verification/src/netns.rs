//! The discipline of entering a network namespace. Which namespace is
//! active belongs to the thread, so the guard is a small state machine that
//! the thread doing the work consults: it allows one entry at a time, and
//! it takes the thread out of service when the way back fails.

use vstd::prelude::*;
use vstd::string::*;

verus! {

/// Where a thread stands with respect to the sandbox's namespace.
#[derive(Clone, Copy, Debug, PartialEq, Eq, Structural)]
pub enum GuardState {
    /// In its own namespace; the guard is free.
    Released,
    /// Allowed to switch; the outcome of the switch is awaited.
    Entering,
    /// Inside the sandbox's namespace.
    Held,
    /// The way back failed: which namespace is active is not known, and no
    /// namespace-sensitive work may run on this thread again.
    Unusable,
}

/// Why the namespace could not be entered or left.
#[derive(Clone, Copy, Debug, PartialEq, Eq, Structural)]
pub enum NamespaceError {
    /// No namespace path was given.
    EmptyPath,
    /// The guard is held already; entries do not nest.
    Nested,
    /// The thread is out of service.
    ThreadUnusable,
    /// The guard is not in the state that the report belongs to.
    NotExpected,
    /// The namespace could not be opened, or the switch was rejected.
    EnterFailed,
    /// The prior namespace could not be restored.
    RestoreFailed,
}

/// The guard of one thread.
#[derive(Debug, PartialEq, Eq)]
pub struct NetnsGuard {
    state: GuardState,
}

/// A step of the guard: its next state, and whether the request or report
/// was accepted.
pub struct GuardStep {
    pub next: GuardState,
    pub result: Result<(), NamespaceError>,
}

/// A request to enter the namespace at `path`. It is granted to a free
/// guard, for a path that is not empty; the guard then awaits the outcome
/// of the switch. Otherwise the guard stays as it is.
pub open spec fn acquire_step(state: GuardState, path: Seq<char>) -> GuardStep {
    match state {
        GuardState::Unusable => GuardStep {
            next: state,
            result: Err(NamespaceError::ThreadUnusable),
        },
        GuardState::Entering => GuardStep { next: state, result: Err(NamespaceError::Nested) },
        GuardState::Held => GuardStep { next: state, result: Err(NamespaceError::Nested) },
        GuardState::Released => if path.len() == 0 {
            GuardStep { next: state, result: Err(NamespaceError::EmptyPath) }
        } else {
            GuardStep { next: GuardState::Entering, result: Ok(()) }
        },
    }
}

/// The report of how the switch into the namespace went. After a switch
/// that worked the guard is held; after one that did not, the thread is
/// still in its own namespace and the guard is free again.
pub open spec fn entered_step(state: GuardState, switched: bool) -> GuardStep {
    if state != GuardState::Entering {
        GuardStep { next: state, result: Err(NamespaceError::NotExpected) }
    } else if switched {
        GuardStep { next: GuardState::Held, result: Ok(()) }
    } else {
        GuardStep { next: GuardState::Released, result: Err(NamespaceError::EnterFailed) }
    }
}

/// The report of how the switch back went. After a restoration that
/// worked the guard is free; after one that did not the thread is out of
/// service.
pub open spec fn release_step(state: GuardState, restored: bool) -> GuardStep {
    if state != GuardState::Held {
        GuardStep { next: state, result: Err(NamespaceError::NotExpected) }
    } else if restored {
        GuardStep { next: GuardState::Released, result: Ok(()) }
    } else {
        GuardStep { next: GuardState::Unusable, result: Err(NamespaceError::RestoreFailed) }
    }
}

impl NetnsGuard {
    /// The guard of a thread that is in its own namespace.
    pub fn new() -> (r: NetnsGuard)
        ensures
            r.state() == GuardState::Released,
    {
        NetnsGuard { state: GuardState::Released }
    }

    /// The state of the guard.
    pub closed spec fn state(&self) -> GuardState {
        self.state
    }

    /// The state of the guard.
    #[verifier::when_used_as_spec(state)]
    pub fn current(&self) -> (r: GuardState)
        ensures
            r == self.state(),
    {
        self.state
    }

    /// Whether work that depends on the namespace may run on the thread
    /// now: only while the guard is held.
    pub fn is_held(&self) -> (r: bool)
        ensures
            r == (self.state() == GuardState::Held),
    {
        self.state == GuardState::Held
    }

    /// Asks for leave to switch into the namespace at `path`.
    pub fn acquire(&mut self, path: &str) -> (r: Result<(), NamespaceError>)
        ensures
            final(self).state() == acquire_step(old(self).state(), path@).next,
            r == acquire_step(old(self).state(), path@).result,
    {
        match self.state {
            GuardState::Unusable => Err(NamespaceError::ThreadUnusable),
            GuardState::Entering => Err(NamespaceError::Nested),
            GuardState::Held => Err(NamespaceError::Nested),
            GuardState::Released => {
                if path.is_empty() {
                    Err(NamespaceError::EmptyPath)
                } else {
                    self.state = GuardState::Entering;
                    Ok(())
                }
            },
        }
    }

    /// Takes in how the switch into the namespace went.
    pub fn entered(&mut self, switched: bool) -> (r: Result<(), NamespaceError>)
        ensures
            final(self).state() == entered_step(old(self).state(), switched).next,
            r == entered_step(old(self).state(), switched).result,
    {
        if self.state != GuardState::Entering {
            Err(NamespaceError::NotExpected)
        } else if switched {
            self.state = GuardState::Held;
            Ok(())
        } else {
            self.state = GuardState::Released;
            Err(NamespaceError::EnterFailed)
        }
    }

    /// Takes in how the switch back to the prior namespace went.
    pub fn release(&mut self, restored: bool) -> (r: Result<(), NamespaceError>)
        ensures
            final(self).state() == release_step(old(self).state(), restored).next,
            r == release_step(old(self).state(), restored).result,
    {
        if self.state != GuardState::Held {
            Err(NamespaceError::NotExpected)
        } else if restored {
            self.state = GuardState::Released;
            Ok(())
        } else {
            self.state = GuardState::Unusable;
            Err(NamespaceError::RestoreFailed)
        }
    }
}

/// Entries do not nest, and a thread taken out of service stays out: a
/// request is granted to a free guard only, and no request or report moves
/// a guard out of `Unusable`.
pub proof fn lemma_guard_discipline(state: GuardState, path: Seq<char>, flag: bool)
    ensures
        acquire_step(state, path).result is Ok ==> state == GuardState::Released,
        entered_step(state, flag).next == GuardState::Held ==> state == GuardState::Held || (state
            == GuardState::Entering && flag),
        state == GuardState::Unusable ==> acquire_step(state, path).next == GuardState::Unusable
            && entered_step(state, flag).next == GuardState::Unusable && release_step(
            state,
            flag,
        ).next == GuardState::Unusable,
{
}

/// The prefix of the names of sandbox namespaces.
pub open spec fn netns_prefix() -> Seq<char> {
    "sandbox-netns-"@
}

/// The name of the namespace of a sandbox: a fixed prefix followed by the
/// sandbox's identifier, so that the same sandbox always gets the same
/// name.
pub fn generate_netns_name(sandbox_id: &str) -> (r: String)
    ensures
        r@ == netns_prefix() + sandbox_id@,
{
    let mut name = String::from_str("sandbox-netns-");
    name.append(sandbox_id);
    name
}

} // verus!
