//! The instance lifecycle: registration, heartbeat, failure detection,
//! re-registration and deregistration of one service instance, as an
//! explicit state machine.
//!
//! The machine decides; the embedding program performs. Each step takes the
//! outcome of the operation the previous action asked for and yields the
//! next action: the start sequence retries registration and the UP
//! transition until the registry accepts both, and the heartbeat loop
//! answers every failed heartbeat with exactly one re-registration attempt —
//! whose own failure is absorbed, never escalated — before the next tick.
//! `next_state` and `next_action` are the whole transition relation; every
//! step function is proved to follow them.

use vstd::prelude::*;

use crate::rest::EurekaRestClient;
use crate::structures::{Instance, InstanceV, string_bytes};

verus! {

/// Where one instance stands in its registration lifecycle.
#[derive(Copy, Clone, Eq, PartialEq, Structural, Debug)]
pub enum LifecycleState {
    /// The registry has not accepted a registration yet.
    NotRegistered,
    /// Registered; the start sequence is still moving the status to UP.
    SettingUp,
    /// Registered and up: heartbeating each tick.
    Up,
    /// A heartbeat failed; a re-registration is owed before the next tick.
    ReRegistering,
    /// Re-registration succeeded; the UP transition is owed for this tick.
    ReSettingUp,
}

/// What the embedding program is asked to do next.
#[derive(Copy, Clone, Eq, PartialEq, Structural, Debug)]
pub enum LifecycleAction {
    /// Issue a register call.
    Register,
    /// Issue a set-status call moving the instance to UP.
    SetStatusUp,
    /// Wait the retry backoff, then repeat the failed start-sequence call.
    SleepRetry,
    /// Wait the heartbeat period, then send a heartbeat.
    SleepTick,
    /// Issue a best-effort deregister; the loop is over.
    Deregister,
}

/// The transition relation on states: each state awaits the outcome of
/// exactly one kind of call, and `ok` says whether that call succeeded.
pub open spec fn next_state(st: LifecycleState, ok: bool) -> LifecycleState {
    match st {
        LifecycleState::NotRegistered => if ok {
            LifecycleState::SettingUp
        } else {
            LifecycleState::NotRegistered
        },
        LifecycleState::SettingUp => if ok {
            LifecycleState::Up
        } else {
            LifecycleState::SettingUp
        },
        LifecycleState::Up => if ok {
            LifecycleState::Up
        } else {
            LifecycleState::ReRegistering
        },
        LifecycleState::ReRegistering => if ok {
            LifecycleState::ReSettingUp
        } else {
            LifecycleState::Up
        },
        LifecycleState::ReSettingUp => LifecycleState::Up,
    }
}

/// The action each transition asks for.
pub open spec fn next_action(st: LifecycleState, ok: bool) -> LifecycleAction {
    match st {
        LifecycleState::NotRegistered => if ok {
            LifecycleAction::SetStatusUp
        } else {
            LifecycleAction::SleepRetry
        },
        LifecycleState::SettingUp => if ok {
            LifecycleAction::SleepTick
        } else {
            LifecycleAction::SleepRetry
        },
        LifecycleState::Up => if ok {
            LifecycleAction::SleepTick
        } else {
            LifecycleAction::Register
        },
        LifecycleState::ReRegistering => if ok {
            LifecycleAction::SetStatusUp
        } else {
            LifecycleAction::SleepTick
        },
        LifecycleState::ReSettingUp => LifecycleAction::SleepTick,
    }
}

/// The identity an instance registers under: the explicit instance id when
/// one is set, else the host name.
pub open spec fn resolved_identity(i: InstanceV) -> Seq<u8> {
    match i.instance_id {
        Some(id) => id,
        None => i.host_name,
    }
}

/// The lifecycle manager of one instance: the wire client it builds its
/// calls with, the instance it registers, the resolved identity, the
/// running flag of the heartbeat loop, and where the machine stands.
#[derive(Debug)]
pub struct InstanceClient {
    pub client: EurekaRestClient,
    pub config: Instance,
    pub is_running: bool,
    pub state: LifecycleState,
}

impl InstanceClient {
    /// A fresh manager for one instance: not registered, not running.
    pub fn new(base_url: String, config: Instance) -> (r: InstanceClient)
        ensures
            r.client.base_url == base_url,
            r.config == config,
            !r.is_running,
            r.state == LifecycleState::NotRegistered,
    {
        InstanceClient {
            client: EurekaRestClient::new(base_url),
            config,
            is_running: false,
            state: LifecycleState::NotRegistered,
        }
    }

    /// The identity used for every registry call: the explicit instance id
    /// when the configuration has one, else the host name, whatever the
    /// host name is.
    pub fn get_instance_id(&self) -> (r: String)
        ensures
            string_bytes(r) == resolved_identity(self.config@),
            self.config@.instance_id matches Some(id) ==> string_bytes(r) == id,
            self.config@.instance_id is None ==> string_bytes(r) == self.config@.host_name,
    {
        match &self.config.instance_id {
            Some(id) => id.clone(),
            None => self.config.host_name.clone(),
        }
    }

    /// One step of the blocking start sequence while registration is still
    /// owed: a failed register changes nothing and asks for a backed-off
    /// retry — only a success lets the sequence move on, so starting blocks
    /// until the registry accepts the registration. Success marks the loop
    /// running and asks for the UP transition.
    pub fn start_register_step<A>(&mut self, outcome: Result<A, crate::EurekaError>) -> (action:
        LifecycleAction)
        requires
            old(self).state == LifecycleState::NotRegistered,
        ensures
            final(self).state == next_state(LifecycleState::NotRegistered, outcome is Ok),
            action == next_action(LifecycleState::NotRegistered, outcome is Ok),
            final(self).is_running == (outcome is Ok || old(self).is_running),
            final(self).client == old(self).client,
            final(self).config == old(self).config,
            outcome is Err ==> *final(self) == *old(self),
    {
        match outcome {
            Ok(_) => {
                self.is_running = true;
                self.state = LifecycleState::SettingUp;
                LifecycleAction::SetStatusUp
            },
            Err(_) => LifecycleAction::SleepRetry,
        }
    }

    /// One step of the start sequence while the UP transition is still
    /// owed: a failure asks for a backed-off retry, so starting also blocks
    /// until the registry accepts the UP status; success ends the start
    /// sequence and hands over to the heartbeat loop.
    pub fn start_set_status_step<A>(&mut self, outcome: Result<A, crate::EurekaError>) -> (action:
        LifecycleAction)
        requires
            old(self).state == LifecycleState::SettingUp,
        ensures
            final(self).state == next_state(LifecycleState::SettingUp, outcome is Ok),
            action == next_action(LifecycleState::SettingUp, outcome is Ok),
            final(self).is_running == old(self).is_running,
            final(self).client == old(self).client,
            final(self).config == old(self).config,
    {
        match outcome {
            Ok(_) => {
                self.state = LifecycleState::Up;
                LifecycleAction::SleepTick
            },
            Err(_) => LifecycleAction::SleepRetry,
        }
    }

    /// One heartbeat outcome: a success keeps the instance up and asks only
    /// for the next tick — no re-registration; any failure, the registry's
    /// "instance does not exist" like every other, asks for exactly one
    /// register call before the next tick.
    pub fn heartbeat_step<A>(&mut self, outcome: Result<A, crate::EurekaError>) -> (action:
        LifecycleAction)
        requires
            old(self).state == LifecycleState::Up,
        ensures
            final(self).state == next_state(LifecycleState::Up, outcome is Ok),
            action == next_action(LifecycleState::Up, outcome is Ok),
            outcome is Ok ==> action != LifecycleAction::Register,
            outcome is Err ==> action == LifecycleAction::Register,
            final(self).is_running == old(self).is_running,
            final(self).client == old(self).client,
            final(self).config == old(self).config,
    {
        match outcome {
            Ok(_) => LifecycleAction::SleepTick,
            Err(_) => {
                self.state = LifecycleState::ReRegistering;
                LifecycleAction::Register
            },
        }
    }

    /// The outcome of the re-registration a failed heartbeat asked for:
    /// only a success earns the UP transition; a failure is absorbed — no
    /// status call, no escalation, just the next tick.
    pub fn reregister_step<A>(&mut self, outcome: Result<A, crate::EurekaError>) -> (action:
        LifecycleAction)
        requires
            old(self).state == LifecycleState::ReRegistering,
        ensures
            final(self).state == next_state(LifecycleState::ReRegistering, outcome is Ok),
            action == next_action(LifecycleState::ReRegistering, outcome is Ok),
            outcome is Err ==> action == LifecycleAction::SleepTick && action
                != LifecycleAction::SetStatusUp,
            final(self).is_running == old(self).is_running,
            final(self).client == old(self).client,
            final(self).config == old(self).config,
    {
        match outcome {
            Ok(_) => {
                self.state = LifecycleState::ReSettingUp;
                LifecycleAction::SetStatusUp
            },
            Err(_) => {
                self.state = LifecycleState::Up;
                LifecycleAction::SleepTick
            },
        }
    }

    /// The outcome of the UP transition after a re-registration: success or
    /// failure, it is only logged — the loop proceeds to the next tick.
    pub fn reset_status_step<A>(&mut self, outcome: Result<A, crate::EurekaError>) -> (action:
        LifecycleAction)
        requires
            old(self).state == LifecycleState::ReSettingUp,
        ensures
            final(self).state == next_state(LifecycleState::ReSettingUp, outcome is Ok),
            action == next_action(LifecycleState::ReSettingUp, outcome is Ok),
            final(self).state == LifecycleState::Up,
            action == LifecycleAction::SleepTick,
            final(self).is_running == old(self).is_running,
            final(self).client == old(self).client,
            final(self).config == old(self).config,
    {
        let _ = outcome;
        self.state = LifecycleState::Up;
        LifecycleAction::SleepTick
    }

    /// Whether the background heartbeat loop should keep running; polled
    /// once per iteration, this flag is the loop's sole cancellation signal.
    pub fn should_run(&self) -> (r: bool)
        ensures
            r == self.is_running,
    {
        self.is_running
    }

    /// Shutting down: clears the running flag and asks for one best-effort
    /// deregister, whose failure is swallowed.
    pub fn stop(&mut self) -> (action: LifecycleAction)
        ensures
            !final(self).is_running,
            action == LifecycleAction::Deregister,
            final(self).client == old(self).client,
            final(self).config == old(self).config,
            final(self).state == old(self).state,
    {
        self.is_running = false;
        LifecycleAction::Deregister
    }
}

// --- laws of the machine ---

/// The state the start sequence is in after a run of register outcomes.
pub open spec fn start_state_after(st: LifecycleState, outcomes: Seq<bool>) -> LifecycleState
    decreases outcomes.len(),
{
    if outcomes.len() == 0 {
        st
    } else {
        start_state_after(next_state(st, outcomes[0]), outcomes.drop_first())
    }
}

/// Starting blocks until a register attempt succeeds: however many
/// failures come back, the machine stays before registration, still asking
/// for a retry; no later phase can be reached without one success.
pub proof fn lemma_start_blocks_until_register(outcomes: Seq<bool>)
    requires
        forall|i: int| 0 <= i < outcomes.len() ==> !outcomes[i],
    ensures
        start_state_after(LifecycleState::NotRegistered, outcomes)
            == LifecycleState::NotRegistered,
        outcomes.len() > 0 ==> next_action(LifecycleState::NotRegistered, outcomes[0])
            == LifecycleAction::SleepRetry,
    decreases outcomes.len(),
{
    if outcomes.len() > 0 {
        assert(!outcomes[0]);
        lemma_start_blocks_until_register(outcomes.drop_first());
    }
}

/// The actions of one heartbeat tick, driven by the transition relation
/// from the steady state: the heartbeat outcome first, then whatever the
/// machine asks for until it asks to sleep.
pub open spec fn tick_actions(hb_ok: bool, reg_ok: bool, ss_ok: bool) -> Seq<LifecycleAction> {
    let a1 = next_action(LifecycleState::Up, hb_ok);
    let s1 = next_state(LifecycleState::Up, hb_ok);
    if a1 == LifecycleAction::Register {
        let a2 = next_action(s1, reg_ok);
        let s2 = next_state(s1, reg_ok);
        if a2 == LifecycleAction::SetStatusUp {
            seq![a1, a2, next_action(s2, ss_ok)]
        } else {
            seq![a1, a2]
        }
    } else {
        seq![a1]
    }
}

/// How many register calls a sequence of actions asks for.
pub open spec fn register_count(actions: Seq<LifecycleAction>) -> int
    decreases actions.len(),
{
    if actions.len() == 0 {
        0
    } else {
        register_count(actions.drop_last()) + if actions.last() == LifecycleAction::Register {
            1int
        } else {
            0int
        }
    }
}

/// A failed heartbeat triggers exactly one re-registration attempt before
/// the next tick, and a successful one triggers none: whatever the
/// outcomes, the tick asks for one register call when the heartbeat failed,
/// none when it succeeded, and always ends asking to sleep until the next
/// tick.
pub proof fn lemma_one_reregistration_per_tick(hb_ok: bool, reg_ok: bool, ss_ok: bool)
    ensures
        register_count(tick_actions(hb_ok, reg_ok, ss_ok)) == if hb_ok {
            0int
        } else {
            1int
        },
        tick_actions(hb_ok, reg_ok, ss_ok).last() == LifecycleAction::SleepTick,
{
    reveal_with_fuel(register_count, 5);
    let acts = tick_actions(hb_ok, reg_ok, ss_ok);
    if hb_ok {
        assert(acts =~= seq![LifecycleAction::SleepTick]);
        assert(acts.drop_last() =~= Seq::<LifecycleAction>::empty());
        assert(register_count(acts) == 1 - 1);
    } else if reg_ok {
        assert(acts =~= seq![
            LifecycleAction::Register,
            LifecycleAction::SetStatusUp,
            LifecycleAction::SleepTick,
        ]);
        assert(acts.drop_last() =~= seq![LifecycleAction::Register, LifecycleAction::SetStatusUp]);
        assert(acts.drop_last().drop_last() =~= seq![LifecycleAction::Register]);
        assert(acts.drop_last().drop_last().drop_last() =~= Seq::<LifecycleAction>::empty());
        assert(register_count(acts) == 1);
    } else {
        assert(acts =~= seq![LifecycleAction::Register, LifecycleAction::SleepTick]);
        assert(acts.drop_last() =~= seq![LifecycleAction::Register]);
        assert(acts.drop_last().drop_last() =~= Seq::<LifecycleAction>::empty());
        assert(register_count(acts) == 1);
    }
}

/// After a failed heartbeat, the UP transition is attempted exactly when
/// the re-registration succeeded: a tick whose register call failed never
/// asks for a status call.
pub proof fn lemma_set_status_needs_register(hb_ok: bool, reg_ok: bool, ss_ok: bool)
    ensures
        !hb_ok && reg_ok ==> tick_actions(hb_ok, reg_ok, ss_ok) == seq![
            LifecycleAction::Register,
            LifecycleAction::SetStatusUp,
            LifecycleAction::SleepTick,
        ],
        !hb_ok && !reg_ok ==> tick_actions(hb_ok, reg_ok, ss_ok) == seq![
            LifecycleAction::Register,
            LifecycleAction::SleepTick,
        ],
        hb_ok ==> tick_actions(hb_ok, reg_ok, ss_ok) == seq![LifecycleAction::SleepTick],
{
    if !hb_ok && reg_ok {
        assert(tick_actions(hb_ok, reg_ok, ss_ok) =~= seq![
            LifecycleAction::Register,
            LifecycleAction::SetStatusUp,
            LifecycleAction::SleepTick,
        ]);
    } else if !hb_ok {
        assert(tick_actions(hb_ok, reg_ok, ss_ok) =~= seq![
            LifecycleAction::Register,
            LifecycleAction::SleepTick,
        ]);
    } else {
        assert(tick_actions(hb_ok, reg_ok, ss_ok) =~= seq![LifecycleAction::SleepTick]);
    }
}

} // verus!
