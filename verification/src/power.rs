use std::time::{Duration, Instant};
use vstd::prelude::*;

verus! {

#[verifier::external_type_specification]
#[verifier::external_body]
pub struct ExInstant(std::time::Instant);

/// Whether the daemon is awake (`Active`) or idle (`Resting`).
#[derive(Clone, Copy, Debug, PartialEq, Eq, Structural)]
pub enum PowerState {
    Active,
    Resting,
}

/// Why a power configuration was refused, in the order the checks are made.
#[derive(Clone, Copy, Debug, PartialEq, Eq, Structural)]
pub enum ConfigError {
    SpikeWeight,
    DecayRate,
    Threshold,
    TickInterval,
}

/// What the state machine reads of a power configuration: the sign of each
/// of its three real-valued parameters, and its two durations in seconds.
#[derive(Clone, Copy, Debug)]
pub struct PowerSettings {
    /// `spike_weight > 0`
    pub spike_weight_positive: bool,
    /// `decay_rate > 0`
    pub decay_rate_positive: bool,
    /// `threshold > 0`
    pub threshold_positive: bool,
    pub tick_interval_secs: u64,
    pub min_active_secs: u64,
}

/// The first check that `settings` fails, if any.
pub open spec fn first_violation(settings: PowerSettings) -> Option<ConfigError> {
    if !settings.spike_weight_positive {
        Some(ConfigError::SpikeWeight)
    } else if !settings.decay_rate_positive {
        Some(ConfigError::DecayRate)
    } else if !settings.threshold_positive {
        Some(ConfigError::Threshold)
    } else if settings.tick_interval_secs == 0 {
        Some(ConfigError::TickInterval)
    } else {
        None
    }
}

impl ConfigError {
    pub open spec fn text(self) -> Seq<char> {
        match self {
            ConfigError::SpikeWeight => "spike_weight must be > 0"@,
            ConfigError::DecayRate => "decay_rate must be > 0"@,
            ConfigError::Threshold => "threshold must be > 0"@,
            ConfigError::TickInterval => "tick_interval_secs must be > 0"@,
        }
    }

    /// The human-readable reason for the refusal.
    pub fn message(&self) -> (text: String)
        ensures
            text@ == self.text(),
    {
        match self {
            ConfigError::SpikeWeight => "spike_weight must be > 0".to_owned(),
            ConfigError::DecayRate => "decay_rate must be > 0".to_owned(),
            ConfigError::Threshold => "threshold must be > 0".to_owned(),
            ConfigError::TickInterval => "tick_interval_secs must be > 0".to_owned(),
        }
    }
}

/// Accepts a configuration whose spike weight, decay rate and threshold are
/// positive and whose tick interval is not zero; otherwise names the first
/// check that fails.
pub fn validate(settings: &PowerSettings) -> (checked: Result<(), ConfigError>)
    ensures
        checked == (match first_violation(*settings) {
            None => Ok(()),
            Some(e) => Err(e),
        }),
{
    if !settings.spike_weight_positive {
        Err(ConfigError::SpikeWeight)
    } else if !settings.decay_rate_positive {
        Err(ConfigError::DecayRate)
    } else if !settings.threshold_positive {
        Err(ConfigError::Threshold)
    } else if settings.tick_interval_secs == 0 {
        Err(ConfigError::TickInterval)
    } else {
        Ok(())
    }
}

/// The state after a spike; `reached` says whether the potential is at or
/// above the threshold after it.
pub open spec fn after_spike(state: PowerState, reached: bool) -> PowerState {
    if reached {
        PowerState::Active
    } else {
        state
    }
}

/// The state after a tick that found the potential `below` the threshold or
/// not, `active_secs` whole seconds after the machine became active, with a
/// hold period of `hold` seconds.
pub open spec fn after_tick(state: PowerState, below: bool, active_secs: u64, hold: u64) -> PowerState {
    if state == PowerState::Active && below && active_secs >= hold {
        PowerState::Resting
    } else {
        state
    }
}

/// Calls `std::time::Instant::now`. Nothing is stated of the instant: it is
/// read from the clock.
#[verifier::external_body]
fn now() -> Instant {
    Instant::now()
}

/// Calls `std::time::Instant::elapsed` on `since`. Nothing is stated of the
/// duration: it is read from the clock.
#[verifier::external_body]
fn elapsed(since: &Instant) -> Duration {
    since.elapsed()
}

/// Calls `std::time::Duration::as_secs`. Nothing is stated of the whole
/// seconds it gives.
#[verifier::external_body]
fn whole_secs(d: &Duration) -> u64 {
    d.as_secs()
}

/// The hysteresis half of the power manager: it becomes `Active` when a spike
/// brings the membrane potential to the threshold, and goes back to `Resting`
/// only when a tick finds the potential below the threshold after it has been
/// active for at least `min_active_secs`.
pub struct PowerStateMachine {
    state: PowerState,
    active_since: Option<Instant>,
    tick_interval_secs: u64,
    min_active_secs: u64,
    /// The whole seconds of activity that the last tick read from the clock
    /// and acted on.
    last_reading: Ghost<Option<u64>>,
}

impl PowerStateMachine {
    pub closed spec fn current(&self) -> PowerState {
        self.state
    }

    /// When the machine last became active; `None` while it rests.
    pub closed spec fn started_at(&self) -> Option<Instant> {
        self.active_since
    }

    /// The whole seconds since the machine became active, as read from the
    /// clock by the last tick that found it active and below the threshold.
    pub closed spec fn reading(&self) -> Option<u64> {
        self.last_reading@
    }

    pub closed spec fn tick_interval(&self) -> u64 {
        self.tick_interval_secs
    }

    pub closed spec fn hold_secs(&self) -> u64 {
        self.min_active_secs
    }

    /// The machine's invariant: it holds a start time exactly while it is
    /// active, and its tick interval is not zero.
    pub open spec fn wf(&self) -> bool {
        &&& (self.current() == PowerState::Active) == (self.started_at() is Some)
        &&& self.tick_interval() > 0
    }

    /// Same state and same start time as `other`.
    pub open spec fn same_state(&self, other: &Self) -> bool {
        &&& self.current() == other.current()
        &&& self.started_at() == other.started_at()
    }

    /// Starts `Resting` with the given settings, or refuses them as `validate`
    /// does.
    pub fn new(settings: &PowerSettings) -> (made: Result<Self, ConfigError>)
        ensures
            made is Ok <==> first_violation(*settings) is None,
            made matches Err(e) ==> first_violation(*settings) == Some(e),
            made matches Ok(m) ==> {
                &&& m.wf()
                &&& m.current() == PowerState::Resting
                &&& m.started_at() is None
                &&& m.tick_interval() == settings.tick_interval_secs
                &&& m.hold_secs() == settings.min_active_secs
            },
    {
        match validate(settings) {
            Err(e) => Err(e),
            Ok(()) => Ok(
                PowerStateMachine {
                    state: PowerState::Resting,
                    active_since: None,
                    tick_interval_secs: settings.tick_interval_secs,
                    min_active_secs: settings.min_active_secs,
                    last_reading: Ghost(None),
                },
            ),
        }
    }

    /// A spike arrived; `reached` says whether the potential is now at or
    /// above the threshold. A resting machine that reached it becomes active
    /// and notes the time; the new state is returned when it changed.
    pub fn on_spike(&mut self, reached: bool) -> (changed: Option<PowerState>)
        requires
            old(self).wf(),
        ensures
            final(self).wf(),
            final(self).tick_interval() == old(self).tick_interval(),
            final(self).hold_secs() == old(self).hold_secs(),
            final(self).current() == after_spike(old(self).current(), reached),
            if reached && old(self).current() == PowerState::Resting {
                &&& final(self).current() == PowerState::Active
                &&& final(self).started_at() is Some
                &&& changed == Some(PowerState::Active)
            } else {
                &&& final(self).same_state(old(self))
                &&& changed is None
            },
    {
        if reached && self.state == PowerState::Resting {
            self.active_since = Some(now());
            self.state = PowerState::Active;
            Some(PowerState::Active)
        } else {
            None
        }
    }

    /// A tick found the potential `below` the threshold or not, and the
    /// machine has been active for `active_secs` whole seconds. An active
    /// machine below the threshold that has been active at least
    /// `min_active_secs` goes back to resting; the new state is returned when
    /// it changed.
    pub fn settle(&mut self, below: bool, active_secs: u64) -> (changed: Option<PowerState>)
        requires
            old(self).wf(),
        ensures
            final(self).wf(),
            final(self).tick_interval() == old(self).tick_interval(),
            final(self).hold_secs() == old(self).hold_secs(),
            final(self).reading() == old(self).reading(),
            final(self).current() == after_tick(
                old(self).current(),
                below,
                active_secs,
                old(self).hold_secs(),
            ),
            if below && old(self).current() == PowerState::Active && active_secs
                >= old(self).hold_secs() {
                &&& final(self).current() == PowerState::Resting
                &&& final(self).started_at() is None
                &&& changed == Some(PowerState::Resting)
            } else {
                &&& final(self).same_state(old(self))
                &&& changed is None
            },
    {
        if below && self.state == PowerState::Active && active_secs >= self.min_active_secs {
            self.active_since = None;
            self.state = PowerState::Resting;
            Some(PowerState::Resting)
        } else {
            None
        }
    }

    /// A tick found the potential `below` the threshold or not. When the
    /// machine is active and below, the time it has been active is read from
    /// the clock, kept as `reading`, and `settle` decides on it: the machine
    /// rests exactly when that reading is at least the hold period (with no
    /// hold period it always rests); otherwise nothing changes.
    pub fn on_tick(&mut self, below: bool) -> (changed: Option<PowerState>)
        requires
            old(self).wf(),
        ensures
            final(self).wf(),
            final(self).tick_interval() == old(self).tick_interval(),
            final(self).hold_secs() == old(self).hold_secs(),
            below && old(self).current() == PowerState::Active ==> {
                ||| {
                    &&& final(self).current() == PowerState::Resting
                    &&& final(self).started_at() is None
                    &&& changed == Some(PowerState::Resting)
                }
                ||| {
                    &&& final(self).same_state(old(self))
                    &&& changed is None
                }
            },
            !(below && old(self).current() == PowerState::Active) ==> {
                &&& final(self).same_state(old(self))
                &&& changed is None
            },
            below && old(self).current() == PowerState::Active ==> {
                &&& final(self).reading() is Some
                &&& final(self).current() == after_tick(
                    old(self).current(),
                    below,
                    final(self).reading()->0,
                    old(self).hold_secs(),
                )
                &&& (changed == Some(PowerState::Resting)) == (final(self).reading()->0
                    >= old(self).hold_secs())
                &&& changed is None ==> final(self).same_state(old(self))
            },
            below && old(self).current() == PowerState::Active && old(self).hold_secs() == 0 ==> {
                &&& final(self).current() == PowerState::Resting
                &&& final(self).started_at() is None
                &&& changed == Some(PowerState::Resting)
            },
    {
        if below && self.state == PowerState::Active {
            match &self.active_since {
                Some(since) => {
                    let spent = elapsed(since);
                    let secs = whole_secs(&spent);
                    self.last_reading = Ghost(Some(secs));
                    self.settle(below, secs)
                },
                None => None,
            }
        } else {
            None
        }
    }

    /// Replaces the settings if `validate` accepts them; otherwise leaves the
    /// machine as it was. The state is kept either way.
    pub fn reconfigure(&mut self, settings: &PowerSettings) -> (checked: Result<(), ConfigError>)
        requires
            old(self).wf(),
        ensures
            final(self).wf(),
            checked == (match first_violation(*settings) {
                None => Ok(()),
                Some(e) => Err(e),
            }),
            final(self).same_state(old(self)),
            checked is Ok ==> {
                &&& final(self).tick_interval() == settings.tick_interval_secs
                &&& final(self).hold_secs() == settings.min_active_secs
            },
            checked is Err ==> {
                &&& final(self).tick_interval() == old(self).tick_interval()
                &&& final(self).hold_secs() == old(self).hold_secs()
            },
    {
        let checked = validate(settings);
        if checked.is_ok() {
            self.tick_interval_secs = settings.tick_interval_secs;
            self.min_active_secs = settings.min_active_secs;
        }
        checked
    }

    pub fn state(&self) -> (s: PowerState)
        ensures
            s == self.current(),
    {
        self.state
    }

    pub fn tick_interval_secs(&self) -> (secs: u64)
        ensures
            secs == self.tick_interval(),
    {
        self.tick_interval_secs
    }

    pub fn min_active_secs(&self) -> (secs: u64)
        ensures
            secs == self.hold_secs(),
    {
        self.min_active_secs
    }
}

/// A spike never puts the machine to rest, and a spike that reaches the
/// threshold always leaves it active.
pub proof fn spike_never_rests(state: PowerState, reached: bool)
    ensures
        state == PowerState::Active ==> after_spike(state, reached) == PowerState::Active,
        reached ==> after_spike(state, reached) == PowerState::Active,
        !reached ==> after_spike(state, reached) == state,
{
}

/// A tick never wakes the machine, and it never rests before the hold period
/// is over, nor while the potential is at or above the threshold.
pub proof fn tick_never_wakes(state: PowerState, below: bool, active_secs: u64, hold: u64)
    ensures
        state == PowerState::Resting ==> after_tick(state, below, active_secs, hold)
            == PowerState::Resting,
        active_secs < hold ==> after_tick(state, below, active_secs, hold) == state,
        !below ==> after_tick(state, below, active_secs, hold) == state,
{
}

/// Whatever the hold period, a tick rests an active machine exactly when it
/// finds the potential below the threshold and the machine has been active
/// for at least the hold period; a tick leaves a resting machine resting.
pub proof fn tick_rests_once_hold_is_over(state: PowerState, below: bool, active_secs: u64, hold: u64)
    ensures
        state == PowerState::Active ==> (after_tick(state, below, active_secs, hold)
            == PowerState::Resting <==> (below && active_secs >= hold)),
        state == PowerState::Active && below && active_secs >= hold ==> after_tick(
            state,
            below,
            active_secs,
            hold,
        ) == PowerState::Resting,
        after_tick(state, below, active_secs, hold) == PowerState::Resting ==> (state
            == PowerState::Resting || active_secs >= hold),
{
}

/// The longer a machine has been active, the more readily a tick rests it:
/// a tick that rests it after some time also rests it after any longer time.
pub proof fn tick_rest_is_monotone_in_time(below: bool, shorter: u64, longer: u64, hold: u64)
    requires
        shorter <= longer,
    ensures
        after_tick(PowerState::Active, below, shorter, hold) == PowerState::Resting
            ==> after_tick(PowerState::Active, below, longer, hold) == PowerState::Resting,
{
}

/// Exactly the configurations whose spike weight, decay rate and threshold
/// are positive and whose tick interval is not zero are accepted, whatever
/// their durations; each refusal names a check that the configuration fails.
pub proof fn accepted_exactly_when_positive(settings: PowerSettings)
    ensures
        (first_violation(settings) is None) == (settings.spike_weight_positive
            && settings.decay_rate_positive && settings.threshold_positive
            && settings.tick_interval_secs > 0),
        first_violation(settings) == Some(ConfigError::SpikeWeight)
            ==> !settings.spike_weight_positive,
        first_violation(settings) == Some(ConfigError::DecayRate)
            ==> !settings.decay_rate_positive,
        first_violation(settings) == Some(ConfigError::Threshold)
            ==> !settings.threshold_positive,
        first_violation(settings) == Some(ConfigError::TickInterval)
            ==> settings.tick_interval_secs == 0,
{
}

/// From rest, a spike that reaches the threshold and then a tick below it
/// brings the machine back to rest exactly when the hold period is over:
/// hysteresis keeps it from flapping.
pub proof fn spike_then_tick(active_secs: u64, hold: u64)
    ensures
        after_tick(after_spike(PowerState::Resting, true), true, active_secs, hold) == (if active_secs
            >= hold {
            PowerState::Resting
        } else {
            PowerState::Active
        }),
{
}

} // verus!
