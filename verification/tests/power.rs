use gluebox_core::power::{validate, ConfigError, PowerSettings, PowerState, PowerStateMachine};

/// The parameters of a power configuration, as the daemon holds them.
struct Config {
    threshold: f64,
    decay_rate: f64,
    tick_interval_secs: u64,
    spike_weight: f64,
    min_active_secs: u64,
}

impl Config {
    fn settings(&self) -> PowerSettings {
        PowerSettings {
            spike_weight_positive: self.spike_weight > 0.0,
            decay_rate_positive: self.decay_rate > 0.0,
            threshold_positive: self.threshold > 0.0,
            tick_interval_secs: self.tick_interval_secs,
            min_active_secs: self.min_active_secs,
        }
    }
}

fn config_with(threshold: f64, decay_rate: f64, spike_weight: f64, min_active_secs: u64) -> Config {
    Config { threshold, decay_rate, tick_interval_secs: 1, spike_weight, min_active_secs }
}

/// The membrane potential kept beside the state machine, as a daemon does.
struct Neuron {
    config: Config,
    potential: f64,
    machine: PowerStateMachine,
}

impl Neuron {
    fn new(config: Config) -> Result<Neuron, ConfigError> {
        let machine = PowerStateMachine::new(&config.settings())?;
        Ok(Neuron { config, potential: 0.0, machine })
    }

    fn spike(&mut self) -> Option<PowerState> {
        self.potential += self.config.spike_weight;
        self.machine.on_spike(self.potential >= self.config.threshold)
    }

    fn tick(&mut self) -> Option<PowerState> {
        self.potential = (self.potential - self.config.decay_rate).max(0.0);
        self.machine.on_tick(self.potential < self.config.threshold)
    }

    fn state(&self) -> PowerState {
        self.machine.state()
    }
}

#[test]
fn crossing_threshold_transitions_to_active() {
    let mut pm = Neuron::new(config_with(3.0, 0.5, 2.0, 0)).unwrap();
    assert_eq!(pm.state(), PowerState::Resting);
    pm.spike();
    assert_eq!(pm.state(), PowerState::Resting);
    pm.spike();
    assert_eq!(pm.state(), PowerState::Active);
}

#[test]
fn decaying_below_threshold_after_min_active_secs_transitions_to_resting() {
    let mut pm = Neuron::new(config_with(3.0, 0.5, 2.0, 0)).unwrap();
    pm.spike();
    pm.spike();
    assert_eq!(pm.state(), PowerState::Active);
    pm.tick();
    pm.tick();
    pm.tick();
    pm.tick();
    pm.tick();
    pm.tick();
    assert_eq!(pm.state(), PowerState::Resting);
}

#[test]
fn hysteresis_prevents_resting_before_min_active_secs() {
    let mut pm = Neuron::new(config_with(3.0, 0.5, 2.0, 9999)).unwrap();
    pm.spike();
    pm.spike();
    assert_eq!(pm.state(), PowerState::Active);
    pm.tick();
    pm.tick();
    pm.tick();
    pm.tick();
    pm.tick();
    pm.tick();
    assert_eq!(pm.state(), PowerState::Active);
}

#[test]
fn validation_rejects_zero_spike_weight() {
    let cfg = Config {
        threshold: 1.0,
        decay_rate: 0.5,
        tick_interval_secs: 1,
        spike_weight: 0.0,
        min_active_secs: 0,
    };
    assert!(PowerStateMachine::new(&cfg.settings()).is_err());
}

#[test]
fn validation_rejects_zero_decay_rate() {
    let cfg = Config {
        threshold: 1.0,
        decay_rate: 0.0,
        tick_interval_secs: 1,
        spike_weight: 1.0,
        min_active_secs: 0,
    };
    assert!(PowerStateMachine::new(&cfg.settings()).is_err());
}

#[test]
fn validation_rejects_zero_threshold() {
    let cfg = Config {
        threshold: 0.0,
        decay_rate: 0.5,
        tick_interval_secs: 1,
        spike_weight: 1.0,
        min_active_secs: 0,
    };
    assert!(PowerStateMachine::new(&cfg.settings()).is_err());
}

#[test]
fn validation_rejects_zero_tick_interval() {
    let cfg = Config {
        threshold: 1.0,
        decay_rate: 0.5,
        tick_interval_secs: 0,
        spike_weight: 1.0,
        min_active_secs: 0,
    };
    assert!(PowerStateMachine::new(&cfg.settings()).is_err());
}

#[test]
fn reconfigure_rejects_invalid_config() {
    let mut pm = Neuron::new(config_with(3.0, 0.5, 2.0, 7)).unwrap();
    let bad_cfg = Config {
        threshold: 0.0,
        decay_rate: 0.5,
        tick_interval_secs: 1,
        spike_weight: 1.0,
        min_active_secs: 0,
    };
    assert!(pm.machine.reconfigure(&bad_cfg.settings()).is_err());
    assert_eq!(pm.machine.min_active_secs(), 7);
    assert_eq!(pm.machine.tick_interval_secs(), 1);
}

#[test]
fn reconfigure_takes_new_durations() {
    let mut pm = Neuron::new(config_with(3.0, 0.5, 2.0, 0)).unwrap();
    let new_cfg = Config {
        threshold: 10.0,
        decay_rate: 1.0,
        tick_interval_secs: 30,
        spike_weight: 3.0,
        min_active_secs: 10,
    };
    assert_eq!(pm.machine.reconfigure(&new_cfg.settings()), Ok(()));
    assert_eq!(pm.machine.tick_interval_secs(), 30);
    assert_eq!(pm.machine.min_active_secs(), 10);
}

#[test]
fn reconfigure_keeps_the_state() {
    let mut pm = Neuron::new(config_with(3.0, 0.5, 2.0, 0)).unwrap();
    pm.spike();
    pm.spike();
    assert_eq!(pm.state(), PowerState::Active);
    assert!(pm.machine.reconfigure(&config_with(10.0, 1.0, 3.0, 0).settings()).is_ok());
    assert_eq!(pm.state(), PowerState::Active);
}

#[test]
fn validate_reports_the_first_failing_check() {
    let all_bad = PowerSettings {
        spike_weight_positive: false,
        decay_rate_positive: false,
        threshold_positive: false,
        tick_interval_secs: 0,
        min_active_secs: 0,
    };
    assert_eq!(validate(&all_bad), Err(ConfigError::SpikeWeight));
    let s = PowerSettings { spike_weight_positive: true, ..all_bad };
    assert_eq!(validate(&s), Err(ConfigError::DecayRate));
    let s = PowerSettings { decay_rate_positive: true, ..s };
    assert_eq!(validate(&s), Err(ConfigError::Threshold));
    let s = PowerSettings { threshold_positive: true, ..s };
    assert_eq!(validate(&s), Err(ConfigError::TickInterval));
    let s = PowerSettings { tick_interval_secs: 30, ..s };
    assert_eq!(validate(&s), Ok(()));
}

#[test]
fn config_error_messages() {
    assert_eq!(ConfigError::SpikeWeight.message(), "spike_weight must be > 0");
    assert_eq!(ConfigError::DecayRate.message(), "decay_rate must be > 0");
    assert_eq!(ConfigError::Threshold.message(), "threshold must be > 0");
    assert_eq!(ConfigError::TickInterval.message(), "tick_interval_secs must be > 0");
}

#[test]
fn nan_parameters_are_refused() {
    let cfg = config_with(f64::NAN, 0.5, 2.0, 0);
    assert_eq!(PowerStateMachine::new(&cfg.settings()).err(), Some(ConfigError::Threshold));
}

#[test]
fn transitions_are_reported_once() {
    let mut pm = Neuron::new(config_with(3.0, 0.5, 2.0, 0)).unwrap();
    assert_eq!(pm.spike(), None);
    assert_eq!(pm.spike(), Some(PowerState::Active));
    assert_eq!(pm.spike(), None);
    assert_eq!(pm.state(), PowerState::Active);
}

#[test]
fn settle_honours_the_hold_period() {
    let mut pm = Neuron::new(config_with(3.0, 0.5, 2.0, 10)).unwrap();
    pm.spike();
    pm.spike();
    assert_eq!(pm.machine.settle(true, 9), None);
    assert_eq!(pm.state(), PowerState::Active);
    assert_eq!(pm.machine.settle(false, 10), None);
    assert_eq!(pm.state(), PowerState::Active);
    assert_eq!(pm.machine.settle(true, 10), Some(PowerState::Resting));
    assert_eq!(pm.state(), PowerState::Resting);
    assert_eq!(pm.machine.settle(true, 100), None);
    assert_eq!(pm.state(), PowerState::Resting);
}

#[test]
fn a_tick_never_wakes_a_resting_machine() {
    let mut pm = Neuron::new(config_with(3.0, 0.5, 2.0, 0)).unwrap();
    assert_eq!(pm.machine.on_tick(false), None);
    assert_eq!(pm.machine.on_tick(true), None);
    assert_eq!(pm.state(), PowerState::Resting);
}
