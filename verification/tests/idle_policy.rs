use slopos_shell::idle_policy::{
    idle_phase, recommended_action, should_auto_lock, secs_until_next_phase, IdleConfig, IdleInhibitState, IdlePhase,
    IdleRecommendedAction, InhibitReason,
};

#[test]
fn phases_progress() {
    let cfg = IdleConfig {
        warn_after_secs: 60,
        lock_after_secs: 120,
        suspend_after_secs: 300,
        lock_on_suspend: true,
        inhibited: false,
    };
    let inh = IdleInhibitState::new();
    assert_eq!(idle_phase(&cfg, 0, false, &inh), IdlePhase::Active);
    assert_eq!(idle_phase(&cfg, 60, false, &inh), IdlePhase::IdleWarn);
    assert_eq!(idle_phase(&cfg, 120, false, &inh), IdlePhase::ShouldLock);
    assert_eq!(idle_phase(&cfg, 300, true, &inh), IdlePhase::ShouldSuspend);
}

#[test]
fn inhibit_blocks() {
    let cfg = IdleConfig::default();
    let mut inh = IdleInhibitState::new();
    inh.add(InhibitReason::Media);
    assert_eq!(idle_phase(&cfg, 99999, false, &inh), IdlePhase::Active);
    inh.remove(InhibitReason::Media);
    assert_eq!(
        idle_phase(&cfg, cfg.lock_after_secs, false, &inh),
        IdlePhase::ShouldLock
    );
}

#[test]
fn conf_parse() {
    let cfg = IdleConfig::parse_from_conf("idle_lock_secs=30\nlock_on_suspend=false\n");
    assert_eq!(cfg.lock_after_secs, 30);
    assert!(!cfg.lock_on_suspend);
}

#[test]
fn recommended_and_countdown() {
    let cfg = IdleConfig {
        warn_after_secs: 10,
        lock_after_secs: 20,
        suspend_after_secs: 0,
        lock_on_suspend: true,
        inhibited: false,
    };
    assert_eq!(
        recommended_action(IdlePhase::ShouldLock, false),
        IdleRecommendedAction::Lock
    );
    assert_eq!(secs_until_next_phase(&cfg, 5, false), Some(5));
}

fn lock_config() -> IdleConfig {
    IdleConfig {
        warn_after_secs: 60,
        lock_after_secs: 120,
        suspend_after_secs: 0,
        lock_on_suspend: false,
        inhibited: false,
    }
}

#[test]
fn auto_lock_when_due_and_password_set() {
    let none = IdleInhibitState::new();
    assert!(should_auto_lock(&lock_config(), 120, false, &none, &[], true));
    assert!(!should_auto_lock(&lock_config(), 119, false, &none, &[], true));
    assert!(!should_auto_lock(&lock_config(), 500, false, &none, &[], false));
    assert!(!should_auto_lock(&lock_config(), 500, true, &none, &[], true));
}

#[test]
fn auto_lock_held_off_by_shell_or_portal_inhibitors() {
    let mut held = IdleInhibitState::new();
    held.add(InhibitReason::Media);
    assert!(!should_auto_lock(&lock_config(), 500, false, &held, &[], true));
    let none = IdleInhibitState::new();
    assert!(!should_auto_lock(&lock_config(), 500, false, &none, &[InhibitReason::Presentation], true));
}
