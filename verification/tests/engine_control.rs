use std::sync::atomic::AtomicBool;

use shufflekeys::cli::{obfuscation_enabled, wants_new_persona, Commands};
use shufflekeys::{is_running, plan_delay, restart, stop, DelayPlan};

#[test]
fn running_flag_stops_and_restarts() {
    let flag = AtomicBool::new(true);
    assert!(is_running(&flag));
    stop(&flag);
    assert!(!is_running(&flag));
    restart(&flag);
    assert!(is_running(&flag));
}

#[test]
fn delay_plan_sleeps_only_for_long_waits() {
    assert_eq!(plan_delay(1_000, 1_000), None);
    assert_eq!(plan_delay(1_000, 900), None);
    assert_eq!(
        plan_delay(1_000, 2_500),
        Some(DelayPlan {
            delay_us: 1_500,
            sleep_us: 0
        })
    );
    assert_eq!(
        plan_delay(1_000, 2_501),
        Some(DelayPlan {
            delay_us: 1_501,
            sleep_us: 701
        })
    );
    assert_eq!(
        plan_delay(0, 25_000),
        Some(DelayPlan {
            delay_us: 25_000,
            sleep_us: 24_200
        })
    );
}

#[test]
fn commands_select_engine_mode() {
    assert!(obfuscation_enabled(None));
    assert!(obfuscation_enabled(Some(Commands::On)));
    assert!(!obfuscation_enabled(Some(Commands::Off)));
    assert!(obfuscation_enabled(Some(Commands::NewPersona)));
    assert!(wants_new_persona(Some(Commands::NewPersona)));
    assert!(!wants_new_persona(None));
    assert!(!wants_new_persona(Some(Commands::Status)));
}
