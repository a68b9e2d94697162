use benches::dispatch::{match_test, select_strategy, str_eq, Strategy, TestCase};

#[test]
fn test_names() {
    assert_eq!(match_test("test"), TestCase::Basic);
    assert_eq!(match_test("figure5"), TestCase::Figure5);
    assert_eq!(match_test("yield_spin_loop_true"), TestCase::YieldSpinLoopTrue);
    assert_eq!(match_test("yield_spin_loop_false"), TestCase::YieldSpinLoopFalse);
    assert_eq!(match_test("async_match_deadlock"), TestCase::AsyncMatchDeadlock);
    assert_eq!(match_test("find_deadlock_config"), TestCase::FindDeadlockConfig);
    assert_eq!(match_test("minimal_deadlock"), TestCase::MinimalDeadlock);
    assert_eq!(match_test("nonsense"), TestCase::Basic);
    assert_eq!(match_test(""), TestCase::Basic);
}

#[test]
fn strategy_names() {
    assert_eq!(select_strategy("FUZZ_W"), Strategy::FuzzWraparound);
    assert_eq!(select_strategy("FUZZ_RR"), Strategy::FuzzRoundRobin);
    assert_eq!(select_strategy("FUZZ_RA"), Strategy::FuzzRoundRobin);
    assert_eq!(select_strategy("FUZZ_A"), Strategy::FuzzAbort);
    assert_eq!(select_strategy("PCT"), Strategy::Pct);
    assert_eq!(select_strategy("RANDOM"), Strategy::Random);
    assert_eq!(select_strategy("FUZZ_PCT"), Strategy::PctFuzz);
    assert_eq!(select_strategy("pct"), Strategy::Random);
}

#[test]
fn string_equality() {
    assert!(str_eq("abc", "abc"));
    assert!(!str_eq("abc", "abd"));
    assert!(!str_eq("abc", "ab"));
    assert!(str_eq("", ""));
}
