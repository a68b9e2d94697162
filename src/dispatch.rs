use vstd::prelude::*;
use vstd::string::*;

verus! {

/// The test bodies that can be run by name.
#[derive(Clone, Copy, PartialEq, Eq, Structural, Debug)]
pub enum TestCase {
    Basic,
    Figure5,
    YieldSpinLoopTrue,
    YieldSpinLoopFalse,
    AsyncMatchDeadlock,
    FindDeadlockConfig,
    MinimalDeadlock,
}

/// The exploration strategies that can be asked for by name.
#[derive(Clone, Copy, PartialEq, Eq, Structural, Debug)]
pub enum Strategy {
    /// Fuzzing that wraps around when a schedule runs out.
    FuzzWraparound,
    /// Fuzzing that completes a schedule round-robin.
    FuzzRoundRobin,
    /// Fuzzing that abandons a schedule when it runs out.
    FuzzAbort,
    /// Probabilistic concurrency testing with a bounded switch budget.
    Pct,
    /// Uniformly random scheduling.
    Random,
    /// Probabilistic concurrency testing driven by a fuzzer.
    PctFuzz,
}

/// The test named `name`; an unknown name selects the basic test.
pub open spec fn test_case_of(name: Seq<char>) -> TestCase {
    if name == "figure5"@ {
        TestCase::Figure5
    } else if name == "yield_spin_loop_true"@ {
        TestCase::YieldSpinLoopTrue
    } else if name == "yield_spin_loop_false"@ {
        TestCase::YieldSpinLoopFalse
    } else if name == "async_match_deadlock"@ {
        TestCase::AsyncMatchDeadlock
    } else if name == "find_deadlock_config"@ {
        TestCase::FindDeadlockConfig
    } else if name == "minimal_deadlock"@ {
        TestCase::MinimalDeadlock
    } else {
        TestCase::Basic
    }
}

/// The strategy named `mode`; an unknown name selects random scheduling.
/// Both `FUZZ_RR` and `FUZZ_RA` select round-robin completion.
pub open spec fn strategy_of(mode: Seq<char>) -> Strategy {
    if mode == "FUZZ_W"@ {
        Strategy::FuzzWraparound
    } else if mode == "FUZZ_RR"@ || mode == "FUZZ_RA"@ {
        Strategy::FuzzRoundRobin
    } else if mode == "FUZZ_A"@ {
        Strategy::FuzzAbort
    } else if mode == "PCT"@ {
        Strategy::Pct
    } else if mode == "FUZZ_PCT"@ {
        Strategy::PctFuzz
    } else {
        Strategy::Random
    }
}

/// Whether two strings hold the same characters.
pub fn str_eq(a: &str, b: &str) -> (r: bool)
    ensures
        r == (a@ == b@),
{
    let n = a.unicode_len();
    if n != b.unicode_len() {
        return false;
    }
    let mut i: usize = 0;
    while i < n
        invariant
            n == a@.len(),
            n == b@.len(),
            i <= n,
            forall|k: int| 0 <= k < i ==> a@[k] == b@[k],
        decreases n - i,
    {
        if a.get_char(i) != b.get_char(i) {
            return false;
        }
        i = i + 1;
    }
    assert(a@ =~= b@);
    true
}

/// The test that `test_name` names; `test`, like any unknown name, selects
/// the basic test.
pub fn match_test(test_name: &str) -> (r: TestCase)
    ensures
        r == test_case_of(test_name@),
{
    if str_eq(test_name, "figure5") {
        TestCase::Figure5
    } else if str_eq(test_name, "yield_spin_loop_true") {
        TestCase::YieldSpinLoopTrue
    } else if str_eq(test_name, "yield_spin_loop_false") {
        TestCase::YieldSpinLoopFalse
    } else if str_eq(test_name, "async_match_deadlock") {
        TestCase::AsyncMatchDeadlock
    } else if str_eq(test_name, "find_deadlock_config") {
        TestCase::FindDeadlockConfig
    } else if str_eq(test_name, "minimal_deadlock") {
        TestCase::MinimalDeadlock
    } else {
        TestCase::Basic
    }
}

/// The strategy that `mode` names.
pub fn select_strategy(mode: &str) -> (r: Strategy)
    ensures
        r == strategy_of(mode@),
{
    if str_eq(mode, "FUZZ_W") {
        Strategy::FuzzWraparound
    } else if str_eq(mode, "FUZZ_RR") || str_eq(mode, "FUZZ_RA") {
        Strategy::FuzzRoundRobin
    } else if str_eq(mode, "FUZZ_A") {
        Strategy::FuzzAbort
    } else if str_eq(mode, "PCT") {
        Strategy::Pct
    } else if str_eq(mode, "FUZZ_PCT") {
        Strategy::PctFuzz
    } else {
        Strategy::Random
    }
}

} // verus!
