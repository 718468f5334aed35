use heretek::decide::{ChangeSummary, Decider, HeuristicDecider, RiskTier};
use heretek::profile::Lane;

fn change(paths: &[&str], lines: usize, tests: bool, deps: bool) -> ChangeSummary {
    ChangeSummary {
        paths: paths.iter().map(|p| (*p).to_string()).collect(),
        files_changed: paths.len(),
        lines_changed: lines,
        touches_tests: tests,
        touches_dependencies: deps,
    }
}

#[test]
fn small_tested_change_is_low_risk() {
    let decider = HeuristicDecider;
    let decision = decider.risky_change(&change(&["src/util/strings.ts"], 12, true, false));
    assert_eq!(decision.value, RiskTier::Low);
}

#[test]
fn auth_path_is_high_risk() {
    let decider = HeuristicDecider;
    let decision = decider.risky_change(&change(&["src/auth/session.ts"], 10, true, false));
    assert_eq!(decision.value, RiskTier::High);
}

#[test]
fn dependency_change_is_high_risk() {
    let decider = HeuristicDecider;
    let decision = decider.risky_change(&change(&["package.json"], 4, false, true));
    assert_eq!(decision.value, RiskTier::High);
}

#[test]
fn high_risk_routes_to_deep_lane() {
    let decider = HeuristicDecider;
    let decision = decider.lane_for(RiskTier::High);
    assert_eq!(decision.value, Lane::Deep);
}

#[test]
fn large_change_is_high_risk_and_others_are_medium() {
    let decider = HeuristicDecider;
    let big = decider.risky_change(&change(&["src/a.ts"], 401, true, false));
    assert_eq!(big.value, RiskTier::High);
    assert_eq!(big.reason, "large change");
    let plain = decider.risky_change(&change(&["src/a.ts"], 60, false, false));
    assert_eq!(plain.value, RiskTier::Medium);
    assert_eq!(plain.reason, "unclassified change");
}

#[test]
fn low_and_medium_risk_stay_on_the_fast_lane() {
    let decider = HeuristicDecider;
    assert_eq!(decider.lane_for(RiskTier::Low).value, Lane::Fast);
    assert_eq!(decider.lane_for(RiskTier::Medium).value, Lane::Fast);
}

#[test]
fn risky_paths_match_without_regard_to_case() {
    let decider = HeuristicDecider;
    let decision = decider.risky_change(&change(&["deploy/Dockerfile"], 3, true, false));
    assert_eq!(decision.value, RiskTier::High);
    assert_eq!(decision.reason, "high-risk path touched");
}
