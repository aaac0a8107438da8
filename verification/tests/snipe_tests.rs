use ctf_sniper::ctfd::{Challenge, ChallengeBrief, CtfdError};
use ctf_sniper::snipe::{
    ambiguity_report, plan_after_matches, resolve_briefs, resolve_challenges, wait_complete,
    wait_plan, PollDirective, PollState, Resolution, Snipe, SnipeError, SnipeStep, BASE_DELAY_MS,
    GUARD_BAND_MS,
};

fn brief(name: &str, id: i32) -> ChallengeBrief {
    ChallengeBrief {
        name: name.to_owned(),
        id,
        category: "misc".to_owned(),
        value: 100,
        solved_by_me: false,
    }
}

fn chall(name: &str, id: i32, description: &str) -> Challenge {
    Challenge {
        name: name.to_owned(),
        id,
        category: "misc".to_owned(),
        description: description.to_owned(),
        connection_info: None,
        value: 100,
        solved_by_me: false,
        files: Vec::new(),
    }
}

fn sample_briefs() -> Vec<ChallengeBrief> {
    vec![brief("Web 1", 1), brief("Web 2", 2), brief("Pwn 1", 3)]
}

#[test]
fn title_target_web_is_ambiguous_and_lists_both() {
    let matches = Snipe::find_title_matches("web", sample_briefs());
    assert_eq!(matches.len(), 2);
    assert_eq!(matches[0].name, "Web 1");
    assert_eq!(matches[1].name, "Web 2");
    match resolve_briefs(&matches) {
        Resolution::Ambiguous(l) => {
            assert_eq!(l.len(), 2);
            assert_eq!(l[0], (1, "Web 1".to_owned()));
            assert_eq!(l[1], (2, "Web 2".to_owned()));
            assert_eq!(ambiguity_report(&l), "Found multiple matches: [1] Web 1 [2] Web 2");
        }
        _ => panic!("two matches must resolve to an ambiguity"),
    }
    match plan_after_matches(resolve_briefs(&matches), true) {
        Err(SnipeError::Ambiguous(l)) => assert_eq!(l.len(), 2),
        _ => panic!("an ambiguity aborts the operation, body target or not"),
    }
}

#[test]
fn title_target_pwn_resolves_to_the_single_match() {
    let matches = Snipe::find_title_matches("pwn", sample_briefs());
    assert_eq!(matches.len(), 1);
    assert_eq!(matches[0].id, 3);
    match resolve_briefs(&matches) {
        Resolution::Resolved(id) => assert_eq!(id, 3),
        _ => panic!("one match must resolve to its id"),
    }
    match plan_after_matches(resolve_briefs(&matches), false) {
        Ok(SnipeStep::Submit(id)) => assert_eq!(id, 3),
        _ => panic!("a resolved match is submitted"),
    }
}

#[test]
fn zero_matches_without_body_target_is_no_match_not_an_error() {
    let matches = Snipe::find_title_matches("forensics", sample_briefs());
    assert_eq!(matches.len(), 0);
    let r = resolve_briefs(&matches);
    assert!(matches!(r, Resolution::NoMatch));
    assert!(matches!(plan_after_matches(r, false), Ok(SnipeStep::NoMatchDone)));
}

#[test]
fn zero_matches_with_body_target_falls_through_to_the_body_pass() {
    let matches = Snipe::find_title_matches("forensics", sample_briefs());
    let r = resolve_briefs(&matches);
    assert!(matches!(plan_after_matches(r, true), Ok(SnipeStep::TryBodyPass)));
}

#[test]
fn matching_is_case_insensitive_both_ways() {
    let matches = Snipe::find_title_matches("WEB", sample_briefs());
    assert_eq!(matches.len(), 2);
    let matches = Snipe::find_title_matches("pWN", sample_briefs());
    assert_eq!(matches.len(), 1);
}

#[test]
fn body_pass_matches_descriptions() {
    let challs = vec![
        chall("Web 1", 1, "A simple XSS"),
        chall("Web 2", 2, "Blind SQL injection"),
        chall("Pwn 1", 3, "ROP your way in"),
    ];
    let matches = Snipe::find_body_matches("sql", challs);
    assert_eq!(matches.len(), 1);
    assert_eq!(matches[0].id, 2);
    match resolve_challenges(&matches) {
        Resolution::Resolved(id) => assert_eq!(id, 2),
        _ => panic!("one body match must resolve"),
    }
}

#[test]
fn body_pass_ambiguity_lists_candidates() {
    let challs = vec![chall("A", 1, "uses a key"), chall("B", 2, "another key here")];
    let matches = Snipe::find_body_matches("key", challs);
    match resolve_challenges(&matches) {
        Resolution::Ambiguous(l) => {
            assert_eq!(l, vec![(1, "A".to_owned()), (2, "B".to_owned())]);
        }
        _ => panic!("two body matches must be ambiguous"),
    }
}

#[test]
fn wait_inside_guard_band_fails_before_any_sleep() {
    let now: i64 = 1_700_000_000_000;
    let target = now + 5_000;
    assert!(matches!(wait_plan(now, target), Err(SnipeError::TimingPrecondition)));
    assert!(matches!(wait_plan(now, now - 1), Err(SnipeError::TimingPrecondition)));
}

#[test]
fn wait_thirty_seconds_out_coarse_sleeps_twenty() {
    let now: i64 = 1_700_000_000_000;
    let target = now + 30_000;
    match wait_plan(now, target) {
        Ok(coarse) => assert_eq!(coarse, 20_000),
        Err(_) => panic!("a target beyond the guard band is plannable"),
    }
    assert_eq!(GUARD_BAND_MS, 10_000);
    assert!(!wait_complete(target - 1, target));
    assert!(wait_complete(target, target));
    assert!(wait_complete(target + 1, target));
}

#[test]
fn three_failures_then_success_backs_off_linearly() {
    let mut st = PollState::new();
    let failure = || Err(CtfdError::Transport("connection reset".to_owned()));
    match st.step(failure()) {
        PollDirective::Retry(d) => assert_eq!(d, 0),
        _ => panic!("a failure retries"),
    }
    match st.step(failure()) {
        PollDirective::Retry(d) => assert_eq!(d, BASE_DELAY_MS),
        _ => panic!("a failure retries"),
    }
    match st.step(failure()) {
        PollDirective::Retry(d) => assert_eq!(d, 2 * BASE_DELAY_MS),
        _ => panic!("a failure retries"),
    }
    match st.step(Ok(sample_briefs())) {
        PollDirective::Done(v) => {
            assert_eq!(v.len(), 3);
            assert_eq!(v[0].name, "Web 1");
            assert_eq!(v[2].name, "Pwn 1");
        }
        _ => panic!("a success is handed out, not an error"),
    }
}
