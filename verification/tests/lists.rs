use teddy_sync::error::AppError;
use teddy_sync::instant::{Instant, FIRST_SECOND, LAST_SECOND};
use teddy_sync::lists::handlers::{
    answer_join, check_join_failures, check_member, check_outstanding, code_of, draw_code,
    failures_since, invite_expiry, normalise_code, redeem, Invite, JoinVerdict, Minting,
    CODE_CHARS, JOIN_FAILURE_MESSAGE,
};
use teddy_sync::lists::limits::{
    invite_ttl_mins, join_failure_window_mins, max_invite_attempts, max_join_failures,
    max_outstanding_invites_per_user, DEFAULT_INVITE_TTL_MINS, DEFAULT_JOIN_FAILURE_WINDOW_MINS,
    DEFAULT_MAX_INVITE_ATTEMPTS, DEFAULT_MAX_JOIN_FAILURES,
    DEFAULT_MAX_OUTSTANDING_INVITES_PER_USER, INVITE_CODE_GENERATION_ATTEMPTS,
};

/// With nothing set in the environment, every limit is the compiled default.
#[test]
fn limits_default_when_the_environment_is_silent() {
    assert_eq!(max_join_failures(None), DEFAULT_MAX_JOIN_FAILURES);
    assert_eq!(invite_ttl_mins(None), DEFAULT_INVITE_TTL_MINS);
    assert_eq!(max_outstanding_invites_per_user(None), DEFAULT_MAX_OUTSTANDING_INVITES_PER_USER);
    assert_eq!(max_invite_attempts(None), DEFAULT_MAX_INVITE_ATTEMPTS);
    assert_eq!(join_failure_window_mins(None), DEFAULT_JOIN_FAILURE_WINDOW_MINS);
}

#[test]
fn limits_are_read_where_they_are_set_to_something() {
    assert_eq!(max_join_failures(Some("7")), 7);
    assert_eq!(max_join_failures(Some("0")), DEFAULT_MAX_JOIN_FAILURES);
    assert_eq!(max_join_failures(Some("-3")), DEFAULT_MAX_JOIN_FAILURES);
    assert_eq!(max_invite_attempts(Some("2147483647")), i32::MAX);
    assert_eq!(max_invite_attempts(Some(" 4 ")), 4);
    // No number turns the limit into one that refuses everything.
    for past in ["2147483648", "4294967296", "4294967298", "0", "-1", "x"] {
        assert_eq!(max_invite_attempts(Some(past)), DEFAULT_MAX_INVITE_ATTEMPTS);
    }
    assert_eq!(join_failure_window_mins(Some("60")), 60);
    assert_eq!(invite_ttl_mins(Some("5")), 5);
    assert_eq!(max_outstanding_invites_per_user(Some("x")), DEFAULT_MAX_OUTSTANDING_INVITES_PER_USER);
}

fn at(secs: i64) -> Instant {
    Instant { secs, nanos: 0 }
}

fn invite(expires_at: i64, attempts: i32) -> Option<Invite> {
    Some(Invite { list_id: "list-1".to_string(), expires_at: at(expires_at), attempts })
}

#[test]
fn a_live_code_grants_membership_of_its_own_list() {
    // Still good at the very instant it lapses.
    for expiry in [100, 50] {
        match redeem(&invite(expiry, 2), "user-2", at(50), 3) {
            JoinVerdict::Joined { list_id, member_id } => {
                assert_eq!(list_id, "list-1");
                assert!(member_id.contains("list-1") && member_id.contains("user-2"), "{}", member_id);
            }
            other => panic!("expected to join, got {:?}", other),
        }
    }
    let answer = answer_join(&redeem(&invite(100, 0), "user-2", at(50), 3)).unwrap();
    assert!(answer.success);
    assert_eq!(answer.list_id, "list-1");
}

#[test]
fn wrong_and_lapsed_codes_get_one_answer() {
    let wrong = answer_join(&redeem(&None, "user-2", at(50), 3)).unwrap_err();
    let lapsed = answer_join(&redeem(&invite(49, 0), "user-2", at(50), 3)).unwrap_err();
    let gone = answer_join(&redeem(&invite(49, 2), "user-2", at(50), 3)).unwrap_err();
    for err in [wrong, lapsed, gone] {
        match err {
            AppError::Forbidden(message) => assert_eq!(message, JOIN_FAILURE_MESSAGE),
            other => panic!("expected Forbidden, got {:?}", other),
        }
    }
}

#[test]
fn a_lapsed_code_is_destroyed_by_the_probe_that_reaches_the_limit() {
    let mut code = invite(49, 0);
    let mut probes = 0;
    while let Some(found) = code {
        probes += 1;
        let expires_at = found.expires_at;
        code = match redeem(&Some(found), "user-2", at(50), 3) {
            JoinVerdict::Probed(attempts) => {
                Some(Invite { list_id: "list-1".to_string(), expires_at, attempts })
            }
            JoinVerdict::Destroyed => None,
            other => panic!("a lapsed code granted {:?}", other),
        };
    }
    assert_eq!(probes, 3);
}

#[test]
fn an_account_is_locked_out_after_too_many_failures() {
    assert!(check_join_failures(4, 5).is_ok());
    assert_eq!(check_join_failures(5, 5).unwrap_err().status(), 429);
}

#[test]
fn outstanding_codes_are_capped() {
    assert!(check_outstanding(9, 10).is_ok());
    assert_eq!(check_outstanding(10, 10).unwrap_err().status(), 429);
}

#[test]
fn only_a_member_may_invite() {
    assert!(check_member("list-1", true).is_ok());
    match check_member("list-1", false) {
        Err(AppError::Forbidden(message)) => {
            assert_eq!(message, "User is not a member of grocery list list-1")
        }
        other => panic!("expected Forbidden, got {:?}", other),
    }
}

#[test]
fn a_code_is_looked_up_however_it_is_typed() {
    assert_eq!(normalise_code("  ab12Cd34 "), "AB12CD34");
    assert_eq!(normalise_code("AB12CD34"), "AB12CD34");
    // Letters beyond ASCII have no place in a code and are left alone.
    assert_eq!(normalise_code("\u{e9}"), "\u{e9}");
}

#[test]
fn a_code_is_eight_upper_case_letters_and_digits() {
    assert_eq!(code_of(&b"aZ09zA5q".to_vec()), "AZ09ZA5Q");
    let codes: Vec<String> = (0..20).map(|_| draw_code()).collect();
    for code in &codes {
        assert_eq!(code.len(), CODE_CHARS);
        assert!(code.chars().all(|c| c.is_ascii_digit() || c.is_ascii_uppercase()), "{}", code);
    }
    assert!(codes.iter().any(|code| *code != codes[0]));
}

#[test]
fn minting_gives_up_after_so_many_draws() {
    let mut minting = Minting::begin();
    for _ in 0..INVITE_CODE_GENERATION_ATTEMPTS {
        assert!(minting.draw().is_ok());
    }
    assert_eq!(minting.draw().unwrap_err().status(), 500);
}

#[test]
fn a_code_is_good_for_its_time_and_failures_count_for_theirs() {
    let now = Instant { secs: 1_000, nanos: 5 };
    assert_eq!(invite_expiry(now, 60), Some(Instant { secs: 4_600, nanos: 5 }));
    assert_eq!(failures_since(now, 10), Some(Instant { secs: 400, nanos: 5 }));
    assert_eq!(invite_expiry(at(LAST_SECOND), 1), None);
    assert_eq!(invite_expiry(now, i64::MAX), None);
}

#[test]
fn the_calendar_ends_where_the_year_does() {
    let in_calendar = |secs: i64| chrono::DateTime::from_timestamp(secs, 0).is_some();
    assert!(in_calendar(FIRST_SECOND) && !in_calendar(FIRST_SECOND - 1));
    assert!(in_calendar(LAST_SECOND) && !in_calendar(LAST_SECOND + 1));

    let at = |secs: i64| Instant { secs, nanos: 0 };
    assert_eq!(failures_since(at(FIRST_SECOND + 60), 1), Some(at(FIRST_SECOND)));
    assert_eq!(failures_since(at(FIRST_SECOND + 59), 1), None);
    assert_eq!(failures_since(at(FIRST_SECOND), 1), None);
    assert_eq!(invite_expiry(at(LAST_SECOND - 60), 1), Some(at(LAST_SECOND)));
    assert_eq!(invite_expiry(at(LAST_SECOND - 59), 1), None);
}
