use clewdr::config::{CookieStatus, Reason, UselessCookie};
use clewdr::error::ClewdrError;
use clewdr::services::cookie_manager::{CookieEvent, CookieManager, CookieReply};

fn pool_of(tokens: &[&str]) -> CookieManager {
    let cookies = tokens.iter().map(|t| CookieStatus::new(t, None)).collect();
    CookieManager::start(cookies, Vec::new())
}

fn tokens(cookies: &[CookieStatus]) -> Vec<String> {
    cookies.iter().map(|c| c.cookie.clone()).collect()
}

fn request(pool: &mut CookieManager, now: i64) -> Result<CookieStatus, ClewdrError> {
    pool.dispatch(now).0
}

#[test]
fn round_robin_goes_through_the_rotation_and_starts_over() {
    let mut pool = pool_of(&["A", "B", "C"]);
    assert_eq!(request(&mut pool, 0).unwrap().cookie, "A");
    assert_eq!(request(&mut pool, 0).unwrap().cookie, "B");
    assert_eq!(request(&mut pool, 0).unwrap().cookie, "C");
    assert_eq!(request(&mut pool, 0).unwrap().cookie, "A");
    assert_eq!(tokens(&pool.report().valid), vec!["B", "C", "A"]);
}

#[test]
fn request_on_an_empty_rotation_fails() {
    let mut pool = pool_of(&[]);
    let (res, swept) = pool.dispatch(0);
    assert!(matches!(res, Err(ClewdrError::NoCookieAvailable)));
    assert!(!swept);
}

#[test]
fn request_hands_out_a_single_credential_again_and_again() {
    let mut pool = pool_of(&["A"]);
    for _ in 0..5 {
        assert_eq!(request(&mut pool, 0).unwrap().cookie, "A");
    }
    assert_eq!(tokens(&pool.report().valid), vec!["A"]);
}

#[test]
fn exhausted_credential_rests_and_comes_back_at_its_reset_time() {
    let now = 1_000;
    let mut pool = pool_of(&["A", "B"]);
    let a = request(&mut pool, now).unwrap();
    assert!(pool.collect(a, Some(Reason::TooManyRequest(now + 60))));
    let info = pool.report();
    assert_eq!(tokens(&info.valid), vec!["B"]);
    assert_eq!(tokens(&info.exhausted), vec!["A"]);
    assert_eq!(info.exhausted[0].reset_time, Some(now + 60));
    // Before the reset time every request gets the other credential.
    assert_eq!(request(&mut pool, now + 59).unwrap().cookie, "B");
    assert_eq!(request(&mut pool, now + 59).unwrap().cookie, "B");
    assert!(!pool.reset(now + 59));
    // At the reset time the sweep moves it to the back of the rotation.
    assert!(pool.reset(now + 60));
    let info = pool.report();
    assert_eq!(tokens(&info.valid), vec!["B", "A"]);
    assert_eq!(info.valid[1].reset_time, None);
    assert!(info.exhausted.is_empty());
    assert_eq!(request(&mut pool, now + 60).unwrap().cookie, "B");
    assert_eq!(request(&mut pool, now + 60).unwrap().cookie, "A");
}

#[test]
fn request_sweeps_before_it_hands_out() {
    let mut pool = pool_of(&["A"]);
    assert!(pool.collect(CookieStatus::new("A", None), Some(Reason::Restricted(10))));
    assert!(matches!(pool.dispatch(9), (Err(ClewdrError::NoCookieAvailable), false)));
    let (res, swept) = pool.dispatch(10);
    assert_eq!(res.unwrap().cookie, "A");
    assert!(swept);
    let (res, swept) = pool.dispatch(11);
    assert_eq!(res.unwrap().cookie, "A");
    assert!(!swept);
}

#[test]
fn sweep_moves_all_that_are_due_in_the_order_they_came_to_rest() {
    let mut pool = pool_of(&["A", "B", "C", "D"]);
    assert!(pool.collect(CookieStatus::new("C", None), Some(Reason::TooManyRequest(30))));
    assert!(pool.collect(CookieStatus::new("A", None), Some(Reason::Restricted(50))));
    assert!(pool.collect(CookieStatus::new("B", None), Some(Reason::TooManyRequest(20))));
    assert!(pool.reset(30));
    let info = pool.report();
    assert_eq!(tokens(&info.valid), vec!["D", "C", "B"]);
    assert_eq!(tokens(&info.exhausted), vec!["A"]);
    assert!(info.valid.iter().all(|c| c.reset_time.is_none()));
}

#[test]
fn second_exhaustion_in_a_row_stores_nothing() {
    let mut pool = pool_of(&["A", "B"]);
    assert!(pool.collect(CookieStatus::new("A", None), Some(Reason::TooManyRequest(100))));
    assert!(!pool.collect(CookieStatus::new("A", None), Some(Reason::TooManyRequest(100))));
    assert!(!pool.collect(CookieStatus::new("A", None), Some(Reason::Restricted(500))));
    let info = pool.report();
    assert_eq!(tokens(&info.exhausted), vec!["A"]);
    assert_eq!(info.exhausted[0].reset_time, Some(100));
    assert_eq!(tokens(&info.valid), vec!["B"]);
}

#[test]
fn return_without_a_reason_or_with_normal_pro_changes_nothing() {
    let mut pool = pool_of(&["A", "B"]);
    assert!(!pool.collect(CookieStatus::new("A", None), None));
    assert!(!pool.collect(CookieStatus::new("A", None), Some(Reason::NormalPro)));
    let info = pool.report();
    assert_eq!(tokens(&info.valid), vec!["A", "B"]);
    assert!(info.exhausted.is_empty());
    assert!(info.invalid.is_empty());
}

#[test]
fn invalidation_is_permanent_and_resubmission_is_turned_away() {
    let mut pool = pool_of(&["A", "B"]);
    assert!(pool.collect(CookieStatus::new("A", None), Some(Reason::NonPro)));
    let info = pool.report();
    assert_eq!(tokens(&info.valid), vec!["B"]);
    assert_eq!(info.invalid.len(), 1);
    assert_eq!(info.invalid[0].cookie, "A");
    assert_eq!(info.invalid[0].reason, Reason::NonPro);
    // A second invalidation stores nothing and keeps the first reason.
    assert!(!pool.collect(CookieStatus::new("A", None), Some(Reason::Banned)));
    assert_eq!(pool.report().invalid[0].reason, Reason::NonPro);
    for now in [0, 1_000, i64::MAX] {
        pool.reset(now);
        assert_eq!(request(&mut pool, now).unwrap().cookie, "B");
    }
    assert!(!pool.accept(CookieStatus::new("A", None)));
    assert_eq!(tokens(&pool.report().valid), vec!["B"]);
}

#[test]
fn every_reason_without_a_reset_time_invalidates() {
    for reason in [Reason::NonPro, Reason::Disabled, Reason::Banned, Reason::Null] {
        let mut pool = pool_of(&["A"]);
        assert!(pool.collect(CookieStatus::new("A", None), Some(reason)));
        let info = pool.report();
        assert!(info.valid.is_empty());
        assert_eq!(info.invalid[0].reason, reason);
        assert!(matches!(request(&mut pool, i64::MAX), Err(ClewdrError::NoCookieAvailable)));
    }
}

#[test]
fn submission_joins_the_back_unless_the_token_is_known() {
    let mut pool = CookieManager::start(
        vec![CookieStatus::new("A", None), CookieStatus::new("E", Some(50))],
        vec![UselessCookie::new("I".to_string(), Reason::Banned)],
    );
    assert!(pool.accept(CookieStatus::new("B", None)));
    assert!(!pool.accept(CookieStatus::new("A", None)));
    assert!(!pool.accept(CookieStatus::new("B", None)));
    assert!(!pool.accept(CookieStatus::new("E", None)));
    assert!(!pool.accept(CookieStatus::new("I", None)));
    let info = pool.report();
    assert_eq!(tokens(&info.valid), vec!["A", "B"]);
    assert_eq!(tokens(&info.exhausted), vec!["E"]);
    assert_eq!(info.invalid.len(), 1);
}

#[test]
fn delete_removes_from_whichever_collection_holds_the_token() {
    let mut pool = CookieManager::start(
        vec![
            CookieStatus::new("A", None),
            CookieStatus::new("B", None),
            CookieStatus::new("E", Some(50)),
        ],
        vec![UselessCookie::new("I".to_string(), Reason::Banned)],
    );
    assert!(pool.delete(CookieStatus::new("A", None)).is_ok());
    assert_eq!(tokens(&pool.report().valid), vec!["B"]);
    assert!(pool.delete(CookieStatus::new("E", None)).is_ok());
    assert!(pool.report().exhausted.is_empty());
    assert!(pool.delete(CookieStatus::new("I", Some(3))).is_ok());
    assert!(pool.report().invalid.is_empty());
    assert!(matches!(
        pool.delete(CookieStatus::new("A", None)),
        Err(ClewdrError::UnexpectedNone)
    ));
    assert!(matches!(
        pool.delete(CookieStatus::new("Z", None)),
        Err(ClewdrError::UnexpectedNone)
    ));
    assert_eq!(tokens(&pool.report().valid), vec!["B"]);
    // A deleted credential may be submitted anew.
    assert!(pool.accept(CookieStatus::new("I", None)));
    assert_eq!(tokens(&pool.report().valid), vec!["B", "I"]);
}

#[test]
fn start_sorts_the_store_by_reset_time_and_passes_over_repeats() {
    let pool = CookieManager::start(
        vec![
            CookieStatus::new("A", None),
            CookieStatus::new("E", Some(10)),
            CookieStatus::new("B", None),
            CookieStatus::new("A", Some(99)),
            CookieStatus::new("E", None),
            CookieStatus::new("F", Some(20)),
        ],
        vec![
            UselessCookie::new("I".to_string(), Reason::NonPro),
            UselessCookie::new("J".to_string(), Reason::Disabled),
            UselessCookie::new("I".to_string(), Reason::Banned),
        ],
    );
    let info = pool.report();
    assert_eq!(tokens(&info.valid), vec!["A", "B"]);
    assert_eq!(tokens(&info.exhausted), vec!["E", "F"]);
    assert_eq!(info.exhausted[0].reset_time, Some(10));
    assert_eq!(info.exhausted[1].reset_time, Some(20));
    assert_eq!(info.invalid.len(), 2);
    assert_eq!(info.invalid[0].cookie, "I");
    assert_eq!(info.invalid[0].reason, Reason::NonPro);
    assert_eq!(info.invalid[1].cookie, "J");
}

#[test]
fn save_gives_the_rotation_then_the_resting_and_the_given_up() {
    let mut pool = pool_of(&["A", "B", "C"]);
    pool.collect(CookieStatus::new("B", None), Some(Reason::TooManyRequest(70)));
    pool.collect(CookieStatus::new("C", None), Some(Reason::Banned));
    let (cookies, wasted) = pool.save();
    assert_eq!(tokens(&cookies), vec!["A", "B"]);
    assert_eq!(cookies[0].reset_time, None);
    assert_eq!(cookies[1].reset_time, Some(70));
    assert_eq!(wasted.len(), 1);
    assert_eq!(wasted[0].cookie, "C");
    assert_eq!(wasted[0].reason, Reason::Banned);
    // What was saved loads as the same pool.
    let again = CookieManager::start(cookies, wasted).report();
    assert_eq!(tokens(&again.valid), vec!["A"]);
    assert_eq!(tokens(&again.exhausted), vec!["B"]);
    assert_eq!(again.invalid[0].cookie, "C");
}

#[test]
fn run_answers_each_event_and_says_when_to_store() {
    let mut pool = pool_of(&["A", "B"]);
    let out = pool.run(CookieEvent::Request, 0);
    assert!(!out.changed);
    let a = match out.reply {
        CookieReply::Cookie(Ok(c)) => c,
        other => panic!("unexpected reply {:?}", other),
    };
    assert_eq!(a.cookie, "A");

    let out = pool.run(CookieEvent::Return(a, Some(Reason::TooManyRequest(40))), 0);
    assert!(out.changed);
    assert!(matches!(out.reply, CookieReply::Done));

    let out = pool.run(CookieEvent::Return(CookieStatus::new("B", None), None), 0);
    assert!(!out.changed);

    let out = pool.run(CookieEvent::Submit(CookieStatus::new("C", None)), 0);
    assert!(out.changed);
    let out = pool.run(CookieEvent::Submit(CookieStatus::new("C", None)), 0);
    assert!(!out.changed);

    let out = pool.run(CookieEvent::CheckReset, 39);
    assert!(!out.changed);
    let out = pool.run(CookieEvent::CheckReset, 40);
    assert!(out.changed);

    let out = pool.run(CookieEvent::GetStatus, 40);
    assert!(!out.changed);
    match out.reply {
        CookieReply::Status(info) => {
            assert_eq!(tokens(&info.valid), vec!["B", "C", "A"]);
            assert!(info.exhausted.is_empty());
            assert!(info.invalid.is_empty());
        }
        other => panic!("unexpected reply {:?}", other),
    }

    let out = pool.run(CookieEvent::Delete(CookieStatus::new("C", None)), 40);
    assert!(out.changed);
    assert!(matches!(out.reply, CookieReply::Deleted(Ok(()))));
    let out = pool.run(CookieEvent::Delete(CookieStatus::new("C", None)), 40);
    assert!(!out.changed);
    assert!(matches!(out.reply, CookieReply::Deleted(Err(ClewdrError::UnexpectedNone))));

    let out = pool.run(CookieEvent::Delete(CookieStatus::new("A", None)), 40);
    assert!(out.changed);
    let out = pool.run(CookieEvent::Delete(CookieStatus::new("B", None)), 40);
    assert!(out.changed);
    let out = pool.run(CookieEvent::Request, 40);
    assert!(matches!(out.reply, CookieReply::Cookie(Err(ClewdrError::NoCookieAvailable))));
}

#[test]
fn credentials_are_the_same_when_their_tokens_are() {
    assert_eq!(CookieStatus::new("A", None), CookieStatus::new("A", Some(5)));
    assert_ne!(CookieStatus::new("A", None), CookieStatus::new("B", None));
    assert!(
        UselessCookie::new("A".to_string(), Reason::Null)
            == UselessCookie::new("A".to_string(), Reason::Banned)
    );
}

#[test]
fn credential_reset_clears_a_reset_time_that_has_been_reached() {
    assert_eq!(CookieStatus::new("A", Some(10)).reset(9).reset_time, Some(10));
    assert_eq!(CookieStatus::new("A", Some(10)).reset(10).reset_time, None);
    assert_eq!(CookieStatus::new("A", Some(10)).reset(11).reset_time, None);
    assert_eq!(CookieStatus::new("A", None).reset(0).reset_time, None);
    assert_eq!(CookieStatus::new("A", Some(i64::MAX)).reset(i64::MAX - 1).reset_time, Some(i64::MAX));
    assert_eq!(CookieStatus::new("A", Some(10)).reset(10).cookie, "A");
}

#[test]
fn reason_reset_time_is_there_for_the_two_timed_reasons() {
    assert_eq!(Reason::TooManyRequest(7).reset_time(), Some(7));
    assert_eq!(Reason::Restricted(-3).reset_time(), Some(-3));
    for reason in [Reason::NormalPro, Reason::NonPro, Reason::Disabled, Reason::Banned, Reason::Null] {
        assert_eq!(reason.reset_time(), None);
    }
}

#[test]
fn late_exhaustion_of_a_given_up_credential_changes_nothing() {
    // What is given up stays so: a late return with a reset time neither
    // puts the credential to rest nor asks for storing, and no sweep or
    // request brings it back.
    let mut pool = pool_of(&["A", "B"]);
    assert!(pool.collect(CookieStatus::new("A", None), Some(Reason::NonPro)));
    assert!(!pool.collect(CookieStatus::new("A", None), Some(Reason::TooManyRequest(5))));
    assert!(!pool.collect(CookieStatus::new("A", None), Some(Reason::Restricted(5))));
    let info = pool.report();
    assert_eq!(tokens(&info.valid), vec!["B"]);
    assert!(info.exhausted.is_empty());
    assert_eq!(info.invalid.len(), 1);
    assert_eq!(info.invalid[0].cookie, "A");
    assert_eq!(info.invalid[0].reason, Reason::NonPro);
    assert!(!pool.reset(5));
    for now in [5, 6, i64::MAX] {
        assert_eq!(request(&mut pool, now).unwrap().cookie, "B");
    }
    assert_eq!(tokens(&pool.report().valid), vec!["B"]);
}

#[test]
fn resting_credential_that_is_given_up_leaves_rest() {
    let mut pool = pool_of(&["A", "B"]);
    assert!(pool.collect(CookieStatus::new("A", None), Some(Reason::TooManyRequest(5000))));
    assert_eq!(tokens(&pool.report().exhausted), vec!["A"]);
    assert!(pool.collect(CookieStatus::new("A", None), Some(Reason::NonPro)));
    let info = pool.report();
    assert_eq!(tokens(&info.valid), vec!["B"]);
    assert!(info.exhausted.is_empty());
    assert_eq!(info.invalid.len(), 1);
    assert_eq!(info.invalid[0].cookie, "A");
    assert_eq!(info.invalid[0].reason, Reason::NonPro);
    assert!(!pool.reset(5000));
    assert_eq!(request(&mut pool, 5000).unwrap().cookie, "B");
    assert_eq!(request(&mut pool, 5000).unwrap().cookie, "B");
}

#[test]
fn submission_joins_the_rotation_without_a_reset_time() {
    let mut pool = pool_of(&["A"]);
    assert!(pool.accept(CookieStatus::new("B", Some(9_999))));
    let info = pool.report();
    assert_eq!(tokens(&info.valid), vec!["A", "B"]);
    assert_eq!(info.valid[1].reset_time, None);
    assert!(info.exhausted.is_empty());
    assert_eq!(request(&mut pool, 0).unwrap().cookie, "A");
    let b = request(&mut pool, 0).unwrap();
    assert_eq!(b.cookie, "B");
    assert_eq!(b.reset_time, None);
}
