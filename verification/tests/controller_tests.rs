use tetr_monitor::controller::ConcurrencyController;
use tetr_monitor::error::FetchError;
use tetr_monitor::pipeline::refresh_all;
use tetr_monitor::store::{MonitorStats, Store};

fn identities(n: usize) -> Vec<String> {
    (0..n).map(|i| format!("user-{}", i)).collect()
}

#[test]
fn in_flight_never_exceeds_the_limit() {
    let mut c: ConcurrencyController<u32> = ConcurrencyController::new(4, identities(10));
    let mut tokens = Vec::new();
    while c.can_submit() {
        let (_, token) = c.submit();
        tokens.push(token);
        assert!(c.in_flight.len() <= 4);
    }
    assert_eq!(c.in_flight.len(), 4);
    assert!(!c.can_submit());
    // Finishing one operation frees one slot.
    let t = tokens.remove(0);
    assert!(c.is_in_flight(t));
    c.complete(t, 0);
    assert!(!c.is_in_flight(t));
    assert!(c.can_submit());
}

#[test]
fn limit_one_serializes_everything() {
    let mut c: ConcurrencyController<u32> = ConcurrencyController::new(1, identities(3));
    let mut seen = Vec::new();
    while !c.is_done() {
        assert!(c.can_submit());
        let (identity, token) = c.submit();
        assert!(!c.can_submit());
        assert_eq!(c.in_flight.len(), 1);
        seen.push(identity.clone());
        c.complete(token, token as u32);
    }
    assert_eq!(seen, vec!["user-0", "user-1", "user-2"]);
}

#[test]
fn limit_beyond_input_size_takes_everything_at_once() {
    let mut c: ConcurrencyController<u32> = ConcurrencyController::new(64, identities(3));
    let mut tokens = Vec::new();
    while c.can_submit() {
        let (_, token) = c.submit();
        tokens.push(token);
    }
    assert_eq!(c.in_flight.len(), 3);
    for t in tokens {
        c.complete(t, t as u32);
    }
    assert!(c.is_done());
    assert_eq!(c.into_results().len(), 3);
}

#[test]
fn every_input_yields_exactly_one_result_out_of_order() {
    let inputs = identities(9);
    let mut c: ConcurrencyController<String> = ConcurrencyController::new(3, inputs.clone());
    let mut pending: Vec<(String, usize)> = Vec::new();
    while !c.is_done() {
        while c.can_submit() {
            pending.push(c.submit());
        }
        // Finish the operations in reverse submission order.
        while let Some((identity, token)) = pending.pop() {
            c.complete(token, identity.to_uppercase());
        }
    }
    let mut results = c.into_results();
    assert_eq!(results.len(), 9);
    results.sort_by_key(|(token, _)| *token);
    for (i, (token, out)) in results.iter().enumerate() {
        assert_eq!(*token, i);
        assert_eq!(*out, inputs[i].to_uppercase());
    }
}

#[test]
fn hundred_monitors_with_limit_sixty_four_all_produce_results() {
    // A refresh batch of 100 stored identities fanned out under a cap of 64:
    // every identity produces exactly one result, and the summary accounts
    // for each.
    let user_ids: Vec<String> = (0..100).map(|i| format!("id-{}", i)).collect();
    let mut c: ConcurrencyController<Result<MonitorStats, FetchError>> =
        ConcurrencyController::new(64, user_ids.clone());
    let mut in_flight: Vec<(String, usize)> = Vec::new();
    let mut max_in_flight = 0;
    while !c.is_done() {
        while c.can_submit() {
            in_flight.push(c.submit());
            max_in_flight = max_in_flight.max(c.in_flight.len());
        }
        let (identity, token) = in_flight.remove(0);
        // Every third fetch fails; the rest come back with fresh statistics.
        let outcome = if token % 3 == 0 {
            Err(FetchError::TransportError)
        } else {
            Ok(MonitorStats {
                username: identity.clone(),
                game_time: 1000 + token as u64,
                games_played: token as i32,
                last_personal_best_blitz: None,
                last_personal_best_40l: None,
            })
        };
        c.complete(token, outcome);
    }
    assert_eq!(max_in_flight, 64);
    let results = c.into_results();
    assert_eq!(results.len(), 100);

    // Feed the fan-out results through the refresh flow over 100 stored rows.
    let mut store = Store::new();
    for (i, id) in user_ids.iter().enumerate() {
        store
            .insert(tetr_monitor::store::Monitor {
                channel_id: "c1".to_string(),
                user_id: id.clone(),
                username: format!("name-{}", i),
                last_match_id: None,
                game_time: 0,
                games_played: 0,
                last_personal_best_blitz: None,
                last_personal_best_40l: None,
            })
            .unwrap();
    }
    let batch: Vec<(String, Result<MonitorStats, FetchError>)> = results
        .into_iter()
        .map(|(token, outcome)| (user_ids[token].clone(), outcome))
        .collect();
    let summary = refresh_all(&mut store, &"c1".to_string(), batch);
    assert_eq!(summary.attempted, 100);
    assert_eq!(summary.succeeded + summary.failed.len(), 100);
    // Tokens 0, 3, ..., 99: 34 transport failures; the remaining 66 succeed.
    assert_eq!(summary.succeeded, 66);
    assert_eq!(summary.failed.len(), 34);
}
