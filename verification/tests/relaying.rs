use spoiler_bot::relay::{
    after_lookup, after_send, Attempt, Endpoint, Follow, Lookup, RelayCache, Step, POLL_LIMIT,
};

fn endpoint(id: u64, token: &str) -> Endpoint {
    Endpoint { id, token: token.to_string() }
}

fn ready(found: Lookup) -> (u64, String) {
    match found {
        Lookup::Ready(endpoint) => (endpoint.id, endpoint.token),
        other => panic!("{other:?}"),
    }
}

#[test]
fn two_misses_on_one_channel_create_one_endpoint() {
    let mut cache = RelayCache::new();
    // Both callers miss; only the first is told to create the endpoint.
    assert!(matches!(cache.lookup(20), Lookup::Create));
    assert!(matches!(cache.lookup(20), Lookup::Wait));
    let first = cache.fill(20, endpoint(1, "one"));
    assert_eq!((first.id, first.token.as_str()), (1, "one"));
    // Both send through that one endpoint.
    assert_eq!(ready(cache.lookup(20)), (1, "one".to_string()));
    assert_eq!(ready(cache.lookup(20)), (1, "one".to_string()));
}

#[test]
fn of_two_created_endpoints_the_first_stays() {
    let mut cache = RelayCache::new();
    assert!(matches!(cache.lookup(20), Lookup::Create));
    let first = cache.fill(20, endpoint(1, "one"));
    let second = cache.fill(20, endpoint(2, "two"));
    assert_eq!(first.id, 1);
    assert_eq!((second.id, second.token.as_str()), (1, "one"));
    assert_eq!(ready(cache.lookup(20)), (1, "one".to_string()));
}

#[test]
fn an_endpoint_can_be_handed_in_unasked() {
    let mut cache = RelayCache::new();
    let winner = cache.fill(20, endpoint(1, "one"));
    assert_eq!(winner.id, 1);
    assert_eq!(ready(cache.lookup(20)), (1, "one".to_string()));
}

#[test]
fn channels_do_not_share_endpoints() {
    let mut cache = RelayCache::new();
    assert!(matches!(cache.lookup(20), Lookup::Create));
    assert!(matches!(cache.lookup(21), Lookup::Create));
    cache.fill(21, endpoint(2, "two"));
    assert!(matches!(cache.lookup(20), Lookup::Wait));
    assert_eq!(ready(cache.lookup(21)), (2, "two".to_string()));
}

#[test]
fn invalidating_forgets_one_channel_only() {
    let mut cache = RelayCache::new();
    cache.fill(20, endpoint(1, "one"));
    cache.fill(21, endpoint(2, "two"));
    cache.invalidate(20);
    assert_eq!(ready(cache.lookup(21)), (2, "two".to_string()));
    assert!(matches!(cache.lookup(20), Lookup::Create));
    // An unknown channel is no error.
    cache.invalidate(99);
    assert_eq!(ready(cache.lookup(21)), (2, "two".to_string()));
}

#[test]
fn giving_up_lets_the_next_caller_try() {
    let mut cache = RelayCache::new();
    assert!(matches!(cache.lookup(20), Lookup::Create));
    cache.give_up(20);
    assert!(matches!(cache.lookup(20), Lookup::Create));
}

#[test]
fn giving_up_keeps_an_endpoint_that_is_there() {
    let mut cache = RelayCache::new();
    cache.fill(20, endpoint(1, "one"));
    cache.give_up(20);
    assert_eq!(ready(cache.lookup(20)), (1, "one".to_string()));
    cache.give_up(99);
    assert!(matches!(cache.lookup(99), Lookup::Create));
}

#[test]
fn a_reported_change_replaces_or_drops_the_known_endpoint() {
    let mut cache = RelayCache::new();
    cache.fill(20, endpoint(1, "one"));
    cache.fill(21, endpoint(2, "two"));
    cache.revalidate(20, Some(endpoint(3, "three")));
    assert_eq!(ready(cache.lookup(20)), (3, "three".to_string()));
    cache.revalidate(20, None);
    assert!(matches!(cache.lookup(20), Lookup::Create));
    assert_eq!(ready(cache.lookup(21)), (2, "two".to_string()));
}

#[test]
fn a_reported_change_creates_nothing_unasked() {
    let mut cache = RelayCache::new();
    cache.revalidate(20, Some(endpoint(3, "three")));
    assert!(matches!(cache.lookup(20), Lookup::Create));
    // A channel whose endpoint is being created stays marked.
    cache.revalidate(20, None);
    assert!(matches!(cache.lookup(20), Lookup::Wait));
    cache.revalidate(20, Some(endpoint(3, "three")));
    assert!(matches!(cache.lookup(20), Lookup::Wait));
}

#[test]
fn a_stale_endpoint_is_replaced_and_tried_once_more() {
    let mut cache = RelayCache::new();
    cache.fill(20, endpoint(1, "stale"));
    assert_eq!(ready(cache.lookup(20)).0, 1);
    assert_eq!(after_send(Attempt::Cached, false), Follow::RetryFresh);
    cache.invalidate(20);
    assert!(matches!(cache.lookup(20), Lookup::Create));
    let fresh = cache.fill(20, endpoint(2, "fresh"));
    assert_eq!(fresh.id, 2);
    assert_eq!(after_send(Attempt::Fresh, true), Follow::Delivered);
}

#[test]
fn a_second_failure_is_final() {
    assert_eq!(after_send(Attempt::Fresh, false), Follow::Failed);
    assert_eq!(after_send(Attempt::Cached, true), Follow::Delivered);
}

#[test]
fn an_endpoint_is_copied_whole() {
    let first = endpoint(7, "token");
    let copy = first.copy();
    assert_eq!((copy.id, copy.token), (7, "token".to_string()));
    assert_eq!(first.token, "token");
}

#[test]
fn only_a_finished_endpoint_is_known() {
    let mut cache = RelayCache::new();
    assert!(!cache.knows(20));
    assert!(matches!(cache.lookup(20), Lookup::Create));
    assert!(!cache.knows(20));
    cache.fill(20, endpoint(1, "one"));
    assert!(cache.knows(20));
    assert!(!cache.knows(21));
    cache.invalidate(20);
    assert!(!cache.knows(20));
}

#[test]
fn a_waiter_asks_again_until_the_limit() {
    assert!(matches!(after_lookup(0, Lookup::Wait), Step::Poll));
    assert!(matches!(after_lookup(POLL_LIMIT - 1, Lookup::Wait), Step::Poll));
    assert!(matches!(after_lookup(POLL_LIMIT, Lookup::Wait), Step::TimedOut));
    assert!(matches!(after_lookup(u32::MAX, Lookup::Wait), Step::TimedOut));
}

#[test]
fn an_answer_is_acted_on_however_long_the_wait() {
    for polls in [0, POLL_LIMIT, u32::MAX] {
        assert!(matches!(after_lookup(polls, Lookup::Create), Step::Create));
        match after_lookup(polls, Lookup::Ready(endpoint(1, "one"))) {
            Step::Use(found) => assert_eq!((found.id, found.token.as_str()), (1, "one")),
            other => panic!("{other:?}"),
        }
    }
}

#[test]
fn a_waiter_who_times_out_leaves_the_creators_mark() {
    let mut cache = RelayCache::new();
    assert!(matches!(after_lookup(0, cache.lookup(20)), Step::Create));
    // A second caller waits to the limit and gives the wait up.
    let mut polls = 0;
    loop {
        match after_lookup(polls, cache.lookup(20)) {
            Step::Poll => polls += 1,
            Step::TimedOut => break,
            other => panic!("{other:?}"),
        }
    }
    assert_eq!(polls, POLL_LIMIT);
    // The channel is still marked: a third caller creates no second endpoint.
    assert!(matches!(after_lookup(0, cache.lookup(20)), Step::Poll));
    let first = cache.fill(20, endpoint(1, "one"));
    assert_eq!(first.id, 1);
    assert!(matches!(after_lookup(0, cache.lookup(20)), Step::Use(_)));
}
