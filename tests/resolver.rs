use game_reviews::query::{check_response, FetchError};
use game_reviews::resolve::{begin, finish, Completion, Resolution};
use game_reviews::store::MemoryCache;

fn rec(id: u32, name: &str) -> (u32, String) {
    (id, format!("{{\"id\":{},\"name\":\"{}\"}}", id, name))
}

fn sorted(mut v: Vec<(u32, String)>) -> Vec<(u32, String)> {
    v.sort();
    v
}

#[test]
fn empty_cache_fetches_both_and_stores_them() {
    let mut cache = MemoryCache::new();
    let ids = vec![71, 72];
    let res = begin(&cache, "games", &ids);
    assert_eq!(res.misses, vec![71, 72]);
    let req = res.request("*").expect("a request");
    assert_eq!(req.endpoint, "games");
    assert_eq!(req.uri, "https://api.igdb.com/v4/games");
    assert_eq!(req.body, "limit 500; fields *; where id=(71,72);");
    let out = finish(&mut cache, res, Ok(vec![rec(71, "a"), rec(72, "b")])).ok().unwrap();
    assert_eq!(sorted(out), vec![rec(71, "a"), rec(72, "b")]);
    assert_eq!(cache.len(), 2);
    assert_eq!(sorted(cache.get_many("games", &ids)), vec![rec(71, "a"), rec(72, "b")]);
}

#[test]
fn partly_cached_fetches_only_the_miss() {
    let mut cache = MemoryCache::new();
    let (id, v) = rec(71, "a");
    cache.set(id, "games", v);
    let res = begin(&cache, "games", &vec![71, 72]);
    assert_eq!(res.misses, vec![72]);
    let req = res.request("*").expect("a request");
    assert_eq!(req.body, "limit 500; fields *; where id=(72);");
    let out = finish(&mut cache, res, Ok(vec![rec(72, "b")])).ok().unwrap();
    assert_eq!(sorted(out), vec![rec(71, "a"), rec(72, "b")]);
}

#[test]
fn second_resolve_is_served_from_cache() {
    let mut cache = MemoryCache::new();
    let ids = vec![3, 1, 2];
    let res = begin(&cache, "genres", &ids);
    assert!(res.request("*").is_some());
    let first = finish(&mut cache, res, Ok(vec![rec(1, "x"), rec(2, "y"), rec(3, "z")])).ok().unwrap();
    let again = begin(&cache, "genres", &ids);
    assert!(again.request("*").is_none());
    let second = finish(&mut cache, again, Ok(vec![])).ok().unwrap();
    assert_eq!(sorted(first), sorted(second));
}

#[test]
fn fully_cached_makes_no_request() {
    let mut cache = MemoryCache::new();
    cache.set_many("covers", vec![rec(5, "p"), rec(6, "q")]);
    let res = begin(&cache, "covers", &vec![6, 5, 6]);
    assert!(res.misses.is_empty());
    assert!(res.request("url").is_none());
}

#[test]
fn get_many_returns_only_stored_requested_ids() {
    let mut cache = MemoryCache::new();
    cache.set_many("games", vec![rec(1, "a"), rec(2, "b"), rec(3, "c")]);
    cache.set_many("genres", vec![rec(4, "d")]);
    let found = cache.get_many("games", &vec![2, 4, 9, 2]);
    assert_eq!(found, vec![rec(2, "b")]);
    assert!(cache.get_many("games", &vec![]).is_empty());
    assert_eq!(cache.get(4, "games"), None);
    assert_eq!(cache.get(4, "genres"), Some(rec(4, "d").1));
}

#[test]
fn put_many_then_get_many_round_trip() {
    let mut cache = MemoryCache::new();
    let vals = vec![rec(10, "a"), rec(11, "b"), rec(12, "c")];
    cache.set_many("games", vals.clone());
    assert_eq!(sorted(cache.get_many("games", &vec![10, 11, 12])), vals);
}

#[test]
fn latest_entry_wins() {
    let mut cache = MemoryCache::new();
    cache.set(1, "games", "old".to_string());
    cache.set(1, "games", "new".to_string());
    assert_eq!(cache.len(), 2);
    assert_eq!(cache.get(1, "games"), Some("new".to_string()));
}

#[test]
fn short_fetch_is_accepted_as_is() {
    let mut cache = MemoryCache::new();
    let (id, v) = rec(1, "a");
    cache.set(id, "games", v);
    let res = begin(&cache, "games", &vec![1, 2, 3]);
    assert_eq!(res.misses, vec![2, 3]);
    let out = finish(&mut cache, res, Ok(vec![rec(3, "c")])).ok().unwrap();
    assert_eq!(out, vec![rec(1, "a"), rec(3, "c")]);
    assert_eq!(cache.len(), 2);
}

#[test]
fn failed_fetch_stores_nothing() {
    let mut cache = MemoryCache::new();
    let res = begin(&cache, "games", &vec![8]);
    let req = res.request("*").unwrap();
    let checked = check_response("games", req.body.as_str(), 401, "unauthorized".to_string());
    let out = finish(&mut cache, res, checked.map(|_| vec![rec(8, "h")]));
    match out {
        Err(FetchError::RemoteApi { endpoint, request, response }) => {
            assert_eq!(endpoint, "games");
            assert_eq!(request, "limit 500; fields *; where id=(8);");
            assert_eq!(response, "unauthorized");
        }
        _ => panic!("expected a remote error"),
    }
    assert_eq!(cache.len(), 0);
}

#[test]
fn success_status_hands_body_on() {
    assert_eq!(check_response("games", "q", 200, "[]".to_string()).ok(), Some("[]".to_string()));
    assert_eq!(check_response("games", "q", 299, "[]".to_string()).ok(), Some("[]".to_string()));
    assert!(check_response("games", "q", 300, "x".to_string()).is_err());
    assert!(check_response("games", "q", 199, "x".to_string()).is_err());
    assert!(check_response("games", "q", 500, "x".to_string()).is_err());
}

#[test]
fn complete_keeps_cached_then_fetched() {
    let res = Resolution::start("games", &vec![1, 2, 2, 3], vec![rec(2, "b")]);
    assert_eq!(res.misses, vec![1, 3]);
    match res.complete(Ok(vec![rec(3, "c"), rec(1, "a")])) {
        Completion::Store { entries, result } => {
            assert_eq!(entries, vec![rec(3, "c"), rec(1, "a")]);
            assert_eq!(result, vec![rec(2, "b"), rec(3, "c"), rec(1, "a")]);
        }
        Completion::Fail(_) => panic!("expected records"),
    }
}

#[test]
fn complete_passes_on_transport_error() {
    let res = Resolution::start("games", &vec![1], vec![]);
    let err = FetchError::Transport { message: "down".to_string() };
    match res.complete(Err(err)) {
        Completion::Fail(FetchError::Transport { message }) => assert_eq!(message, "down"),
        _ => panic!("expected the error"),
    }
}

#[test]
fn kinds_do_not_share_entries() {
    let mut cache = MemoryCache::new();
    cache.set_many("games", vec![rec(7, "game")]);
    cache.set_many("covers", vec![rec(7, "cover")]);
    assert_eq!(cache.get(7, "games"), Some(rec(7, "game").1));
    assert_eq!(cache.get(7, "covers"), Some(rec(7, "cover").1));
    let res = begin(&cache, "genres", &vec![7]);
    assert_eq!(res.misses, vec![7]);
}
