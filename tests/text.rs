use game_reviews::filters::{repeat, split_tags, split_tags2};
use game_reviews::igdb::{normalize_cover_url, normalize_covers, Cover, SqliteCache};
use game_reviews::query::{endpoint_uri, fetch_body, request_headers, token_path};
use game_reviews::text::{push_decimal, replace_chars};

#[test]
fn cover_url_is_normalized() {
    assert_eq!(
        normalize_cover_url("//images.example/t_thumb/abc.jpg"),
        "https://images.example/t_cover_med/abc.jpg"
    );
    assert_eq!(normalize_cover_url("//x/y.png"), "https://x/y.png");
    let covers = normalize_covers(vec![Cover { id: 4, url: "//i/t_thumb/t_thumb.jpg".to_string() }]);
    assert_eq!(covers.len(), 1);
    assert_eq!(covers[0].id, 4);
    assert_eq!(covers[0].url, "https://i/t_cover_med/t_cover_med.jpg");
}

#[test]
fn replace_scans_left_to_right() {
    let s: Vec<char> = "aaaa-aaa".chars().collect();
    let p: Vec<char> = "aa".chars().collect();
    let r: Vec<char> = "b".chars().collect();
    let out: String = replace_chars(&s, &p, &r).into_iter().collect();
    assert_eq!(out, "bb-ba");
    let empty: Vec<char> = Vec::new();
    let same: String = replace_chars(&s, &empty, &r).into_iter().collect();
    assert_eq!(same, "aaaa-aaa");
}

#[test]
fn decimal_digits() {
    let mut out = vec!['x'];
    push_decimal(&mut out, 0);
    push_decimal(&mut out, 4294967295);
    let s: String = out.into_iter().collect();
    assert_eq!(s, "x04294967295");
}

#[test]
fn request_texts() {
    assert_eq!(endpoint_uri("covers"), "https://api.igdb.com/v4/covers");
    assert_eq!(fetch_body("name,url", &vec![7]), "limit 500; fields name,url; where id=(7);");
    assert_eq!(fetch_body("*", &vec![]), "limit 500; fields *; where id=();");
    assert_eq!(fetch_body("*", &vec![1, 20, 300]), "limit 500; fields *; where id=(1,20,300);");
    assert_eq!(
        token_path("abc", "s3"),
        "/oauth2/token?client_id=abc&client_secret=s3&grant_type=client_credentials"
    );
    let h = request_headers("cid", "tok");
    assert_eq!(
        h,
        vec![
            ("Client-ID".to_string(), "cid".to_string()),
            ("Authorization".to_string(), "Bearer tok".to_string()),
            ("Accept".to_string(), "application/json".to_string()),
        ]
    );
}

#[test]
fn repeat_draws_hearts() {
    assert_eq!(repeat("♥", 3), "♥♥♥");
    assert_eq!(repeat("ab", 2), "abab");
    assert_eq!(repeat("x", 0), "");
}

#[test]
fn split_tags_pieces() {
    assert_eq!(split_tags2("rpg/indie/co-op"), vec!["rpg", "indie", "co-op"]);
    assert_eq!(split_tags2(""), vec![""]);
    assert_eq!(split_tags2("a/"), vec!["a", ""]);
    assert_eq!(split_tags2("/"), vec!["", ""]);
}

#[test]
fn split_tags_html() {
    assert_eq!(split_tags(""), "");
    assert_eq!(split_tags("rpg"), "<ul class=\"tags\"><li>rpg</li></ul>");
    assert_eq!(
        split_tags("rpg/indie"),
        "<ul class=\"tags\"><li>rpg</li><li>indie</li></ul>"
    );
}

#[test]
fn sqlite_cache_keeps_path() {
    let c = SqliteCache::new("game_reviews.sqlite3".to_string());
    assert_eq!(c.database_path(), "game_reviews.sqlite3");
}
