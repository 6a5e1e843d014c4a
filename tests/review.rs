use game_reviews::igdb::{Cover, Game, Genre};
use game_reviews::review::{
    collect_genre_ids, format_release, game_cover_ids, make_review, make_reviews, review_game_ids,
    GameReview,
};

fn game(id: u32, cover_id: u32, genres: Vec<u32>, date: Option<i64>) -> Game {
    Game {
        id,
        name: format!("game {}", id),
        slug: format!("game-{}", id),
        first_release_date: date,
        genres,
        summary: None,
        url: format!("https://example/games/{}", id),
        cover_id,
    }
}

fn review(igdb_id: u32) -> GameReview {
    GameReview {
        id: 1,
        igdb_id,
        title: "t".to_string(),
        year_played: Some("2021".to_string()),
        rating: Some(4),
        description: "fine".to_string(),
        pros: Some("music".to_string()),
        cons: None,
        heart_count: Some(2),
        category_id: 3,
    }
}

fn genres() -> Vec<Genre> {
    vec![
        Genre { id: 5, name: "Shooter".to_string() },
        Genre { id: 12, name: "RPG".to_string() },
        Genre { id: 31, name: "Adventure".to_string() },
    ]
}

#[test]
fn release_dates_as_month_and_year() {
    assert_eq!(format_release(Some(1518393600)), Some("02/2018".to_string()));
    assert_eq!(format_release(Some(0)), Some("01/1970".to_string()));
    assert_eq!(format_release(Some(253402300799)), Some("12/9999".to_string()));
    assert_eq!(format_release(Some(-377705116800)), Some("01/-9999".to_string()));
    assert_eq!(format_release(Some(253402300800)), None);
    assert_eq!(format_release(None), None);
}

#[test]
fn review_from_metadata() {
    let games = vec![game(71, 900, vec![31, 12], Some(1518393600))];
    let covers = vec![Cover { id: 900, url: "https://img/900.jpg".to_string() }];
    let r = make_review(&genres(), &covers, &games, &review(71)).expect("a review");
    assert_eq!(r.title, "game 71");
    assert_eq!(r.link, "https://example/games/71");
    assert_eq!(r.cover_url, "https://img/900.jpg");
    assert_eq!(r.date_released, Some("02/2018".to_string()));
    assert_eq!(r.genres, vec!["RPG".to_string(), "Adventure".to_string()]);
    assert_eq!(r.rating, Some(4));
    assert_eq!(r.heart_count, Some(2));
    assert_eq!(r.description, "fine");
    assert_eq!(r.pros, Some("music".to_string()));
    assert_eq!(r.cons, None);
}

#[test]
fn review_needs_game_and_cover() {
    let games = vec![game(71, 900, vec![], None)];
    let covers = vec![Cover { id: 900, url: "u".to_string() }];
    assert!(make_review(&genres(), &covers, &games, &review(72)).is_none());
    assert!(make_review(&genres(), &vec![], &games, &review(71)).is_none());
    assert!(make_reviews(&genres(), &covers, &games, &vec![review(71), review(72)]).is_none());
    let all = make_reviews(&genres(), &covers, &games, &vec![review(71), review(71)]).unwrap();
    assert_eq!(all.len(), 2);
}

#[test]
fn ids_for_the_batches() {
    let games = vec![game(1, 10, vec![12, 5], None), game(2, 20, vec![5, 31, 12], None)];
    assert_eq!(collect_genre_ids(&games), vec![5, 12, 31]);
    assert_eq!(game_cover_ids(&games), vec![10, 20]);
    assert_eq!(review_game_ids(&vec![review(7), review(3)]), vec![7, 3]);
    assert!(collect_genre_ids(&vec![]).is_empty());
}
