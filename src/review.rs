//! A review entry made from a stored review and the metadata fetched for it.

use vstd::prelude::*;
use crate::igdb::{Cover, Game, Genre};
use crate::text::{digit, digit_char, string_of};
use crate::filters::texts;

verus! {

/// A review as it is stored locally.
pub struct GameReview {
    pub id: i64,
    pub igdb_id: u32,
    pub title: String,
    pub year_played: Option<String>,
    pub rating: Option<i64>,
    pub description: String,
    pub pros: Option<String>,
    pub cons: Option<String>,
    pub heart_count: Option<i64>,
    pub category_id: i64,
}

/// A review ready to be rendered.
pub struct Review {
    pub title: String,
    pub link: String,
    pub cover_url: String,
    pub date_released: Option<String>,
    pub rating: Option<i64>,
    pub description: String,
    pub pros: Option<String>,
    pub cons: Option<String>,
    pub heart_count: Option<i64>,
    pub genres: Vec<String>,
}

/// The UTC month (1 to 12) and year of a Unix timestamp.
pub uninterp spec fn utc_month_year_of(ts: int) -> (int, int);

/// The earliest and latest timestamps that have a date: -9999-01-01 and 9999-12-31T23:59:59.
pub open spec fn has_date(ts: int) -> bool {
    -377705116800 <= ts <= 253402300799
}

/// Relies on time::OffsetDateTime::from_unix_timestamp, which accepts exactly the timestamps
/// from -9999-01-01 to the end of 9999, and on the month and year that the result carries.
#[verifier::external_body]
fn utc_month_year(ts: i64) -> (r: Option<(u8, i32)>)
    ensures
        r is Some <==> has_date(ts as int),
        r matches Some(p) ==> 1 <= p.0 <= 12 && -9999 <= p.1 <= 9999 && (p.0 as int, p.1 as int)
            == utc_month_year_of(ts as int),
{
    time::OffsetDateTime::from_unix_timestamp(ts).ok().map(|d| (u8::from(d.month()), d.year()))
}

/// A month and year written `MM/YYYY`, with a sign before a negative year.
pub open spec fn month_year_text(month: int, year: int) -> Seq<char> {
    let a: nat = if year < 0 { (-year) as nat } else { year as nat };
    seq![digit_char((month / 10) as nat), digit_char((month % 10) as nat), '/'] + (if year < 0 {
        seq!['-']
    } else {
        Seq::empty()
    }) + seq![
        digit_char(a / 1000),
        digit_char((a / 100) % 10),
        digit_char((a / 10) % 10),
        digit_char(a % 10),
    ]
}

/// The release date as it is shown, for a timestamp that has one.
pub open spec fn release_text(date: Option<i64>) -> Option<Seq<char>> {
    match date {
        Some(ts) => if has_date(ts as int) {
            Some(month_year_text(utc_month_year_of(ts as int).0, utc_month_year_of(ts as int).1))
        } else {
            None
        },
        None => None,
    }
}

/// The names of the genres whose ids are among `wanted`, in the order of `genres`.
pub open spec fn genre_names(genres: Seq<Genre>, wanted: Seq<u32>) -> Seq<Seq<char>>
    decreases genres.len(),
{
    if genres.len() == 0 {
        Seq::empty()
    } else {
        let rest = genre_names(genres.drop_last(), wanted);
        if wanted.contains(genres.last().id) {
            rest.push(genres.last().name@)
        } else {
            rest
        }
    }
}

/// An optional text, seen as characters.
pub open spec fn opt_text(o: Option<String>) -> Option<Seq<char>> {
    match o {
        Some(s) => Some(s@),
        None => None,
    }
}

/// The ids of the games.
pub open spec fn game_ids(games: Seq<Game>) -> Seq<u32> {
    games.map_values(|g: Game| g.id)
}

/// The ids of the covers.
pub open spec fn cover_ids(covers: Seq<Cover>) -> Seq<u32> {
    covers.map_values(|c: Cover| c.id)
}

/// `i` is the first position of `id` in `ids`.
pub open spec fn is_first(ids: Seq<u32>, id: u32, i: int) -> bool {
    0 <= i < ids.len() && ids[i] == id && forall|j: int| 0 <= j < i ==> ids[j] != id
}

/// The date of a timestamp, written month and year.
pub fn format_release(date: Option<i64>) -> (r: Option<String>)
    ensures
        opt_text(r) == release_text(date),
{
    match date {
        None => None,
        Some(ts) => match utc_month_year(ts) {
            None => None,
            Some(p) => {
                let m = p.0 as u32;
                let a: u32 = if p.1 < 0 { (-p.1) as u32 } else { p.1 as u32 };
                let mut out: Vec<char> = Vec::new();
                out.push(digit(m / 10));
                out.push(digit(m % 10));
                out.push('/');
                if p.1 < 0 {
                    out.push('-');
                }
                out.push(digit(a / 1000));
                out.push(digit((a / 100) % 10));
                out.push(digit((a / 10) % 10));
                out.push(digit(a % 10));
                assert(out@ =~= month_year_text(p.0 as int, p.1 as int));
                Some(string_of(&out))
            },
        },
    }
}

fn copy_opt(o: &Option<String>) -> (r: Option<String>)
    ensures
        opt_text(r) == opt_text(*o),
{
    match o {
        Some(s) => Some(s.clone()),
        None => None,
    }
}

fn contains_id(v: &Vec<u32>, id: u32) -> (r: bool)
    ensures
        r == v@.contains(id),
{
    let mut i: usize = 0;
    while i < v.len()
        invariant
            i <= v@.len(),
            forall|k: int| 0 <= k < i ==> v@[k] != id,
        decreases v@.len() - i,
    {
        if v[i] == id {
            return true;
        }
        i = i + 1;
    }
    false
}

/// The names of the genres whose ids `game` lists, in the order of `genres`.
pub fn names_of_genres(genres: &Vec<Genre>, wanted: &Vec<u32>) -> (r: Vec<String>)
    ensures
        texts(r@) == genre_names(genres@, wanted@),
{
    let mut r: Vec<String> = Vec::new();
    let mut i: usize = 0;
    while i < genres.len()
        invariant
            i <= genres@.len(),
            texts(r@) == genre_names(genres@.subrange(0, i as int), wanted@),
        decreases genres@.len() - i,
    {
        let g = &genres[i];
        let ghost r0 = r@;
        assert(genres@.subrange(0, i + 1).drop_last() =~= genres@.subrange(0, i as int));
        if contains_id(wanted, g.id) {
            r.push(g.name.clone());
            assert(texts(r@) =~= texts(r0).push(g.name@));
        }
        i = i + 1;
    }
    assert(genres@.subrange(0, genres@.len() as int) =~= genres@);
    r
}

/// The review's game is among `games`, and that game's cover among `covers`.
pub open spec fn can_review(covers: Seq<Cover>, games: Seq<Game>, gr: GameReview) -> bool {
    exists|i: int|
        is_first(game_ids(games), gr.igdb_id, i) && cover_ids(covers).contains(#[trigger] games[i].cover_id)
}

/// `v` is the entry for review `gr`: it shows the first game with the review's id, that game's
/// first cover, its release date and genre names, and the review's own fields.
pub open spec fn is_review_of(
    v: Review,
    genres: Seq<Genre>,
    covers: Seq<Cover>,
    games: Seq<Game>,
    gr: GameReview,
) -> bool {
    &&& exists|i: int, k: int|
        is_first(game_ids(games), gr.igdb_id, i) && is_first(cover_ids(covers), games[i].cover_id, k)
            && v.title@ == games[i].name@ && v.link@ == games[i].url@ && v.cover_url@ == covers[k].url@
            && opt_text(v.date_released) == release_text(games[i].first_release_date) && texts(
            v.genres@,
        ) == genre_names(genres, games[i].genres@)
    &&& v.rating == gr.rating
    &&& v.heart_count == gr.heart_count
    &&& v.description@ == gr.description@
    &&& opt_text(v.pros) == opt_text(gr.pros)
    &&& opt_text(v.cons) == opt_text(gr.cons)
}

/// The review entry for `gr`: its game is the first of `games` with the review's id, its cover
/// the first of `covers` with the game's cover id. None when either cannot be found.
pub fn make_review(genres: &Vec<Genre>, covers: &Vec<Cover>, games: &Vec<Game>, gr: &GameReview) -> (r:
    Option<Review>)
    ensures
        r is Some <==> can_review(covers@, games@, *gr),
        r matches Some(v) ==> is_review_of(v, genres@, covers@, games@, *gr),
{
    let mut i: usize = 0;
    while i < games.len() && games[i].id != gr.igdb_id
        invariant
            i <= games@.len(),
            forall|j: int| 0 <= j < i ==> game_ids(games@)[j] != gr.igdb_id,
        decreases games@.len() - i,
    {
        i = i + 1;
    }
    if i == games.len() {
        assert(!game_ids(games@).contains(gr.igdb_id));
        return None;
    }
    let game = &games[i];
    assert(is_first(game_ids(games@), gr.igdb_id, i as int));
    let mut k: usize = 0;
    while k < covers.len() && covers[k].id != game.cover_id
        invariant
            k <= covers@.len(),
            forall|j: int| 0 <= j < k ==> cover_ids(covers@)[j] != game.cover_id,
        decreases covers@.len() - k,
    {
        k = k + 1;
    }
    if k == covers.len() {
        assert(!cover_ids(covers@).contains(game.cover_id));
        return None;
    }
    let cover = &covers[k];
    assert(is_first(cover_ids(covers@), game.cover_id, k as int));
    assert(cover_ids(covers@).contains(game.cover_id));
    assert(game_ids(games@).contains(gr.igdb_id));
    assert forall|i2: int| is_first(game_ids(games@), gr.igdb_id, i2) implies i2 == i by {
        if i2 < i {
        } else if i2 > i {
            assert(game_ids(games@)[i as int] == gr.igdb_id);
        }
    }
    Some(Review {
        title: game.name.clone(),
        link: game.url.clone(),
        cover_url: cover.url.clone(),
        date_released: format_release(game.first_release_date),
        rating: gr.rating,
        description: gr.description.clone(),
        pros: copy_opt(&gr.pros),
        cons: copy_opt(&gr.cons),
        heart_count: gr.heart_count,
        genres: names_of_genres(genres, &game.genres),
    })
}

/// `v` is in strictly increasing order.
pub open spec fn strictly_sorted(v: Seq<u32>) -> bool {
    forall|i: int, j: int| 0 <= i < j < v.len() ==> v[i] < v[j]
}

/// Some game lists genre `id`.
pub open spec fn some_game_has_genre(games: Seq<Game>, id: u32) -> bool {
    exists|i: int| 0 <= i < games.len() && (#[trigger] games[i]).genres@.contains(id)
}

/// Inserts `x` into the strictly increasing `v`, unless it is there already.
fn insert_sorted(v: &mut Vec<u32>, x: u32)
    requires
        strictly_sorted(old(v)@),
    ensures
        strictly_sorted(final(v)@),
        forall|y: u32| final(v)@.contains(y) <==> (old(v)@.contains(y) || y == x),
{
    let mut i: usize = 0;
    while i < v.len() && v[i] < x
        invariant
            i <= v@.len(),
            forall|j: int| 0 <= j < i ==> v@[j] < x,
        decreases v@.len() - i,
    {
        i = i + 1;
    }
    if i < v.len() && v[i] == x {
        assert(v@[i as int] == x);
        return;
    }
    let ghost v0 = v@;
    v.insert(i, x);
    proof {
        v0.insert_ensures(i as int, x);
    }
    assert forall|y: u32| v@.contains(y) <==> (v0.contains(y) || y == x) by {
        if v@.contains(y) {
            let k = choose|k: int| 0 <= k < v@.len() && v@[k] == y;
            if k < i {
                assert(v0[k] == y);
            } else if k > i {
                assert(v0[k - 1] == y);
            }
        }
        if v0.contains(y) {
            let k = choose|k: int| 0 <= k < v0.len() && v0[k] == y;
            if k < i {
                assert(v@[k] == y);
            } else {
                assert(v@[k + 1] == y);
            }
        }
        if y == x {
            assert(v@[i as int] == y);
        }
    }
}

/// The distinct genre ids that the games list, in increasing order.
pub fn collect_genre_ids(games: &Vec<Game>) -> (r: Vec<u32>)
    ensures
        strictly_sorted(r@),
        forall|id: u32| r@.contains(id) <==> some_game_has_genre(games@, id),
{
    let mut r: Vec<u32> = Vec::new();
    let mut i: usize = 0;
    while i < games.len()
        invariant
            i <= games@.len(),
            strictly_sorted(r@),
            forall|id: u32| r@.contains(id) <==> some_game_has_genre(games@.subrange(0, i as int), id),
        decreases games@.len() - i,
    {
        let g = &games[i];
        let mut k: usize = 0;
        let ghost before = r@;
        while k < g.genres.len()
            invariant
                k <= g.genres@.len(),
                i < games@.len(),
                g == games@[i as int],
                strictly_sorted(r@),
                forall|id: u32|
                    #![trigger r@.contains(id)]
                    #![trigger before.contains(id)]
                    r@.contains(id) <==> (before.contains(id) || g.genres@.subrange(0, k as int).contains(id)),
            decreases g.genres@.len() - k,
        {
            let ghost r0 = r@;
            let x = g.genres[k];
            insert_sorted(&mut r, x);
            assert forall|id: u32| g.genres@.subrange(0, k + 1).contains(id) <==> (g.genres@.subrange(0, k as int).contains(id) || id == g.genres@[k as int]) by {
                if g.genres@.subrange(0, k + 1).contains(id) {
                    let m = choose|m: int| 0 <= m < k + 1 && #[trigger] g.genres@.subrange(0, k + 1)[m] == id;
                    if m < k {
                        assert(g.genres@.subrange(0, k as int)[m] == id);
                    }
                }
                if g.genres@.subrange(0, k as int).contains(id) {
                    let m = choose|m: int| 0 <= m < k && #[trigger] g.genres@.subrange(0, k as int)[m] == id;
                    assert(g.genres@.subrange(0, k + 1)[m] == id);
                }
                if id == g.genres@[k as int] {
                    assert(g.genres@.subrange(0, k + 1)[k as int] == id);
                }
            }
            assert forall|id: u32| r@.contains(id) <==> (before.contains(id) || g.genres@.subrange(0, k + 1).contains(id)) by {
                assert(r@.contains(id) <==> (r0.contains(id) || id == x));
                assert(r0.contains(id) <==> (before.contains(id) || g.genres@.subrange(0, k as int).contains(id)));
                assert(g.genres@.subrange(0, k + 1).contains(id) <==> (g.genres@.subrange(0, k as int).contains(id) || id == g.genres@[k as int]));
            }
            k = k + 1;
        }
        assert(g.genres@.subrange(0, g.genres@.len() as int) =~= g.genres@);
        assert forall|id: u32| some_game_has_genre(games@.subrange(0, i + 1), id) <==> (some_game_has_genre(games@.subrange(0, i as int), id) || g.genres@.contains(id)) by {
            let s1 = games@.subrange(0, i + 1);
            let s0 = games@.subrange(0, i as int);
            if some_game_has_genre(s1, id) {
                let m = choose|m: int| 0 <= m < s1.len() && (#[trigger] s1[m]).genres@.contains(id);
                if m < i {
                    assert(s0[m] == s1[m]);
                }
            }
            if some_game_has_genre(s0, id) {
                let m = choose|m: int| 0 <= m < s0.len() && (#[trigger] s0[m]).genres@.contains(id);
                assert(s0[m] == s1[m]);
            }
            if g.genres@.contains(id) {
                assert(s1[i as int] == g);
            }
        }
        assert forall|id: u32| r@.contains(id) <==> some_game_has_genre(games@.subrange(0, i + 1), id) by {
            assert(r@.contains(id) <==> (before.contains(id) || g.genres@.subrange(0, g.genres@.len() as int).contains(id)));
            assert(before.contains(id) <==> some_game_has_genre(games@.subrange(0, i as int), id));
        }
        i = i + 1;
    }
    assert(games@.subrange(0, games@.len() as int) =~= games@);
    r
}

/// The game ids of the reviews, in order.
pub fn review_game_ids(reviews: &Vec<GameReview>) -> (r: Vec<u32>)
    ensures
        r@.len() == reviews@.len(),
        forall|i: int| 0 <= i < r@.len() ==> r@[i] == (#[trigger] reviews@[i]).igdb_id,
{
    let mut r: Vec<u32> = Vec::new();
    let mut i: usize = 0;
    while i < reviews.len()
        invariant
            i <= reviews@.len(),
            r@.len() == i,
            forall|k: int| 0 <= k < i ==> r@[k] == (#[trigger] reviews@[k]).igdb_id,
        decreases reviews@.len() - i,
    {
        r.push(reviews[i].igdb_id);
        i = i + 1;
    }
    r
}

/// The cover ids of the games, in order.
pub fn game_cover_ids(games: &Vec<Game>) -> (r: Vec<u32>)
    ensures
        r@ == cover_ids_of_games(games@),
{
    let mut r: Vec<u32> = Vec::new();
    let mut i: usize = 0;
    while i < games.len()
        invariant
            i <= games@.len(),
            r@ == cover_ids_of_games(games@.subrange(0, i as int)),
        decreases games@.len() - i,
    {
        r.push(games[i].cover_id);
        assert(cover_ids_of_games(games@.subrange(0, i + 1)) =~= r@);
        i = i + 1;
    }
    assert(games@.subrange(0, games@.len() as int) =~= games@);
    r
}

/// The cover ids of the games, in order.
pub open spec fn cover_ids_of_games(games: Seq<Game>) -> Seq<u32> {
    games.map_values(|g: Game| g.cover_id)
}

/// The review entries for all of `reviews`, in order; None when one of them cannot be made.
pub fn make_reviews(
    genres: &Vec<Genre>,
    covers: &Vec<Cover>,
    games: &Vec<Game>,
    reviews: &Vec<GameReview>,
) -> (r: Option<Vec<Review>>)
    ensures
        r is Some <==> forall|i: int| 0 <= i < reviews@.len() ==> can_review(covers@, games@, #[trigger] reviews@[i]),
        r matches Some(v) ==> v@.len() == reviews@.len() && forall|i: int|
            0 <= i < v@.len() ==> is_review_of(#[trigger] v@[i], genres@, covers@, games@, reviews@[i]),
{
    let mut out: Vec<Review> = Vec::new();
    let mut i: usize = 0;
    while i < reviews.len()
        invariant
            i <= reviews@.len(),
            out@.len() == i,
            forall|k: int| 0 <= k < i ==> can_review(covers@, games@, #[trigger] reviews@[k]),
            forall|k: int|
                0 <= k < i ==> is_review_of(#[trigger] out@[k], genres@, covers@, games@, reviews@[k]),
        decreases reviews@.len() - i,
    {
        match make_review(genres, covers, games, &reviews[i]) {
            Some(v) => {
                out.push(v);
            },
            None => {
                return None;
            },
        }
        i = i + 1;
    }
    Some(out)
}

} // verus!
