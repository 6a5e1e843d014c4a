//! The records fetched from the metadata service, and the cache stores.

use vstd::prelude::*;
use crate::text::{chars_of, replace_all, replace_chars, string_of};

verus! {

/// A game; `first_release_date` is in seconds since the Unix epoch.
pub struct Game {
    pub id: u32,
    pub name: String,
    pub slug: String,
    pub first_release_date: Option<i64>,
    pub genres: Vec<u32>,
    pub summary: Option<String>,
    pub url: String,
    pub cover_id: u32,
}

/// A genre.
pub struct Genre {
    pub id: u32,
    pub name: String,
}

/// A cover image.
pub struct Cover {
    pub id: u32,
    pub url: String,
}

impl Game {
    /// The id the cache keys this record by.
    pub fn id(&self) -> (r: u32)
        ensures
            r == self.id,
    {
        self.id
    }
}

impl Genre {
    /// The id the cache keys this record by.
    pub fn id(&self) -> (r: u32)
        ensures
            r == self.id,
    {
        self.id
    }
}

impl Cover {
    /// The id the cache keys this record by.
    pub fn id(&self) -> (r: u32)
        ensures
            r == self.id,
    {
        self.id
    }
}

/// The displayable address of a cover: the thumbnail size token becomes the medium cover
/// size, and the protocol-relative address gets a scheme.
pub open spec fn cover_url_text(url: Seq<char>) -> Seq<char> {
    "https:"@ + replace_all(url, "t_thumb"@, "t_cover_med"@)
}

/// Rewrites a cover address as the service returns it into one fit for display.
pub fn normalize_cover_url(url: &str) -> (r: String)
    ensures
        r@ == cover_url_text(url@),
{
    let replaced = replace_chars(&chars_of(url), &chars_of("t_thumb"), &chars_of("t_cover_med"));
    let mut out = chars_of("https:");
    let mut rest = replaced;
    out.append(&mut rest);
    string_of(&out)
}

/// The covers with their addresses rewritten for display, in the same order.
pub fn normalize_covers(covers: Vec<Cover>) -> (r: Vec<Cover>)
    ensures
        r@.len() == covers@.len(),
        forall|i: int|
            0 <= i < r@.len() ==> (#[trigger] r@[i]).id == covers@[i].id && r@[i].url@
                == cover_url_text(covers@[i].url@),
{
    let mut r: Vec<Cover> = Vec::new();
    let mut i: usize = 0;
    while i < covers.len()
        invariant
            i <= covers@.len(),
            r@.len() == i,
            forall|k: int|
                0 <= k < i ==> (#[trigger] r@[k]).id == covers@[k].id && r@[k].url@ == cover_url_text(
                    covers@[k].url@,
                ),
        decreases covers@.len() - i,
    {
        let c = &covers[i];
        r.push(Cover { id: c.id, url: normalize_cover_url(c.url.as_str()) });
        i = i + 1;
    }
    r
}

/// A cache store that stores nothing: every read misses.
pub struct NoOpCache {}

/// A cache store kept in an SQLite database file.
pub struct SqliteCache {
    path: String,
}

impl SqliteCache {
    /// A store in the database at `path`.
    pub fn new(path: String) -> (r: Self)
        ensures
            r.path()@ == path@,
    {
        SqliteCache { path }
    }

    /// The database file's path.
    pub closed spec fn path(&self) -> String {
        self.path
    }

    /// The database file's path.
    pub fn database_path(&self) -> (r: &str)
        ensures
            r@ == self.path()@,
    {
        self.path.as_str()
    }
}

} // verus!
