//! Text filters used when rendering reviews.

use vstd::prelude::*;
use crate::text::{chars_of, push_str, string_of};

verus! {

/// `s` written `n` times in a row.
pub open spec fn repeat_text(s: Seq<char>, n: nat) -> Seq<char>
    decreases n,
{
    if n == 0 {
        Seq::empty()
    } else {
        repeat_text(s, (n - 1) as nat) + s
    }
}

/// The pieces of `s` between occurrences of `sep`; an empty text is one empty piece.
pub open spec fn split_on(s: Seq<char>, sep: char) -> Seq<Seq<char>>
    decreases s.len(),
{
    if s.len() == 0 {
        seq![Seq::empty()]
    } else {
        let rest = split_on(s.drop_last(), sep);
        if s.last() == sep {
            rest.push(Seq::empty())
        } else {
            rest.update(rest.len() - 1, rest.last().push(s.last()))
        }
    }
}

/// Each piece as a list item.
pub open spec fn list_items(pieces: Seq<Seq<char>>) -> Seq<char>
    decreases pieces.len(),
{
    if pieces.len() == 0 {
        Seq::empty()
    } else {
        list_items(pieces.drop_last()) + "<li>"@ + pieces.last() + "</li>"@
    }
}

/// The tags of a `/`-separated list as an HTML list; no tags give no list.
pub open spec fn tags_html(tags: Seq<char>) -> Seq<char> {
    if tags.len() == 0 {
        Seq::empty()
    } else {
        "<ul class=\"tags\">"@ + list_items(split_on(tags, '/')) + "</ul>"@
    }
}

/// The texts of a list of strings.
pub open spec fn texts(v: Seq<String>) -> Seq<Seq<char>> {
    v.map_values(|s: String| s@)
}

/// `s` repeated `count` times, as a heart count is drawn.
pub fn repeat(s: &str, count: i64) -> (r: String)
    requires
        count >= 0,
    ensures
        r@ == repeat_text(s@, count as nat),
{
    let mut out: Vec<char> = Vec::new();
    let mut i: i64 = 0;
    while i < count
        invariant
            0 <= i <= count,
            out@ == repeat_text(s@, i as nat),
        decreases count - i,
    {
        push_str(&mut out, s);
        i = i + 1;
    }
    string_of(&out)
}

/// The pieces of `raw` between the `/` separators.
pub fn split_tags2(raw: &str) -> (r: Vec<String>)
    ensures
        texts(r@) == split_on(raw@, '/'),
{
    let cs = chars_of(raw);
    let mut pieces: Vec<String> = Vec::new();
    let mut current: Vec<char> = Vec::new();
    let mut i: usize = 0;
    assert(texts(pieces@).push(current@) =~= split_on(cs@.subrange(0, 0), '/'));
    while i < cs.len()
        invariant
            i <= cs@.len(),
            texts(pieces@).push(current@) == split_on(cs@.subrange(0, i as int), '/'),
        decreases cs@.len() - i,
    {
        let c = cs[i];
        let ghost pre = cs@.subrange(0, i as int);
        let ghost next = cs@.subrange(0, i + 1);
        assert(next.drop_last() =~= pre);
        assert(next.last() == c);
        let ghost prev = pieces@;
        let ghost c0 = current@;
        if c == '/' {
            let piece = string_of(&current);
            pieces.push(piece);
            current = Vec::new();
            assert(texts(pieces@) =~= texts(prev).push(c0));
            assert(texts(pieces@).push(current@) =~= texts(prev).push(c0).push(Seq::<char>::empty()));
        } else {
            current.push(c);
            assert(texts(pieces@).push(current@) =~= texts(prev).push(c0).update(
                texts(prev).len() as int,
                c0.push(c),
            ));
        }
        i = i + 1;
    }
    let last = string_of(&current);
    let ghost prev = pieces@;
    pieces.push(last);
    assert(texts(pieces@) =~= texts(prev).push(current@));
    assert(cs@.subrange(0, cs@.len() as int) =~= raw@);
    pieces
}

/// The tags of a `/`-separated list as an HTML list; empty tags give an empty text.
pub fn split_tags(tags: &str) -> (r: String)
    ensures
        r@ == tags_html(tags@),
{
    let cs = chars_of(tags);
    if cs.len() == 0 {
        return string_of(&cs);
    }
    let pieces = split_tags2(tags);
    let mut out: Vec<char> = Vec::new();
    push_str(&mut out, "<ul class=\"tags\">");
    let mut i: usize = 0;
    while i < pieces.len()
        invariant
            i <= pieces@.len(),
            out@ == "<ul class=\"tags\">"@ + list_items(texts(pieces@).subrange(0, i as int)),
        decreases pieces@.len() - i,
    {
        push_str(&mut out, "<li>");
        push_str(&mut out, pieces[i].as_str());
        push_str(&mut out, "</li>");
        assert(texts(pieces@).subrange(0, i + 1).drop_last() =~= texts(pieces@).subrange(0, i as int));
        assert(out@ =~= "<ul class=\"tags\">"@ + list_items(texts(pieces@).subrange(0, i + 1)));
        i = i + 1;
    }
    push_str(&mut out, "</ul>");
    assert(texts(pieces@).subrange(0, pieces@.len() as int) =~= texts(pieces@));
    string_of(&out)
}

} // verus!
