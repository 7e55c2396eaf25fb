//! Where a tile is fetched from: its URL, and the rule on which URLs may be
//! fetched.

use vstd::prelude::*;
use crate::text::{chars_of, decimal, numeral, replace, replace_all, starts_with};
use crate::tile::Tile;

verus! {

/// The placeholder for one coordinate in a URL template: the coordinate's
/// letter in braces.
pub open spec fn placeholder(axis: char) -> Seq<char> {
    seq!['{', axis, '}']
}

/// The URL of `tile` under `template`: every `{x}` replaced by the tile's
/// column, then every `{y}` by its row, then every `{z}` by its zoom level,
/// each as a decimal numeral.
pub open spec fn render(template: Seq<char>, tile: Tile) -> Seq<char> {
    let with_x = replace_all(template, placeholder('x'), decimal(tile.x as nat));
    let with_y = replace_all(with_x, placeholder('y'), decimal(tile.y as nat));
    replace_all(with_y, placeholder('z'), decimal(tile.z as nat))
}

/// Whether `url` may be fetched: it begins with one of the four prefixes of
/// a private-network or loopback HTTP server. Only the beginning is tested.
pub open spec fn is_local(url: Seq<char>) -> bool {
    ||| "http://192.168."@.is_prefix_of(url)
    ||| "http://10."@.is_prefix_of(url)
    ||| "http://127.0.0.1"@.is_prefix_of(url)
    ||| "http://localhost"@.is_prefix_of(url)
}

fn placeholder_of(axis: char) -> (v: Vec<char>)
    ensures
        v@ == placeholder(axis),
{
    let mut v: Vec<char> = Vec::new();
    v.push('{');
    v.push(axis);
    v.push('}');
    v
}

/// Computes [`render`].
pub fn render_url(template: &str, tile: Tile) -> (url: String)
    ensures
        url@ == render(template@, tile),
{
    let with_x = replace(template, &placeholder_of('x'), numeral(tile.x as u64).as_str());
    let with_y = replace(with_x.as_str(), &placeholder_of('y'), numeral(tile.y as u64).as_str());
    replace(with_y.as_str(), &placeholder_of('z'), numeral(tile.z as u64).as_str())
}

/// Computes [`is_local`].
pub fn is_local_url(url: &str) -> (local: bool)
    ensures
        local == is_local(url@),
{
    let url = chars_of(url);
    starts_with(&url, &chars_of("http://192.168."))
        || starts_with(&url, &chars_of("http://10."))
        || starts_with(&url, &chars_of("http://127.0.0.1"))
        || starts_with(&url, &chars_of("http://localhost"))
}

/// Only the beginning of a URL is tested: a URL that may be fetched may
/// still be fetched with anything appended to it.
pub proof fn lemma_local_whatever_follows(url: Seq<char>, rest: Seq<char>)
    requires
        is_local(url),
    ensures
        is_local(url + rest),
{
    assert forall|prefix: Seq<char>| prefix.is_prefix_of(url) implies prefix.is_prefix_of(
        url + rest,
    ) by {
        assert((url + rest).subrange(0, prefix.len() as int) == url.subrange(
            0,
            prefix.len() as int,
        ));
    }
}

/// A template without an opening brace is the URL of every tile.
pub proof fn lemma_render_plain(template: Seq<char>, tile: Tile)
    requires
        !template.contains('{'),
    ensures
        render(template, tile) == template,
{
    lemma_replace_absent(template, placeholder('x'), decimal(tile.x as nat));
    lemma_replace_absent(template, placeholder('y'), decimal(tile.y as nat));
    lemma_replace_absent(template, placeholder('z'), decimal(tile.z as nat));
}

proof fn lemma_replace_absent(s: Seq<char>, pat: Seq<char>, with: Seq<char>)
    requires
        pat.len() > 0,
        !s.contains(pat[0]),
    ensures
        replace_all(s, pat, with) == s,
    decreases s.len(),
{
    if s.len() > 0 {
        assert forall|c: char| s.skip(1).contains(c) implies s.contains(c) by {
            let i = choose|i: int| 0 <= i < s.skip(1).len() && s.skip(1)[i] == c;
            assert(s[i + 1] == c);
        }
        lemma_replace_absent(s.skip(1), pat, with);
    }
}

} // verus!
