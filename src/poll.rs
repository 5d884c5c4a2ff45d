//! The poll window and the search query: which discussion posts count as new
//! on this tick.

use vstd::prelude::*;
use crate::text::push_char;

verus! {

/// One discussion post as the search service reports it.
#[derive(Debug)]
pub struct Hit {
    pub title: String,
    /// The article the post links to, if any.
    pub url: Option<String>,
    /// The post's identifier at the discussion site.
    pub object_id: String,
    pub author: String,
    /// Creation time, in seconds since the Unix epoch.
    pub created_at_i: i64,
}

/// The posts of one poll, in the order the search service returned them.
#[derive(Debug)]
pub struct Search {
    pub hits: Vec<Hit>,
}

/// The start of the poll window: `lookback` seconds before `now`, or the
/// epoch if `now` is earlier than that.
pub fn window_start(now: u64, lookback: u64) -> (r: u64)
    ensures
        r == if now >= lookback {
            (now - lookback) as u64
        } else {
            0
        },
{
    if now >= lookback {
        now - lookback
    } else {
        0
    }
}

pub open spec fn digit_char(d: nat) -> char {
    seq!['0', '1', '2', '3', '4', '5', '6', '7', '8', '9'][d as int]
}

/// The decimal digits of `n`, without leading zeros.
pub open spec fn decimal(n: nat) -> Seq<char>
    decreases n,
{
    if n < 10 {
        seq![digit_char(n)]
    } else {
        decimal(n / 10).push(digit_char(n % 10))
    }
}

fn digit(d: u64) -> (c: char)
    requires
        d < 10,
    ensures
        c == digit_char(d as nat),
{
    if d == 0 {
        '0'
    } else if d == 1 {
        '1'
    } else if d == 2 {
        '2'
    } else if d == 3 {
        '3'
    } else if d == 4 {
        '4'
    } else if d == 5 {
        '5'
    } else if d == 6 {
        '6'
    } else if d == 7 {
        '7'
    } else if d == 8 {
        '8'
    } else {
        '9'
    }
}

/// Appends the decimal digits of `n` to `s`.
fn push_decimal(s: &mut String, n: u64)
    ensures
        final(s)@ == old(s)@ + decimal(n as nat),
    decreases n,
{
    if n >= 10 {
        push_decimal(s, n / 10);
    }
    push_char(s, digit(n % 10));
    assert(decimal(n as nat) == if n < 10 {
        seq![digit_char(n as nat)]
    } else {
        decimal((n / 10) as nat).push(digit_char((n % 10) as nat))
    });
}

pub open spec fn search_url_spec(query: Seq<char>, since: u64) -> Seq<char> {
    "https://hn.algolia.com/api/v1/search_by_date?tags=story&query="@ + query
        + "&numericFilters=created_at_i>"@ + decimal(since as nat)
}

/// The search query for stories about `query` created after `since`.
pub fn search_url(query: &str, since: u64) -> (r: String)
    ensures
        r@ == search_url_spec(query@, since),
{
    let mut r = String::from_str("https://hn.algolia.com/api/v1/search_by_date?tags=story&query=");
    r.append(query);
    r.append("&numericFilters=created_at_i>");
    push_decimal(&mut r, since);
    r
}

/// A post created strictly after `since`.
pub open spec fn is_recent(h: Hit, since: u64) -> bool {
    h.created_at_i as int > since as int
}

fn copy_string_option(o: &Option<String>) -> (r: Option<String>)
    ensures
        r == *o,
{
    match o {
        Some(s) => Some(s.clone()),
        None => None,
    }
}

fn copy_hit(h: &Hit) -> (r: Hit)
    ensures
        r == *h,
{
    Hit {
        title: h.title.clone(),
        url: copy_string_option(&h.url),
        object_id: h.object_id.clone(),
        author: h.author.clone(),
        created_at_i: h.created_at_i,
    }
}

/// The posts of `search` created strictly after `since`, in their order.
pub fn recent_hits(search: &Search, since: u64) -> (r: Search)
    ensures
        r.hits@ == search.hits@.filter(|h: Hit| is_recent(h, since)),
        forall|k: int| 0 <= k < r.hits@.len() ==> #[trigger] r.hits@[k].created_at_i > since,
{
    let ghost pred = |h: Hit| is_recent(h, since);
    let mut out: Vec<Hit> = Vec::new();
    let mut i: usize = 0;
    proof {
        reveal(Seq::filter);
        assert(search.hits@.take(0).filter(pred) =~= seq![]);
    }
    while i < search.hits.len()
        invariant
            i <= search.hits@.len(),
            pred == (|h: Hit| is_recent(h, since)),
            out@ == search.hits@.take(i as int).filter(pred),
        decreases search.hits@.len() - i,
    {
        let h = &search.hits[i];
        proof {
            reveal(Seq::filter);
            assert(search.hits@.take(i + 1).drop_last() =~= search.hits@.take(i as int));
            assert(search.hits@.take(i + 1).last() == *h);
        }
        if h.created_at_i >= 0 && h.created_at_i as u64 > since {
            out.push(copy_hit(h));
        }
        i = i + 1;
    }
    assert(search.hits@.take(i as int) =~= search.hits@);
    proof {
        assert forall|k: int| 0 <= k < out@.len() implies #[trigger] out@[k].created_at_i > since by {
            search.hits@.lemma_filter_pred(pred, k);
        }
    }
    Search { hits: out }
}

} // verus!
