//! Token counting: a text's tokens are its maximal runs of non-whitespace
//! characters, in order.

use vstd::prelude::*;

verus! {

/// The Unicode `White_Space` characters.
pub open spec fn space_char(c: char) -> bool {
    ('\u{9}' <= c && c <= '\u{d}') || c == ' ' || c == '\u{85}' || c == '\u{a0}'
        || c == '\u{1680}' || ('\u{2000}' <= c && c <= '\u{200a}') || c == '\u{2028}'
        || c == '\u{2029}' || c == '\u{202f}' || c == '\u{205f}' || c == '\u{3000}'
}

/// Whether `c` separates tokens.
pub fn is_space(c: char) -> (r: bool)
    ensures
        r == space_char(c),
{
    ('\u{9}' <= c && c <= '\u{d}') || c == ' ' || c == '\u{85}' || c == '\u{a0}'
        || c == '\u{1680}' || ('\u{2000}' <= c && c <= '\u{200a}') || c == '\u{2028}'
        || c == '\u{2029}' || c == '\u{202f}' || c == '\u{205f}' || c == '\u{3000}'
}

/// `cur` as a list of at most one token.
pub open spec fn pending(cur: Seq<char>) -> Seq<Seq<char>> {
    if cur.len() == 0 {
        seq![]
    } else {
        seq![cur]
    }
}

/// The tokens of `cur + s`, where `cur` is a token begun before `s`.
pub open spec fn tokens_after(s: Seq<char>, cur: Seq<char>) -> Seq<Seq<char>>
    decreases s.len(),
{
    if s.len() == 0 {
        pending(cur)
    } else if space_char(s[0]) {
        pending(cur) + tokens_after(s.drop_first(), seq![])
    } else {
        tokens_after(s.drop_first(), cur.push(s[0]))
    }
}

/// The tokens of `s`, left to right.
pub open spec fn tokens(s: Seq<char>) -> Seq<Seq<char>> {
    tokens_after(s, seq![])
}

proof fn lemma_tokens_after_nonempty(s: Seq<char>, cur: Seq<char>)
    ensures
        forall|k: int|
            0 <= k < tokens_after(s, cur).len() ==> #[trigger] tokens_after(s, cur)[k].len() > 0,
    decreases s.len(),
{
    if s.len() > 0 {
        if space_char(s[0]) {
            lemma_tokens_after_nonempty(s.drop_first(), seq![]);
            let p = pending(cur);
            let t = tokens_after(s.drop_first(), seq![]);
            assert(tokens_after(s, cur) == p + t);
            assert forall|k: int| 0 <= k < (p + t).len() implies #[trigger] (p + t)[k].len() > 0 by {
                if k >= p.len() {
                    assert((p + t)[k] == t[k - p.len()]);
                }
            }
        } else {
            lemma_tokens_after_nonempty(s.drop_first(), cur.push(s[0]));
            assert(tokens_after(s, cur) == tokens_after(s.drop_first(), cur.push(s[0])));
        }
    } else {
        assert(tokens_after(s, cur) == pending(cur));
    }
}

/// No token is empty.
pub proof fn lemma_tokens_nonempty(s: Seq<char>)
    ensures
        forall|k: int| 0 <= k < tokens(s).len() ==> #[trigger] tokens(s)[k].len() > 0,
{
    lemma_tokens_after_nonempty(s, seq![]);
}

/// The views of a list of strings.
pub open spec fn views(v: Seq<String>) -> Seq<Seq<char>> {
    v.map_values(|w: String| w@)
}

/// The words of `ws` separated by single spaces.
pub open spec fn joined(ws: Seq<Seq<char>>) -> Seq<char>
    decreases ws.len(),
{
    if ws.len() == 0 {
        seq![]
    } else if ws.len() == 1 {
        ws[0]
    } else {
        joined(ws.drop_last()) + seq![' '] + ws.last()
    }
}

/// Relies on String::push: appends one character.
#[verifier::external_body]
pub(crate) fn push_char(s: &mut String, c: char)
    ensures
        final(s)@ == old(s)@.push(c),
{
    s.push(c)
}

/// The tokens of `text`, in order.
pub fn encode(text: &str) -> (r: Vec<String>)
    ensures
        views(r@) == tokens(text@),
{
    let mut out: Vec<String> = Vec::new();
    let mut cur = String::new();
    assert(text@.skip(0) =~= text@);
    assert(views(out@) =~= seq![]);
    for c in it: text.chars()
        invariant
            it.seq() == text@,
            views(out@) + tokens_after(text@.skip(it.index() as int), cur@) == tokens(text@),
    {
        let ghost i = it.index();
        let ghost rest = text@.skip(i as int);
        let ghost out0 = views(out@);
        let ghost cur0 = cur@;
        assert(rest[0] == c);
        assert(rest.drop_first() =~= text@.skip(i + 1));
        if is_space(c) {
            assert(tokens_after(rest, cur@) == pending(cur@) + tokens_after(text@.skip(i + 1), seq![]));
            if !cur.as_str().is_empty() {
                proof {
                    assert(views(out@.push(cur)) =~= views(out@) + seq![cur@]);
                }
                out.push(cur);
                cur = String::new();
            } else {
                assert(pending(cur@) =~= seq![]);
                assert(cur@ =~= seq![]);
            }
            let ghost tail = tokens_after(text@.skip(i + 1), seq![]);
            assert(views(out@) == out0 + pending(cur0));
            assert(out0 + (pending(cur0) + tail) =~= (out0 + pending(cur0)) + tail);
        } else {
            assert(tokens_after(rest, cur0) == tokens_after(text@.skip(i + 1), cur0.push(c)));
            push_char(&mut cur, c);
        }
    }
    assert(text@.skip(text@.len() as int) =~= seq![]);
    if !cur.as_str().is_empty() {
        proof {
            assert(views(out@.push(cur)) =~= views(out@) + seq![cur@]);
        }
        out.push(cur);
    }
    assert(views(out@) =~= tokens(text@));
    out
}

/// The number of tokens in `text`.
pub fn count(text: &str) -> (r: usize)
    ensures
        r == tokens(text@).len(),
{
    encode(text).len()
}

/// The tokens `toks` separated by single spaces.
pub fn decode(toks: &[String]) -> (r: String)
    ensures
        r@ == joined(views(toks@)),
{
    let mut out = String::new();
    let mut i: usize = 0;
    while i < toks.len()
        invariant
            i <= toks@.len(),
            out@ == joined(views(toks@.take(i as int))),
        decreases toks@.len() - i,
    {
        let ghost before = views(toks@.take(i as int));
        let ghost after = views(toks@.take(i + 1));
        assert(after.drop_last() =~= before);
        assert(after.last() == toks@[i as int]@);
        if i > 0 {
            proof {
                reveal_strlit(" ");
            }
            out.append(" ");
        }
        out.append(toks[i].as_str());
        assert(out@ =~= joined(after));
        i = i + 1;
    }
    assert(toks@.take(toks@.len() as int) =~= toks@);
    out
}

/// `text` with its leading and trailing whitespace removed and every inner
/// run of whitespace replaced by a single space.
pub fn normalize_whitespace(text: &str) -> (r: String)
    ensures
        r@ == joined(tokens(text@)),
{
    let toks = encode(text);
    decode(toks.as_slice())
}

} // verus!
