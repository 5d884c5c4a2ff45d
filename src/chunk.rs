//! Greedy left-to-right partition of a token stream into budget-sized chunks.

use vstd::prelude::*;

verus! {

/// The chunks of `s` of at most `b` items each: every chunk but the last
/// holds exactly `b` items.
pub open spec fn chunks_of<T>(s: Seq<T>, b: nat) -> Seq<Seq<T>>
    decreases s.len(),
{
    if s.len() == 0 || b == 0 {
        seq![]
    } else if s.len() <= b {
        seq![s]
    } else {
        seq![s.take(b as int)] + chunks_of(s.skip(b as int), b)
    }
}

/// `n / b` rounded up.
pub open spec fn ceil_div(n: nat, b: nat) -> nat
    recommends
        b > 0,
{
    ((n + b - 1) as nat) / b
}

/// The contents of a list of chunks.
pub open spec fn chunk_views<T>(v: Seq<Vec<T>>) -> Seq<Seq<T>> {
    v.map_values(|c: Vec<T>| c@)
}

/// Splitting loses, reorders and duplicates nothing: the chunks, concatenated
/// in order, give back the input; each chunk holds between one and `b`
/// items; and there are `ceil(len(s) / b)` of them.
pub proof fn lemma_chunks_partition<T>(s: Seq<T>, b: nat)
    requires
        b > 0,
    ensures
        chunks_of(s, b).flatten() == s,
        forall|k: int|
            0 <= k < chunks_of(s, b).len() ==> 0 < #[trigger] chunks_of(s, b)[k].len() <= b,
        chunks_of(s, b).len() == ceil_div(s.len(), b),
    decreases s.len(),
{
    let c = chunks_of(s, b);
    if s.len() == 0 {
        assert(c.flatten() =~= s);
        assert(ceil_div(0, b) == 0) by (nonlinear_arith)
            requires
                b > 0,
        ;
    } else if s.len() <= b {
        assert(c.drop_first() =~= seq![]);
        assert(c.drop_first().flatten() =~= Seq::<T>::empty());
        assert(c.flatten() == c.first() + c.drop_first().flatten());
        assert(c.flatten() =~= s);
        assert(ceil_div(s.len(), b) == 1) by (nonlinear_arith)
            requires
                b > 0,
                0 < s.len() <= b,
        ;
    } else {
        let rest = s.skip(b as int);
        lemma_chunks_partition(rest, b);
        assert(c.drop_first() =~= chunks_of(rest, b));
        assert(c.flatten() =~= s.take(b as int) + chunks_of(rest, b).flatten());
        assert(s =~= s.take(b as int) + rest);
        assert forall|k: int| 0 <= k < c.len() implies 0 < #[trigger] c[k].len() <= b by {
            if k > 0 {
                assert(c[k] == chunks_of(rest, b)[k - 1]);
            }
        }
        let n = s.len();
        assert(ceil_div(n, b) == ceil_div((n - b) as nat, b) + 1) by (nonlinear_arith)
            requires
                b > 0,
                n > b,
        {
            assert((n + b - 1) as nat == ((n - b + b - 1) as nat) + b);
        }
    }
}

/// Splitting is a function of its inputs: the same tokens and budget always
/// give the same chunk boundaries.
pub proof fn lemma_chunks_deterministic<T>(s1: Seq<T>, s2: Seq<T>, b1: nat, b2: nat)
    requires
        s1 == s2,
        b1 == b2,
    ensures
        chunks_of(s1, b1) == chunks_of(s2, b2),
{
}

/// Splits `toks` into consecutive chunks of at most `max` tokens, taken
/// greedily from the front.
pub fn split(toks: &Vec<String>, max: usize) -> (r: Vec<Vec<String>>)
    requires
        max > 0,
    ensures
        chunk_views(r@) == chunks_of(toks@, max as nat),
        r@.len() == ceil_div(toks@.len(), max as nat),
        chunk_views(r@).flatten() == toks@,
{
    let mut out: Vec<Vec<String>> = Vec::new();
    let mut i: usize = 0;
    assert(toks@.skip(0) =~= toks@);
    while i < toks.len()
        invariant
            max > 0,
            i <= toks@.len(),
            chunk_views(out@) + chunks_of(toks@.skip(i as int), max as nat) == chunks_of(
                toks@,
                max as nat,
            ),
        decreases toks@.len() - i,
    {
        let ghost rest = toks@.skip(i as int);
        let end: usize = if toks.len() - i <= max {
            toks.len()
        } else {
            i + max
        };
        let mut chunk: Vec<String> = Vec::new();
        let mut j: usize = i;
        while j < end
            invariant
                i <= j <= end <= toks@.len(),
                chunk@ == toks@.subrange(i as int, j as int),
            decreases end - j,
        {
            chunk.push(toks[j].clone());
            assert(chunk@ =~= toks@.subrange(i as int, j + 1));
            j = j + 1;
        }
        let ghost before = chunk_views(out@);
        out.push(chunk);
        assert(chunk_views(out@) =~= before + seq![chunk@]);
        if end == toks.len() {
            assert(chunk@ =~= rest);
            assert(chunks_of(rest, max as nat) == seq![rest]);
            assert(toks@.skip(end as int) =~= seq![]);
            assert(chunks_of(toks@.skip(end as int), max as nat) =~= seq![]);
        } else {
            assert(chunk@ =~= rest.take(max as int));
            assert(rest.skip(max as int) =~= toks@.skip(end as int));
        }
        assert(chunk_views(out@) + chunks_of(toks@.skip(end as int), max as nat) =~= before
            + chunks_of(rest, max as nat));
        i = end;
    }
    assert(toks@.skip(i as int) =~= seq![]);
    assert(chunk_views(out@) =~= chunks_of(toks@, max as nat));
    proof {
        lemma_chunks_partition(toks@, max as nat);
    }
    out
}

} // verus!
