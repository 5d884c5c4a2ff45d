//! Map/reduce summarisation as a state machine.
//!
//! The machine decides which completion request to issue next; the caller
//! performs each request and hands back its reply. A text whose token count
//! fits the single-shot budget is summarised by one request. A longer text is
//! split into chunks, each chunk is sent for extraction of its key points
//! (the map phase), and one final request condenses the collected notes (the
//! reduce phase). Every request is retried up to a fixed number of times.

use vstd::prelude::*;
use crate::chunk::{ceil_div, chunks_of, lemma_chunks_partition, split, chunk_views};
use crate::text::{decode, encode, joined, tokens, views};

verus! {

/// The budgets and retry policy of a summarisation task.
#[derive(Clone, Copy, Debug)]
pub struct SummaryConfig {
    /// Most tokens that one request may summarise directly.
    pub single_shot_budget: usize,
    /// Most tokens per chunk in the map phase.
    pub chunk_budget: usize,
    /// How many times a failed request is sent again before it counts as failed.
    pub retry_limit: u32,
}

/// What a completion request asks for.
#[derive(Clone, Copy, Debug, PartialEq, Eq, Structural)]
pub enum PromptKind {
    /// Summarise the whole text at once.
    Direct,
    /// Extract the key information of one chunk.
    Extract,
    /// Condense the notes extracted from all chunks.
    Reduce,
}

/// One completion request to be sent.
#[derive(Debug)]
pub struct Request {
    /// Correlates the requests of one summarisation task.
    pub conversation: String,
    pub kind: PromptKind,
    pub prompt: String,
    /// 0 for the first attempt, then 1, 2, ... for the retries.
    pub attempt: u32,
}

/// A finished summary; `truncated` tells that the map/reduce path was taken.
#[derive(Debug)]
pub struct SummaryResult {
    pub text: String,
    pub truncated: bool,
}

/// The outcome of a completion request.
#[derive(Debug)]
pub enum Reply {
    Text(String),
    Failed,
}

/// What the caller does next.
#[derive(Debug)]
pub enum Action {
    Send(Request),
    Finish(SummaryResult),
    Fail,
}

/// Where the machine stands.
#[derive(Clone, Copy, Debug, PartialEq, Eq, Structural)]
pub enum Stage {
    Direct,
    Extract,
    Reduce,
    Done,
}

pub open spec fn direct_prompt(body: Seq<char>) -> Seq<char> {
    "Summarize this within 100 words: "@ + body
}

pub open spec fn extract_prompt(chunk: Seq<char>) -> Seq<char> {
    "Extract the key information from this segment of an article: "@ + chunk
}

pub open spec fn reduce_prompt(notes: Seq<char>) -> Seq<char> {
    "Produce a final concise summary within 100 words from these extracted notes: "@ + notes
}

/// The text of each chunk of `text`: its tokens split by `b`, each chunk's
/// tokens separated by single spaces.
pub open spec fn chunk_texts(text: Seq<char>, b: nat) -> Seq<Seq<char>> {
    chunks_of(tokens(text), b).map_values(|c: Seq<Seq<char>>| joined(c))
}

/// How many distinct requests summarising a text of `n` tokens takes.
pub open spec fn total_requests(n: nat, cfg: SummaryConfig) -> nat {
    if n <= cfg.single_shot_budget {
        1
    } else {
        ceil_div(n, cfg.chunk_budget as nat) + 1
    }
}

/// The model of a summariser.
pub struct SummarizerState {
    pub stage: Stage,
    pub config: SummaryConfig,
    pub conversation: Seq<char>,
    /// The text being summarised.
    pub text: Seq<char>,
    pub token_count: nat,
    /// The whole text as one prompt body.
    pub body: Seq<char>,
    pub chunks: Seq<Seq<char>>,
    /// The chunk being extracted in the map phase.
    pub next: nat,
    /// The notes collected so far in the map phase.
    pub digest: Seq<char>,
    pub attempt: nat,
    /// How many distinct requests were issued so far.
    pub issued: nat,
}

impl SummarizerState {
    pub open spec fn kind(self) -> PromptKind {
        match self.stage {
            Stage::Direct => PromptKind::Direct,
            Stage::Extract => PromptKind::Extract,
            _ => PromptKind::Reduce,
        }
    }

    /// The prompt of the request that is outstanding.
    pub open spec fn prompt(self) -> Seq<char> {
        match self.stage {
            Stage::Direct => direct_prompt(self.body),
            Stage::Extract => extract_prompt(self.chunks[self.next as int]),
            _ => reduce_prompt(self.digest),
        }
    }

    /// `req` is the outstanding request of this state.
    pub open spec fn sends(self, req: Request) -> bool {
        &&& req.conversation@ == self.conversation
        &&& req.kind == self.kind()
        &&& req.prompt@ == self.prompt()
        &&& req.attempt == self.attempt
    }

    /// The state after the current map-phase chunk is done, its notes
    /// appended to the digest (or nothing, if its request failed).
    pub open spec fn after_chunk(self, notes: Option<Seq<char>>) -> SummarizerState {
        let digest = match notes {
            Some(t) => self.digest + t + seq!['\n'],
            None => self.digest,
        };
        SummarizerState {
            stage: if self.next + 1 < self.chunks.len() {
                Stage::Extract
            } else {
                Stage::Reduce
            },
            next: if self.next + 1 < self.chunks.len() {
                self.next + 1
            } else {
                self.next
            },
            digest,
            attempt: 0,
            issued: self.issued + 1,
            ..self
        }
    }
}

/// One summarisation task in progress; see `SummarizerState` for its model
/// and `wf` for its invariant.
pub struct Summarizer {
    stage: Stage,
    config: SummaryConfig,
    conversation: String,
    text: Ghost<Seq<char>>,
    token_count: usize,
    body: String,
    chunks: Vec<String>,
    next: usize,
    digest: String,
    attempt: u32,
    issued: Ghost<nat>,
}

impl View for Summarizer {
    type V = SummarizerState;

    closed spec fn view(&self) -> SummarizerState {
        SummarizerState {
            stage: self.stage,
            config: self.config,
            conversation: self.conversation@,
            text: self.text@,
            token_count: self.token_count as nat,
            body: self.body@,
            chunks: views(self.chunks@),
            next: self.next as nat,
            digest: self.digest@,
            attempt: self.attempt as nat,
            issued: self.issued@,
        }
    }
}

/// Splitting the views of `s` gives the views of the chunks of `s`.
proof fn lemma_chunks_of_views(s: Seq<String>, b: nat)
    requires
        b > 0,
    ensures
        chunks_of(views(s), b).len() == chunks_of(s, b).len(),
        forall|k: int|
            0 <= k < chunks_of(s, b).len() ==> #[trigger] chunks_of(views(s), b)[k] == views(
                chunks_of(s, b)[k],
            ),
    decreases s.len(),
{
    if s.len() > b {
        lemma_chunks_of_views(s.skip(b as int), b);
        assert(views(s).take(b as int) =~= views(s.take(b as int)));
        assert(views(s).skip(b as int) =~= views(s.skip(b as int)));
        assert forall|k: int| 0 <= k < chunks_of(s, b).len() implies #[trigger] chunks_of(
            views(s),
            b,
        )[k] == views(chunks_of(s, b)[k]) by {
            if k > 0 {
                assert(chunks_of(s, b)[k] == chunks_of(s.skip(b as int), b)[k - 1]);
                assert(chunks_of(views(s), b)[k] == chunks_of(views(s).skip(b as int), b)[k - 1]);
            }
        }
    } else if s.len() > 0 {
        assert(views(s).len() == s.len());
    }
}

/// `prefix` followed by `body`.
fn prompt_of(prefix: &str, body: &str) -> (r: String)
    ensures
        r@ == prefix@ + body@,
{
    let mut r = String::from_str(prefix);
    r.append(body);
    r
}

impl Summarizer {
    /// The machine's invariant.
    pub open spec fn wf(&self) -> bool {
        let v = self@;
        let b = v.config.chunk_budget as nat;
        &&& b > 0
        &&& v.token_count == tokens(v.text).len()
        &&& v.attempt <= v.config.retry_limit
        &&& (v.stage == Stage::Direct ==> v.body == joined(tokens(v.text)))
        &&& ((v.stage == Stage::Extract || v.stage == Stage::Reduce) ==> {
            &&& v.chunks == chunk_texts(v.text, b)
            &&& v.chunks.len() == ceil_div(v.token_count, b)
        })
        &&& match v.stage {
            Stage::Direct => v.token_count <= v.config.single_shot_budget && v.issued == 1,
            Stage::Extract => v.token_count > v.config.single_shot_budget && v.next < v.chunks.len()
                && v.issued == v.next + 1,
            Stage::Reduce => v.token_count > v.config.single_shot_budget && v.issued
                == v.chunks.len() + 1,
            Stage::Done => v.issued == total_requests(v.token_count, v.config),
        }
    }

    /// Where the machine stands.
    pub fn stage(&self) -> (r: Stage)
        ensures
            r == self@.stage,
    {
        self.stage
    }

    /// The outstanding request.
    fn request(&self) -> (r: Request)
        requires
            self.wf(),
            self@.stage != Stage::Done,
        ensures
            self@.sends(r),
    {
        let prompt = match self.stage {
            Stage::Direct => prompt_of("Summarize this within 100 words: ", self.body.as_str()),
            Stage::Extract => prompt_of(
                "Extract the key information from this segment of an article: ",
                self.chunks[self.next].as_str(),
            ),
            _ => prompt_of(
                "Produce a final concise summary within 100 words from these extracted notes: ",
                self.digest.as_str(),
            ),
        };
        let kind = match self.stage {
            Stage::Direct => PromptKind::Direct,
            Stage::Extract => PromptKind::Extract,
            _ => PromptKind::Reduce,
        };
        Request { conversation: self.conversation.clone(), kind, prompt, attempt: self.attempt }
    }

    /// Starts summarising `text`; returns the machine and its first request.
    /// A text of at most `single_shot_budget` tokens is sent whole; a longer
    /// one starts with the extraction of its first chunk.
    pub fn begin(text: &str, config: SummaryConfig, conversation: String) -> (r: (
        Summarizer,
        Request,
    ))
        requires
            config.chunk_budget > 0,
        ensures
            r.0.wf(),
            r.0@.text == text@,
            r.0@.config == config,
            r.0@.conversation == conversation@,
            r.0@.stage == (if tokens(text@).len() <= config.single_shot_budget {
                Stage::Direct
            } else {
                Stage::Extract
            }),
            r.0@.next == 0,
            r.0@.digest == Seq::<char>::empty(),
            r.0@.attempt == 0,
            r.0@.issued == 1,
            r.0@.sends(r.1),
    {
        let toks = encode(text);
        let n = toks.len();
        let b = config.chunk_budget;
        if n <= config.single_shot_budget {
            let body = decode(toks.as_slice());
            let s = Summarizer {
                stage: Stage::Direct,
                config,
                conversation,
                text: Ghost(text@),
                token_count: n,
                body,
                chunks: Vec::new(),
                next: 0,
                digest: String::new(),
                attempt: 0,
                issued: Ghost(1),
            };
            let req = s.request();
            (s, req)
        } else {
            let parts = split(&toks, b);
            proof {
                lemma_chunks_of_views(toks@, b as nat);
                lemma_chunks_partition(tokens(text@), b as nat);
                assert(ceil_div(n as nat, b as nat) >= 1) by (nonlinear_arith)
                    requires
                        b > 0,
                        n >= 1,
                ;
            }
            let ghost target = chunk_texts(text@, b as nat);
            let mut chunks: Vec<String> = Vec::new();
            let mut k: usize = 0;
            while k < parts.len()
                invariant
                    k <= parts@.len(),
                    parts@.len() == target.len(),
                    target == chunk_texts(text@, b as nat),
                    views(toks@) == tokens(text@),
                    chunk_views(parts@) == chunks_of(toks@, b as nat),
                    chunks_of(views(toks@), b as nat).len() == chunks_of(toks@, b as nat).len(),
                    forall|j: int|
                        0 <= j < chunks_of(toks@, b as nat).len() ==> #[trigger] chunks_of(
                            views(toks@),
                            b as nat,
                        )[j] == views(chunks_of(toks@, b as nat)[j]),
                    views(chunks@) == target.take(k as int),
                decreases parts@.len() - k,
            {
                assert(parts@[k as int]@ == chunk_views(parts@)[k as int]);
                let d = decode(parts[k].as_slice());
                assert(d@ == target[k as int]);
                let ghost before = views(chunks@);
                chunks.push(d);
                assert(views(chunks@) =~= before + seq![d@]);
                assert(views(chunks@) =~= target.take(k + 1));
                k = k + 1;
            }
            assert(target.take(k as int) =~= target);
            let s = Summarizer {
                stage: Stage::Extract,
                config,
                conversation,
                text: Ghost(text@),
                token_count: n,
                body: String::new(),
                chunks,
                next: 0,
                digest: String::new(),
                attempt: 0,
                issued: Ghost(1),
            };
            let req = s.request();
            (s, req)
        }
    }

    /// Moves past the current map-phase chunk to the next chunk, or to the
    /// reduce phase after the last one.
    fn advance(&mut self) -> (a: Action)
        requires
            old(self).wf(),
            old(self)@.stage == Stage::Extract,
        ensures
            final(self)@ == old(self)@.after_chunk(None),
            final(self).wf(),
            a is Send,
            final(self)@.sends(a->Send_0),
    {
        assert(views(self.chunks@).len() == self.chunks@.len());
        let more = self.next < self.chunks.len() - 1;
        self.attempt = 0;
        self.issued = Ghost(self.issued@ + 1);
        if more {
            self.next = self.next + 1;
        } else {
            self.stage = Stage::Reduce;
        }
        Action::Send(self.request())
    }

    /// Takes the reply to the outstanding request and decides what to do
    /// next.
    ///
    /// A reply to the direct or reduce request finishes the summary. A reply
    /// to an extraction request appends its notes, followed by a newline, to
    /// the digest, and the next chunk (or the reduce request) is sent. A
    /// failed request is sent again while retries are left; after that a
    /// failed extraction only drops that chunk's notes, while a failed direct
    /// or reduce request fails the summary.
    pub fn step(&mut self, reply: Reply) -> (a: Action)
        requires
            old(self).wf(),
            old(self)@.stage != Stage::Done,
        ensures
            final(self).wf(),
            ({
                let o = old(self)@;
                let n = final(self)@;
                match reply {
                    Reply::Text(t) => if o.stage == Stage::Extract {
                        &&& n == o.after_chunk(Some(t@))
                        &&& a is Send
                        &&& n.sends(a->Send_0)
                    } else {
                        &&& n == (SummarizerState { stage: Stage::Done, ..o })
                        &&& a == Action::Finish(
                            SummaryResult { text: t, truncated: o.stage == Stage::Reduce },
                        )
                    },
                    Reply::Failed => if o.attempt < o.config.retry_limit {
                        &&& n == (SummarizerState { attempt: o.attempt + 1, ..o })
                        &&& a is Send
                        &&& n.sends(a->Send_0)
                    } else if o.stage == Stage::Extract {
                        &&& n == o.after_chunk(None)
                        &&& a is Send
                        &&& n.sends(a->Send_0)
                    } else {
                        &&& n == (SummarizerState { stage: Stage::Done, ..o })
                        &&& a is Fail
                    },
                }
            }),
            a is Finish ==> {
                &&& final(self)@.issued == total_requests(old(self)@.token_count, old(self)@.config)
                &&& a->Finish_0.truncated == (old(self)@.token_count
                    > old(self)@.config.single_shot_budget)
            },
            a is Fail ==> old(self)@.stage != Stage::Extract,
            final(self)@.stage == Stage::Done <==> (a is Finish || a is Fail),
    {
        match reply {
            Reply::Text(t) => {
                if self.stage == Stage::Extract {
                    proof {
                        reveal_strlit("\n");
                        assert("\n"@ =~= seq!['\n']);
                    }
                    let ghost o = self@;
                    self.digest.append(t.as_str());
                    self.digest.append("\n");
                    assert(self.digest@ =~= o.digest + t@ + seq!['\n']);
                    assert(self@ == (SummarizerState { digest: o.digest + t@ + seq!['\n'], ..o }));
                    self.advance()
                } else {
                    let truncated = self.stage == Stage::Reduce;
                    self.stage = Stage::Done;
                    Action::Finish(SummaryResult { text: t, truncated })
                }
            },
            Reply::Failed => {
                if self.attempt < self.config.retry_limit {
                    self.attempt = self.attempt + 1;
                    Action::Send(self.request())
                } else if self.stage == Stage::Extract {
                    self.advance()
                } else {
                    self.stage = Stage::Done;
                    Action::Fail
                }
            },
        }
    }
}

} // verus!
