use hn_summarizer::{
    structured_block, summary_or_placeholder, Action, PromptKind, Reply, Request, Stage,
    SummaryConfig, Summarizer, PLACEHOLDER,
};

fn cfg(single: usize, chunk: usize, retries: u32) -> SummaryConfig {
    SummaryConfig { single_shot_budget: single, chunk_budget: chunk, retry_limit: retries }
}

fn text_of(n: usize) -> String {
    (0..n).map(|i| format!("t{}", i)).collect::<Vec<_>>().join("  ")
}

/// Runs the machine, answering every request through `answer`; returns the
/// requests sent and the final action.
fn drive(
    text: &str,
    c: SummaryConfig,
    mut answer: impl FnMut(&Request) -> Reply,
) -> (Vec<Request>, Action) {
    let (mut m, first) = Summarizer::begin(text, c, "task#1".to_string());
    let mut sent = vec![first];
    loop {
        let reply = answer(sent.last().unwrap());
        match m.step(reply) {
            Action::Send(r) => sent.push(r),
            done => {
                assert_eq!(m.stage(), Stage::Done);
                return (sent, done);
            }
        }
    }
}

#[test]
fn short_text_takes_one_request() {
    let (sent, done) = drive("a  b\nc", cfg(10, 4, 3), |_| Reply::Text("S".to_string()));
    assert_eq!(sent.len(), 1);
    assert_eq!(sent[0].kind, PromptKind::Direct);
    assert_eq!(sent[0].prompt, "Summarize this within 100 words: a b c");
    assert_eq!(sent[0].conversation, "task#1");
    assert_eq!(sent[0].attempt, 0);
    match done {
        Action::Finish(r) => {
            assert_eq!(r.text, "S");
            assert!(!r.truncated);
        }
        _ => panic!("expected a summary"),
    }
}

#[test]
fn text_at_budget_is_single_shot() {
    let (sent, done) = drive(&text_of(10), cfg(10, 3, 0), |_| Reply::Text("S".to_string()));
    assert_eq!(sent.len(), 1);
    assert!(matches!(done, Action::Finish(r) if !r.truncated));
}

#[test]
fn long_text_takes_chunks_plus_one_requests() {
    let (sent, done) = drive(&text_of(11), cfg(10, 3, 3), |r| match r.kind {
        PromptKind::Extract => Reply::Text(format!("n{}", r.prompt.len() % 10)),
        _ => Reply::Text("FINAL".to_string()),
    });
    // ceil(11 / 3) = 4 chunks, then one reduce.
    assert_eq!(sent.len(), 5);
    assert!(sent[..4].iter().all(|r| r.kind == PromptKind::Extract));
    assert_eq!(
        sent[0].prompt,
        "Extract the key information from this segment of an article: t0 t1 t2"
    );
    assert_eq!(
        sent[3].prompt,
        "Extract the key information from this segment of an article: t9 t10"
    );
    assert_eq!(sent[4].kind, PromptKind::Reduce);
    assert!(sent[4].prompt.starts_with(
        "Produce a final concise summary within 100 words from these extracted notes: "
    ));
    match done {
        Action::Finish(r) => {
            assert_eq!(r.text, "FINAL");
            assert!(r.truncated);
        }
        _ => panic!("expected a summary"),
    }
}

#[test]
fn digest_keeps_chunk_order() {
    let mut k = 0;
    let (sent, _) = drive(&text_of(6), cfg(2, 2, 0), |r| match r.kind {
        PromptKind::Extract => {
            k += 1;
            Reply::Text(format!("note{}", k))
        }
        _ => Reply::Text("F".to_string()),
    });
    assert_eq!(
        sent.last().unwrap().prompt,
        "Produce a final concise summary within 100 words from these extracted notes: note1\nnote2\nnote3\n"
    );
}

#[test]
fn failed_chunk_is_dropped_and_summary_completes() {
    let (sent, done) = drive(&text_of(6), cfg(2, 2, 2), |r| {
        if r.kind == PromptKind::Extract && r.prompt.ends_with("t2 t3") {
            Reply::Failed
        } else if r.kind == PromptKind::Extract {
            Reply::Text(format!("[{}]", &r.prompt[r.prompt.len() - 5..]))
        } else {
            Reply::Text("F".to_string())
        }
    });
    // 3 chunks, the middle one sent 1 + 2 times, then the reduce.
    assert_eq!(sent.len(), 6);
    assert_eq!(sent[1].attempt, 0);
    assert_eq!(sent[2].attempt, 1);
    assert_eq!(sent[3].attempt, 2);
    assert_eq!(sent[2].prompt, sent[1].prompt);
    assert_eq!(
        sent[5].prompt,
        "Produce a final concise summary within 100 words from these extracted notes: [t0 t1]\n[t4 t5]\n"
    );
    assert!(matches!(done, Action::Finish(r) if r.text == "F" && r.truncated));
}

#[test]
fn retried_request_that_recovers_succeeds() {
    let mut failures = 2;
    let (sent, done) = drive("x y", cfg(5, 5, 3), |_| {
        if failures > 0 {
            failures -= 1;
            Reply::Failed
        } else {
            Reply::Text("ok".to_string())
        }
    });
    assert_eq!(sent.len(), 3);
    assert_eq!(sent[2].attempt, 2);
    assert!(matches!(done, Action::Finish(r) if r.text == "ok"));
}

#[test]
fn direct_request_failing_every_retry_fails() {
    let (sent, done) = drive("x y", cfg(5, 5, 3), |_| Reply::Failed);
    assert_eq!(sent.len(), 4);
    assert!(matches!(done, Action::Fail));
}

#[test]
fn reduce_failure_fails_the_summary() {
    let (sent, done) = drive(&text_of(4), cfg(2, 2, 1), |r| match r.kind {
        PromptKind::Reduce => Reply::Failed,
        _ => Reply::Text("n".to_string()),
    });
    assert_eq!(sent.len(), 2 + 2);
    assert!(matches!(done, Action::Fail));
}

#[test]
fn every_chunk_failing_still_reaches_reduce() {
    let (sent, done) = drive(&text_of(4), cfg(2, 2, 0), |r| match r.kind {
        PromptKind::Extract => Reply::Failed,
        _ => Reply::Text("R".to_string()),
    });
    assert_eq!(sent.len(), 3);
    assert_eq!(
        sent[2].prompt,
        "Produce a final concise summary within 100 words from these extracted notes: "
    );
    assert!(matches!(done, Action::Finish(r) if r.text == "R"));
}

#[test]
fn structured_block_spans_first_open_to_last_close() {
    assert_eq!(
        structured_block("Sure! {\"summary\": \"a {b}\"} thanks}").as_deref(),
        Some("{\"summary\": \"a {b}\"} thanks}")
    );
    assert_eq!(structured_block("no block here"), None);
    assert_eq!(structured_block("} backwards {"), None);
    assert_eq!(structured_block("{}").as_deref(), Some("{}"));
}

#[test]
fn unreadable_structure_gives_placeholder() {
    assert_eq!(summary_or_placeholder(None), PLACEHOLDER);
    assert_eq!(summary_or_placeholder(Some(String::new())), PLACEHOLDER);
    assert_eq!(summary_or_placeholder(Some("fine".to_string())), "fine");
    assert!(!PLACEHOLDER.is_empty());
}
