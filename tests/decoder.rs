use llama_rag::decoder::{classify_frame, FrameSignal, Phase, StreamDecoder, TurnEvent};
use llama_rag::framing::JsonFramer;

const PARIS: &str = r#"{"choices":[{"delta":{"content":"Paris"},"finish_reason":null}]}"#;
const STOP: &str = r#"{"choices":[{"delta":{"content":""},"finish_reason":"stop"}]}"#;

fn render(events: &[TurnEvent]) -> String {
    let mut s = String::new();
    for e in events {
        if let TurnEvent::Text(t) = e {
            s.push_str(t);
        }
    }
    s
}

fn feed_pieces(bytes: &[u8], cuts: &[usize]) -> (Vec<TurnEvent>, Phase) {
    let mut d = StreamDecoder::new();
    let mut out = Vec::new();
    let mut start = 0;
    for &c in cuts.iter().chain(std::iter::once(&bytes.len())) {
        out.extend(d.feed(&bytes[start..c]));
        start = c;
    }
    (out, d.phase())
}

fn describe(events: &[TurnEvent]) -> Vec<String> {
    events
        .iter()
        .map(|e| match e {
            TurnEvent::Text(t) => format!("text:{}", t),
            TurnEvent::Skipped => "skipped".to_string(),
            TurnEvent::Violation(r) => format!("violation:{}", r),
        })
        .collect()
}

#[test]
fn end_to_end_stream_renders_paris() {
    let stream = format!("{}{}", PARIS, STOP);
    let (events, phase) = feed_pieces(stream.as_bytes(), &[]);
    assert_eq!(render(&events), "Paris");
    assert_eq!(events.len(), 1);
    assert_eq!(phase, Phase::Done);
}

#[test]
fn split_points_do_not_change_output() {
    let stream = format!(
        "{}\n{}{}{}",
        r#"{"choices":[{"delta":{"content":" Hello"},"finish_reason":null}]}"#,
        r#"{"choices":[{"delta":{"content":" wor}l\"d{"},"finish_reason":null}]}"#,
        r#"not-json "#,
        r#"{"choices":[{"delta":{"content":"!"},"finish_reason":"length"}]}"#
    );
    let bytes = stream.as_bytes();
    let (whole, whole_phase) = feed_pieces(bytes, &[]);
    assert_eq!(
        describe(&whole),
        vec!["text:Hello", "text: wor}l\"d{", "skipped", "text:!"]
    );
    assert_eq!(whole_phase, Phase::Done);
    let every_byte: Vec<usize> = (1..bytes.len()).collect();
    let (bytewise, bytewise_phase) = feed_pieces(bytes, &every_byte);
    assert_eq!(describe(&bytewise), describe(&whole));
    assert_eq!(bytewise_phase, whole_phase);
    for step in [2usize, 3, 7, 13, 50] {
        let cuts: Vec<usize> = (1..bytes.len()).filter(|i| i % step == 0).collect();
        let (ev, p) = feed_pieces(bytes, &cuts);
        assert_eq!(describe(&ev), describe(&whole));
        assert_eq!(p, whole_phase);
    }
}

#[test]
fn stop_without_fragment_emits_nothing_more() {
    let stream = format!("{}{}{}", PARIS, STOP, PARIS);
    let (events, phase) = feed_pieces(stream.as_bytes(), &[]);
    assert_eq!(describe(&events), vec!["text:Paris"]);
    assert_eq!(phase, Phase::Done);
}

#[test]
fn length_emits_trailing_fragment_once() {
    let length = r#"{"choices":[{"delta":{"content":" tail"},"finish_reason":"length"}]}"#;
    let stream = format!("{}{}{}", PARIS, length, PARIS);
    let (events, phase) = feed_pieces(stream.as_bytes(), &[10, 80]);
    assert_eq!(describe(&events), vec!["text:Paris", "text: tail"]);
    assert_eq!(phase, Phase::Done);
}

#[test]
fn unknown_reason_is_a_violation_for_this_turn_only() {
    let odd = r#"{"choices":[{"delta":{"content":"x"},"finish_reason":"tool_calls"}]}"#;
    let stream = format!("{}{}{}", PARIS, odd, PARIS);
    let (events, phase) = feed_pieces(stream.as_bytes(), &[]);
    assert_eq!(describe(&events), vec!["text:Paris", "violation:tool_calls"]);
    assert_eq!(phase, Phase::Failed);
    let (next, next_phase) = feed_pieces(format!("{}{}", PARIS, STOP).as_bytes(), &[]);
    assert_eq!(describe(&next), vec!["text:Paris"]);
    assert_eq!(next_phase, Phase::Done);
}

#[test]
fn malformed_values_are_skipped() {
    let stream = format!("{}{}{}{}", r#"{"other":1}"#, r#"{"choices":[1,]}"#, PARIS, STOP);
    let (events, phase) = feed_pieces(stream.as_bytes(), &[]);
    assert_eq!(describe(&events), vec!["skipped", "skipped", "text:Paris"]);
    assert_eq!(phase, Phase::Done);
}

#[test]
fn only_first_nonempty_fragment_is_trimmed() {
    let empty = r#"{"choices":[{"delta":{"content":""},"finish_reason":null}]}"#;
    let a = r#"{"choices":[{"delta":{"content":"  Hi"},"finish_reason":null}]}"#;
    let b = r#"{"choices":[{"delta":{"content":" there"},"finish_reason":null}]}"#;
    let stream = format!("{}{}{}", empty, a, b);
    let (events, phase) = feed_pieces(stream.as_bytes(), &[]);
    assert_eq!(describe(&events), vec!["text:Hi", "text: there"]);
    assert_eq!(phase, Phase::Streaming);
}

#[test]
fn end_of_stream_without_reason_keeps_fragments() {
    let (events, phase) = feed_pieces(PARIS.as_bytes(), &[5]);
    assert_eq!(render(&events), "Paris");
    assert_eq!(phase, Phase::Streaming);
}

#[test]
fn missing_content_is_an_empty_fragment() {
    let v = r#"{"choices":[{"delta":{},"finish_reason":null}]}"#;
    match classify_frame(v.as_bytes()) {
        FrameSignal::Fragment(s) => assert_eq!(s, ""),
        _ => panic!("expected a fragment"),
    }
    let (events, _) = feed_pieces(v.as_bytes(), &[]);
    assert!(events.is_empty());
}

#[test]
fn classify_reads_reasons() {
    assert!(matches!(classify_frame(STOP.as_bytes()), FrameSignal::Stop));
    let l = r#"{"choices":[{"delta":{"content":"z"},"finish_reason":"length"}]}"#;
    match classify_frame(l.as_bytes()) {
        FrameSignal::Length(s) => assert_eq!(s, "z"),
        _ => panic!("expected length"),
    }
    let n = r#"{"choices":[{"delta":{"content":"z"},"finish_reason":7}]}"#;
    assert!(matches!(classify_frame(n.as_bytes()), FrameSignal::Malformed));
    assert!(matches!(classify_frame(b"{\"choices\":[]}"), FrameSignal::Malformed));
    assert!(matches!(classify_frame(b"{"), FrameSignal::Malformed));
}

#[test]
fn framer_splits_concatenated_values() {
    let mut f = JsonFramer::new();
    let mut out = f.push(b" {\"a\":[1,{\"b\":\"]}\"}]}[2] \"s\\\"}\"12");
    out.extend(f.push(b" {"));
    let texts: Vec<String> = out.iter().map(|v| String::from_utf8(v.clone()).unwrap()).collect();
    assert_eq!(
        texts,
        vec!["{\"a\":[1,{\"b\":\"]}\"}]}", "[2]", "\"s\\\"}\"", "12"]
    );
    assert_eq!(f.pending_len(), 1);
}
