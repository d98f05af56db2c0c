use ollama_chat::ollama::{OllamaChatMessage, OllamaChatResponse};
use ollama_chat::session::{
    error_response, Phase, StreamAction, StreamEvent, StreamSession, StreamingChatRequest,
    StreamingChatResponse,
};

fn request(id: &str, model: &str, message: &str) -> StreamingChatRequest {
    StreamingChatRequest {
        request_id: id.to_owned(),
        model: model.to_owned(),
        message: message.to_owned(),
    }
}

fn opened() -> StreamSession {
    let (session, chat) = StreamSession::open(request(" request-1 ", " llama3.2:latest ", " Hello "))
        .expect("the request is valid");
    assert_eq!(chat.model, "llama3.2:latest");
    assert_eq!(chat.messages.len(), 1);
    assert_eq!(chat.messages[0].role, "user");
    assert_eq!(chat.messages[0].content, "Hello");
    assert!(chat.stream);
    assert_eq!(session.phase(), Phase::Connecting);
    session
}

fn reading() -> StreamSession {
    let mut session = opened();
    assert!(matches!(session.step(StreamEvent::Connected), StreamAction::ReadChunk));
    session
}

fn parsed(content: &str, done: bool) -> StreamEvent {
    StreamEvent::Parsed(OllamaChatResponse {
        model: "llama".to_owned(),
        message: OllamaChatMessage {
            role: "assistant".to_owned(),
            content: content.to_owned(),
        },
        done,
    })
}

fn expect_failure(action: StreamAction, message: &str) -> StreamingChatResponse {
    match action {
        StreamAction::Finish(r) => {
            assert_eq!(r.request_id, "request-1");
            assert_eq!(r.model, "llama3.2:latest");
            assert_eq!(r.content, "");
            assert!(r.done);
            assert_eq!(r.error.as_deref(), Some(message));
            r
        }
        other => panic!("expected a failure, got {:?}", other),
    }
}

fn expect_parse(action: StreamAction) -> Vec<u8> {
    match action {
        StreamAction::Parse(record) => record,
        other => panic!("expected a record to parse, got {:?}", other),
    }
}

fn expect_deliver(action: StreamAction) -> StreamingChatResponse {
    match action {
        StreamAction::Deliver(r) => r,
        other => panic!("expected a response to deliver, got {:?}", other),
    }
}

#[test]
fn terminal_error_response_fields() {
    let r = error_response("request-1", "llama3.2:latest", "Ollama is unavailable".to_owned());
    assert_eq!(r.request_id, "request-1");
    assert_eq!(r.model, "llama3.2:latest");
    assert_eq!(r.content, "");
    assert!(r.done);
    assert_eq!(r.error.as_deref(), Some("Ollama is unavailable"));
}

#[test]
fn blank_request_id_is_refused_first() {
    let r = StreamSession::open(request("  ", " m ", "")).err().expect("refused");
    assert_eq!(r.request_id, "");
    assert_eq!(r.model, "m");
    assert!(r.done);
    assert_eq!(
        r.error.as_deref(),
        Some("A request ID is required for streaming chat.")
    );
}

#[test]
fn blank_stream_model_is_refused() {
    let r = StreamSession::open(request("id", "\t", "hi")).err().expect("refused");
    assert_eq!(r.request_id, "id");
    assert_eq!(
        r.error.as_deref(),
        Some("Select an Ollama model before sending a chat message.")
    );
}

#[test]
fn blank_stream_message_is_refused() {
    let r = StreamSession::open(request("id", "m", " \n ")).err().expect("refused");
    assert_eq!(
        r.error.as_deref(),
        Some("Enter a chat message before sending it.")
    );
}

#[test]
fn connection_failures_end_the_stream() {
    let mut s = opened();
    expect_failure(
        s.step(StreamEvent::ClientUnavailable("bad tls".to_owned())),
        "Could not configure the Ollama client: bad tls",
    );
    assert_eq!(s.phase(), Phase::Closed);
    assert!(!s.accepts(&StreamEvent::Connected));

    let mut s = opened();
    expect_failure(
        s.step(StreamEvent::ConnectFailed("refused".to_owned())),
        "Could not connect to Ollama at 127.0.0.1:11434. Make sure Ollama is running: refused",
    );

    let mut s = opened();
    expect_failure(
        s.step(StreamEvent::StatusFailed("500".to_owned())),
        "Ollama returned an unsuccessful response: 500",
    );
}

#[test]
fn records_are_parsed_delivered_and_closed_after_done() {
    let mut s = reading();
    let chunk = b"{\"a\":1}\n\n  \n{\"b\":2}\n{\"c\"".to_vec();
    let record = expect_parse(s.step(StreamEvent::Chunk(chunk)));
    assert_eq!(record, b"{\"a\":1}\n".to_vec());
    assert_eq!(s.phase(), Phase::Parsing);
    assert!(s.accepts(&StreamEvent::Unreadable(String::new())));
    assert!(!s.accepts(&StreamEvent::Ended));

    let r = expect_deliver(s.step(parsed("Hi", false)));
    assert_eq!(r.request_id, "request-1");
    assert_eq!(r.model, "llama");
    assert_eq!(r.content, "Hi");
    assert!(!r.done);
    assert_eq!(r.error, None);

    // the blank records in between are skipped
    let record = expect_parse(s.step(StreamEvent::Delivered));
    assert_eq!(record, b"{\"b\":2}\n".to_vec());

    let r = expect_deliver(s.step(parsed("!", true)));
    assert!(r.done);
    assert!(matches!(s.step(StreamEvent::Delivered), StreamAction::Close));
    assert_eq!(s.phase(), Phase::Closed);
}

#[test]
fn a_record_cut_across_chunks_is_parsed_once_whole() {
    let mut s = reading();
    assert!(matches!(
        s.step(StreamEvent::Chunk(b"{\"model\":".to_vec())),
        StreamAction::ReadChunk
    ));
    let record = expect_parse(s.step(StreamEvent::Chunk(b"\"llama\"}\n".to_vec())));
    assert_eq!(record, b"{\"model\":\"llama\"}\n".to_vec());
}

#[test]
fn more_bytes_are_read_after_the_last_record_of_a_chunk() {
    let mut s = reading();
    expect_parse(s.step(StreamEvent::Chunk(b"{}\n".to_vec())));
    expect_deliver(s.step(parsed("part", false)));
    assert!(matches!(s.step(StreamEvent::Delivered), StreamAction::ReadChunk));
    assert_eq!(s.phase(), Phase::Reading);
}

#[test]
fn an_unterminated_last_record_is_parsed_at_the_end() {
    let mut s = reading();
    assert!(matches!(
        s.step(StreamEvent::Chunk(b"{\"done\":true}".to_vec())),
        StreamAction::ReadChunk
    ));
    let record = expect_parse(s.step(StreamEvent::Ended));
    assert_eq!(record, b"{\"done\":true}".to_vec());
    expect_deliver(s.step(parsed("", true)));
    assert!(matches!(s.step(StreamEvent::Delivered), StreamAction::Close));
}

#[test]
fn ending_without_a_done_record_is_a_failure() {
    let mut s = reading();
    assert!(matches!(
        s.step(StreamEvent::Chunk(b"  \r\n \t".to_vec())),
        StreamAction::ReadChunk
    ));
    expect_failure(
        s.step(StreamEvent::Ended),
        "Ollama ended the streaming response without a completion record.",
    );

    let mut s = reading();
    expect_parse(s.step(StreamEvent::Chunk(b"{}\n".to_vec())));
    expect_deliver(s.step(parsed("x", false)));
    assert!(matches!(s.step(StreamEvent::Delivered), StreamAction::ReadChunk));
    expect_failure(
        s.step(StreamEvent::Ended),
        "Ollama ended the streaming response without a completion record.",
    );

    let mut s = reading();
    assert!(matches!(
        s.step(StreamEvent::Chunk(b"{}".to_vec())),
        StreamAction::ReadChunk
    ));
    expect_parse(s.step(StreamEvent::Ended));
    expect_deliver(s.step(parsed("x", false)));
    expect_failure(
        s.step(StreamEvent::Delivered),
        "Ollama ended the streaming response without a completion record.",
    );
}

#[test]
fn read_parse_and_delivery_failures_end_the_stream() {
    let mut s = reading();
    expect_failure(
        s.step(StreamEvent::ReadFailed("reset".to_owned())),
        "Could not read Ollama's streaming response: reset",
    );

    let mut s = reading();
    expect_parse(s.step(StreamEvent::Chunk(b"nonsense\n".to_vec())));
    expect_failure(
        s.step(StreamEvent::Unreadable("expected value".to_owned())),
        "Could not read Ollama's streaming chat response: expected value",
    );

    let mut s = reading();
    expect_parse(s.step(StreamEvent::Chunk(b"{}\n".to_vec())));
    expect_deliver(s.step(parsed("x", true)));
    expect_failure(
        s.step(StreamEvent::Undelivered),
        "Could not deliver Ollama's streaming response to the frontend.",
    );
}

#[test]
fn two_chunks_are_handled_as_one() {
    let first = b"\n  \n{\"mod".to_vec();
    let second = b"el\":1}\n{\"x\"".to_vec();

    let mut split = reading();
    assert!(matches!(
        split.step(StreamEvent::Chunk(first.clone())),
        StreamAction::ReadChunk
    ));
    let from_split = expect_parse(split.step(StreamEvent::Chunk(second.clone())));

    let mut whole = reading();
    let mut both = first;
    both.extend_from_slice(&second);
    let from_whole = expect_parse(whole.step(StreamEvent::Chunk(both)));

    assert_eq!(from_split, from_whole);
    assert_eq!(from_whole, b"{\"model\":1}\n".to_vec());
    assert_eq!(split.phase(), whole.phase());
}

/// Runs a streamed chat over `chunks`, parsing records with serde_json and
/// delivering every response, and returns what reached the user interface.
fn run_stream(chunks: Vec<Vec<u8>>) -> Vec<StreamingChatResponse> {
    let (mut session, _) =
        StreamSession::open(request("r1", "llama", "Hi")).expect("the request is valid");
    let mut chunks = chunks.into_iter();
    let mut sent = Vec::new();
    let mut event = StreamEvent::Connected;
    loop {
        assert!(session.accepts(&event));
        event = match session.step(event) {
            StreamAction::ReadChunk => match chunks.next() {
                Some(c) => StreamEvent::Chunk(c),
                None => StreamEvent::Ended,
            },
            StreamAction::Parse(record) => {
                match serde_json::from_slice::<serde_json::Value>(&record) {
                    Ok(v) => StreamEvent::Parsed(OllamaChatResponse {
                        model: v["model"].as_str().unwrap_or("").to_owned(),
                        message: OllamaChatMessage {
                            role: v["message"]["role"].as_str().unwrap_or("").to_owned(),
                            content: v["message"]["content"].as_str().unwrap_or("").to_owned(),
                        },
                        done: v["done"].as_bool().unwrap_or(false),
                    }),
                    Err(e) => StreamEvent::Unreadable(e.to_string()),
                }
            }
            StreamAction::Deliver(r) => {
                sent.push(r);
                StreamEvent::Delivered
            }
            StreamAction::Finish(r) => {
                sent.push(r);
                return sent;
            }
            StreamAction::Close => return sent,
        };
    }
}

#[test]
fn stream_sends_one_done_response_last() {
    let a = br#"{"model":"llama","message":{"role":"assistant","content":"Hi"},"done":false}"#;
    let mut first = a.to_vec();
    first.extend_from_slice(b"\n{\"model\":\"llama\"");
    let second = b",\"message\":{\"role\":\"assistant\",\"content\":\"!\"},\"done\":true}\n".to_vec();
    let sent = run_stream(vec![first, second]);
    assert_eq!(sent.len(), 2);
    assert_eq!(sent[0].request_id, "r1");
    assert_eq!(sent[0].content, "Hi");
    assert!(!sent[0].done);
    assert_eq!(sent[1].content, "!");
    assert!(sent[1].done);
    assert_eq!(sent[1].error, None);
}

#[test]
fn records_after_the_done_record_are_not_sent() {
    let chunk = br#"{"model":"llama","message":{"role":"assistant","content":"Hi"},"done":true}
{"model":"llama","message":{"role":"assistant","content":"x"},"done":false}
"#
    .to_vec();
    let sent = run_stream(vec![chunk]);
    assert_eq!(sent.len(), 1);
    assert_eq!(sent[0].content, "Hi");
    assert!(sent[0].done);
}

#[test]
fn an_unreadable_record_sends_one_failure() {
    let sent = run_stream(vec![b"oops\n".to_vec()]);
    assert_eq!(sent.len(), 1);
    assert!(sent[0].done);
    assert_eq!(sent[0].model, "llama");
    assert!(sent[0]
        .error
        .as_deref()
        .unwrap()
        .starts_with("Could not read Ollama's streaming chat response: "));
}

#[test]
fn records_never_done_end_with_the_no_completion_failure() {
    let chunk = br#"{"model":"llama","message":{"role":"assistant","content":"a"},"done":false}
{"model":"llama","message":{"role":"assistant","content":"b"},"done":false}"#
        .to_vec();
    let sent = run_stream(vec![chunk]);
    assert_eq!(sent.len(), 3);
    assert_eq!(sent[0].content, "a");
    assert_eq!(sent[1].content, "b");
    assert!(!sent[1].done);
    assert_eq!(
        sent[2].error.as_deref(),
        Some("Ollama ended the streaming response without a completion record.")
    );
}
