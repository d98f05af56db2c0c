use ollama_chat::ndjson::take_ndjson_records;
use ollama_chat::text::all_ascii_whitespace;

#[test]
fn buffers_ndjson_records_across_transport_chunks() {
    let mut buffer = b"{\"model\":\"llama\",\"message\":{\"role\":\"assistant\",\"content\":\"Hi\"},\"done\":false}\n{\"model\":\"llama\"".to_vec();

    let records = take_ndjson_records(&mut buffer);

    assert_eq!(records.len(), 1);
    assert!(buffer.starts_with(b"{\"model\":\"llama\""));

    buffer.extend_from_slice(
        b",\"message\":{\"role\":\"assistant\",\"content\":\"!\"},\"done\":true}\n",
    );
    let records = take_ndjson_records(&mut buffer);

    assert_eq!(records.len(), 1);
    assert!(buffer.is_empty());
    let response = serde_json::from_slice::<serde_json::Value>(&records[0])
        .expect("streaming record should deserialize");
    assert_eq!(response["message"]["content"], "!");
    assert_eq!(response["done"], true);
}

#[test]
fn empty_buffer_gives_no_records() {
    let mut buffer: Vec<u8> = Vec::new();
    let records = take_ndjson_records(&mut buffer);
    assert!(records.is_empty());
    assert!(buffer.is_empty());
}

#[test]
fn unterminated_bytes_stay_in_the_buffer() {
    let mut buffer = b"{\"partial\":".to_vec();
    let records = take_ndjson_records(&mut buffer);
    assert!(records.is_empty());
    assert_eq!(buffer, b"{\"partial\":".to_vec());
}

#[test]
fn every_complete_record_is_taken_in_order_with_its_newline() {
    let mut buffer = b"a\nbb\n\nccc".to_vec();
    let records = take_ndjson_records(&mut buffer);
    assert_eq!(
        records,
        vec![b"a\n".to_vec(), b"bb\n".to_vec(), b"\n".to_vec()]
    );
    assert_eq!(buffer, b"ccc".to_vec());
}

#[test]
fn taking_again_from_the_rest_gives_nothing() {
    let mut buffer = b"x\ny".to_vec();
    let first = take_ndjson_records(&mut buffer);
    assert_eq!(first.len(), 1);
    let second = take_ndjson_records(&mut buffer);
    assert!(second.is_empty());
    assert_eq!(buffer, b"y".to_vec());
}

#[test]
fn records_do_not_depend_on_where_chunks_were_cut() {
    let whole = b"one\ntwo\nthree\nfo".to_vec();

    let mut at_once = whole.clone();
    let all = take_ndjson_records(&mut at_once);

    for cut in 0..=whole.len() {
        let mut buffer = whole[..cut].to_vec();
        let mut records = take_ndjson_records(&mut buffer);
        buffer.extend_from_slice(&whole[cut..]);
        records.extend(take_ndjson_records(&mut buffer));
        assert_eq!(records, all);
        assert_eq!(buffer, at_once);
    }
    assert_eq!(at_once, b"fo".to_vec());
}

#[test]
fn blank_records_are_recognised() {
    assert!(all_ascii_whitespace(b""));
    assert!(all_ascii_whitespace(b" \t\r\n\x0C"));
    assert!(!all_ascii_whitespace(b"\x0B"));
    assert!(!all_ascii_whitespace(b"  {}\n"));
}
