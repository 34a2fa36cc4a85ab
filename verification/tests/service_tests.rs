use zks_core::completion_message;
use zks_core::handle_key_request;
use zks_core::parse_chunk_count;
use zks_core::parse_stream_size;
use zks_core::parse_usize;
use zks_core::random_bytes;
use zks_core::render_decimal;
use zks_core::StreamSession;
use zks_core::CHUNK_SIZE;
use zks_core::MAX_CHUNK_COUNT;

#[test]
fn parse_usize_accepts_plain_decimals() {
    assert_eq!(parse_usize("0"), Some(0));
    assert_eq!(parse_usize("5"), Some(5));
    assert_eq!(parse_usize("40000"), Some(40000));
    assert_eq!(parse_usize("+7"), Some(7));
    assert_eq!(parse_usize("18446744073709551615"), Some(usize::MAX));
}

#[test]
fn parse_usize_rejects_malformed_input() {
    assert_eq!(parse_usize(""), None);
    assert_eq!(parse_usize("+"), None);
    assert_eq!(parse_usize("abc"), None);
    assert_eq!(parse_usize("12a"), None);
    assert_eq!(parse_usize("-3"), None);
    assert_eq!(parse_usize("1 2"), None);
    assert_eq!(parse_usize("18446744073709551616"), None);
    assert_eq!(parse_usize("99999999999999999999999"), None);
}

#[test]
fn chunk_count_defaults_and_clamps() {
    assert_eq!(parse_chunk_count("5"), 5);
    assert_eq!(parse_chunk_count("0"), 0);
    assert_eq!(parse_chunk_count(""), 1);
    assert_eq!(parse_chunk_count("banana"), 1);
    assert_eq!(parse_chunk_count("8000"), MAX_CHUNK_COUNT);
    assert_eq!(parse_chunk_count("8001"), MAX_CHUNK_COUNT);
    assert_eq!(parse_chunk_count("99999999999999999999999"), 1);
}

#[test]
fn stream_size_rejects_zero_and_malformed() {
    assert_eq!(parse_stream_size("40000"), Some(40000));
    assert_eq!(parse_stream_size("0"), None);
    assert_eq!(parse_stream_size(""), None);
    assert_eq!(parse_stream_size("junk"), None);
    assert_eq!(parse_stream_size("99999999999999999999999"), None);
}

#[test]
fn bounded_request_five_chunks_is_81920_bytes() {
    let response = handle_key_request("5").expect("entropy source available");
    assert_eq!(response.chunk_count, 5);
    assert_eq!(response.chunk_size, CHUNK_SIZE);
    assert_eq!(response.data.len(), 81920);
}

#[test]
fn bounded_request_defaults_to_one_chunk() {
    let response = handle_key_request("not a number").expect("entropy source available");
    assert_eq!(response.chunk_count, 1);
    assert_eq!(response.data.len(), CHUNK_SIZE);
}

#[test]
fn stream_session_rejects_zero_total() {
    assert!(StreamSession::new(0).is_none());
}

#[test]
fn streaming_40000_bytes_is_three_frames_and_a_completion() {
    let mut session = StreamSession::new(40000).expect("positive total");
    let mut lengths = Vec::new();
    let mut yields = Vec::new();
    while !session.is_done() {
        let frame = session.next_frame().expect("entropy source available");
        lengths.push(frame.bytes.len());
        yields.push(frame.should_yield);
    }
    assert_eq!(lengths, vec![16384, 16384, 7232]);
    assert_eq!(lengths.iter().sum::<usize>(), 40000);
    assert_eq!(yields, vec![true, false, false]);

    let record = session.completion();
    assert_eq!(record.chunks, 3);
    assert_eq!(record.size, 40000);
    assert_eq!(
        completion_message(&record),
        "{\"type\":\"complete\",\"chunks\":3,\"size\":40000}"
    );
}

#[test]
fn streaming_exact_multiple_has_no_short_frame() {
    let mut session = StreamSession::new(2 * CHUNK_SIZE).expect("positive total");
    let mut lengths = Vec::new();
    while !session.is_done() {
        let frame = session.next_frame().expect("entropy source available");
        lengths.push(frame.bytes.len());
    }
    assert_eq!(lengths, vec![CHUNK_SIZE, CHUNK_SIZE]);
    let record = session.completion();
    assert_eq!(record.chunks, 2);
    assert_eq!(record.size, 2 * CHUNK_SIZE);
}

#[test]
fn streaming_single_short_frame() {
    let mut session = StreamSession::new(100).expect("positive total");
    let frame = session.next_frame().expect("entropy source available");
    assert_eq!(frame.bytes.len(), 100);
    assert!(frame.should_yield);
    assert!(session.is_done());
    let record = session.completion();
    assert_eq!(record.chunks, 1);
    assert_eq!(record.size, 100);
}

#[test]
fn yields_every_tenth_chunk() {
    let mut session = StreamSession::new(25 * CHUNK_SIZE).expect("positive total");
    let mut yields = Vec::new();
    while !session.is_done() {
        let frame = session.next_frame().expect("entropy source available");
        yields.push(frame.should_yield);
    }
    assert_eq!(yields.len(), 25);
    for (i, y) in yields.iter().enumerate() {
        assert_eq!(*y, i % 10 == 0);
    }
}

#[test]
fn render_decimal_exact_digits() {
    assert_eq!(render_decimal(0), "0");
    assert_eq!(render_decimal(7), "7");
    assert_eq!(render_decimal(10), "10");
    assert_eq!(render_decimal(40000), "40000");
    assert_eq!(render_decimal(1234567890), "1234567890");
}

#[test]
fn random_bytes_has_requested_length() {
    assert_eq!(random_bytes(0).len(), 0);
    assert_eq!(random_bytes(1).len(), 1);
    assert_eq!(random_bytes(4096).len(), 4096);
}

#[test]
fn random_bytes_sanity() {
    let sample = random_bytes(4096);
    assert!(sample.len() >= 1000);
    assert!(sample.iter().any(|&b| b != 0));

    let mut seen = [false; 256];
    for &b in &sample {
        seen[b as usize] = true;
    }
    let distinct = seen.iter().filter(|&&s| s).count();
    assert!(distinct > 64, "only {} distinct byte values", distinct);

    let other = random_bytes(4096);
    assert_ne!(sample, other);
}
