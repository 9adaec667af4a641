use voicebridge::link::{AudioReceiver, TranscriptReceiver};

/// Pushing N frames and draining returns exactly those N frames in push
/// order; an immediately following drain returns nothing.
#[test]
fn transfer_queue_fifo_drain() {
    let (tx, rx) = crossbeam_channel::unbounded::<Vec<i64>>();
    let mut audio = AudioReceiver::new(rx);

    tx.send(vec![1, 2, 3]).unwrap();
    tx.send(vec![4]).unwrap();
    tx.send(vec![]).unwrap();

    let drained = audio.drain_frames();
    assert_eq!(drained, vec![vec![1, 2, 3], vec![4], vec![]]);

    let again = audio.drain_frames();
    assert_eq!(again, Vec::<Vec<i64>>::new());
}

/// Draining an empty transfer queue returns nothing.
#[test]
fn transfer_queue_empty_drain() {
    let (_tx, rx) = crossbeam_channel::unbounded::<Vec<i64>>();
    let mut audio = AudioReceiver::new(rx);
    assert_eq!(audio.drain_frames(), Vec::<Vec<i64>>::new());
}

/// The inbound queue hands out text payloads in arrival order and maps
/// non-text frames to nothing; a second drain returns nothing.
#[test]
fn inbound_queue_text_payloads() {
    let (tx, rx) = crossbeam_channel::unbounded::<tungstenite::Message>();
    let mut transcripts = TranscriptReceiver::new(rx);

    tx.send(tungstenite::Message::text("go up")).unwrap();
    tx.send(tungstenite::Message::binary(vec![1u8, 2u8])).unwrap();
    tx.send(tungstenite::Message::text("down")).unwrap();

    let drained = transcripts.drain_texts();
    assert_eq!(
        drained,
        vec![
            Some("go up".as_bytes().to_vec()),
            None,
            Some("down".as_bytes().to_vec()),
        ]
    );

    assert_eq!(transcripts.drain_texts(), Vec::<Option<Vec<u8>>>::new());
}
