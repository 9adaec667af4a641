use voicebridge::coordinator::{drive, EntityVelocity, VELOCITY_DELTA};
use voicebridge::link::{AudioReceiver, TranscriptReceiver};

struct Rig {
    audio_tx: crossbeam_channel::Sender<Vec<i64>>,
    audio: AudioReceiver,
    inbound_tx: crossbeam_channel::Sender<tungstenite::Message>,
    transcripts: TranscriptReceiver,
}

fn rig() -> Rig {
    let (audio_tx, audio_rx) = crossbeam_channel::unbounded::<Vec<i64>>();
    let (inbound_tx, inbound_rx) = crossbeam_channel::unbounded::<tungstenite::Message>();
    Rig {
        audio_tx,
        audio: AudioReceiver::new(audio_rx),
        inbound_tx,
        transcripts: TranscriptReceiver::new(inbound_rx),
    }
}

/// Driving a tick with all queues empty mutates no entity and produces
/// no network traffic.
#[test]
fn drive_on_empty_queues_changes_nothing() {
    let mut r = rig();
    let mut entities = vec![EntityVelocity { x: 17, y: -5 }];
    let outbound = drive(&mut r.audio, &mut r.transcripts, &mut entities);
    assert_eq!(outbound, Vec::<Vec<u8>>::new());
    assert_eq!(entities, vec![EntityVelocity { x: 17, y: -5 }]);
}

/// An injected all-zero audio frame comes back out as exactly one PCM
/// buffer of twice as many zero bytes.
#[test]
fn drive_converts_zero_frame() {
    let mut r = rig();
    let mut entities = vec![EntityVelocity { x: 0, y: 0 }];
    r.audio_tx.send(vec![0i64; 6]).unwrap();
    let outbound = drive(&mut r.audio, &mut r.transcripts, &mut entities);
    assert_eq!(outbound, vec![vec![0u8; 12]]);
    assert_eq!(entities, vec![EntityVelocity { x: 0, y: 0 }]);
}

/// Frames drain in arrival order, one PCM buffer each.
#[test]
fn drive_keeps_frame_order() {
    let mut r = rig();
    let mut entities: Vec<EntityVelocity> = Vec::new();
    r.audio_tx.send(vec![1i64]).unwrap();
    r.audio_tx.send(vec![-1i64, 32768]).unwrap();
    let outbound = drive(&mut r.audio, &mut r.transcripts, &mut entities);
    assert_eq!(outbound, vec![vec![1u8, 0u8], vec![255u8, 255u8, 255u8, 127u8]]);
}

/// An inbound "please go left" lowers horizontal velocity by exactly the
/// fixed delta and leaves vertical velocity unchanged.
#[test]
fn drive_applies_left_transcript() {
    let mut r = rig();
    let mut entities = vec![EntityVelocity { x: 7, y: 9 }];
    r.inbound_tx
        .send(tungstenite::Message::text("please go left"))
        .unwrap();
    let outbound = drive(&mut r.audio, &mut r.transcripts, &mut entities);
    assert_eq!(outbound, Vec::<Vec<u8>>::new());
    assert_eq!(entities, vec![EntityVelocity { x: 7 - VELOCITY_DELTA, y: 9 }]);
}

/// "up" then "down" in the same tick leaves the net vertical velocity
/// unchanged.
#[test]
fn drive_up_then_down_nets_zero() {
    let mut r = rig();
    let mut entities = vec![EntityVelocity { x: 3, y: 4 }];
    r.inbound_tx.send(tungstenite::Message::text("up")).unwrap();
    r.inbound_tx.send(tungstenite::Message::text("down")).unwrap();
    drive(&mut r.audio, &mut r.transcripts, &mut entities);
    assert_eq!(entities, vec![EntityVelocity { x: 3, y: 4 }]);
}

/// "right" in two consecutive ticks adds the delta twice: control events
/// are additive, not idempotent, across ticks.
#[test]
fn drive_accumulates_across_ticks() {
    let mut r = rig();
    let mut entities = vec![EntityVelocity { x: 0, y: 0 }];

    r.inbound_tx.send(tungstenite::Message::text("right")).unwrap();
    drive(&mut r.audio, &mut r.transcripts, &mut entities);
    assert_eq!(entities, vec![EntityVelocity { x: VELOCITY_DELTA, y: 0 }]);

    r.inbound_tx.send(tungstenite::Message::text("right")).unwrap();
    drive(&mut r.audio, &mut r.transcripts, &mut entities);
    assert_eq!(entities, vec![EntityVelocity { x: 2 * VELOCITY_DELTA, y: 0 }]);
}

/// Each event applies to every controllable entity; non-text frames are
/// ignored.
#[test]
fn drive_applies_to_all_entities() {
    let mut r = rig();
    let mut entities = vec![
        EntityVelocity { x: 0, y: 0 },
        EntityVelocity { x: 10, y: -10 },
    ];
    r.inbound_tx
        .send(tungstenite::Message::binary(vec![9u8]))
        .unwrap();
    r.inbound_tx
        .send(tungstenite::Message::text("up and down and up again"))
        .unwrap();
    drive(&mut r.audio, &mut r.transcripts, &mut entities);
    assert_eq!(
        entities,
        vec![
            EntityVelocity { x: 0, y: 0 },
            EntityVelocity { x: 10, y: -10 },
        ]
    );

    r.inbound_tx.send(tungstenite::Message::text("right")).unwrap();
    drive(&mut r.audio, &mut r.transcripts, &mut entities);
    assert_eq!(
        entities,
        vec![
            EntityVelocity { x: VELOCITY_DELTA, y: 0 },
            EntityVelocity { x: 10 + VELOCITY_DELTA, y: -10 },
        ]
    );
}

/// The connect-protocol constants the link is built from.
#[test]
fn connect_protocol_strings() {
    assert_eq!(
        voicebridge::link::endpoint_url(),
        "wss://api.deepgram.com/v1/listen?encoding=linear16&sample_rate=44100&channels=1"
    );
    assert_eq!(voicebridge::link::auth_header_value("abc123"), "Token abc123");
}
