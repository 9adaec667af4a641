//! The queues that decouple the bridge's concurrency domains.
//!
//! The audio capture thread and the inbound network task each write to an
//! unbounded channel; the tick coordinator is the sole consumer of both and
//! drains them without waiting.  The channels themselves come from
//! `crossbeam_channel`; their contents are named here and every method the
//! bridge calls is stated over those names.

use vstd::prelude::*;

verus! {

#[verifier::external_type_specification]
#[verifier::external_body]
#[verifier::reject_recursive_types(T)]
pub struct ExReceiver<T>(crossbeam_channel::Receiver<T>);

#[verifier::external_type_specification]
#[verifier::external_body]
pub struct ExMessage(tungstenite::Message);

/// The audio frames currently queued on the capture-to-tick transfer
/// channel, oldest first; each frame is one hardware callback's worth of
/// fixed-point samples.
pub uninterp spec fn frames_of(rx: crossbeam_channel::Receiver<Vec<i64>>) -> Seq<Seq<i64>>;

/// The websocket messages currently queued on the link-to-tick inbound
/// channel, oldest first, each mapped to its text payload as UTF-8 bytes
/// (`None` for a non-text frame).
pub uninterp spec fn texts_of(rx: crossbeam_channel::Receiver<tungstenite::Message>) -> Seq<
    Option<Seq<u8>>,
>;

/// The streaming endpoint the link connects to, with the audio-format
/// query parameters the bridge's PCM buffers are encoded for: 16-bit
/// linear PCM at 44100 Hz on one channel.
pub fn endpoint_url() -> (r: String)
    ensures
        r@ == "wss://api.deepgram.com/v1/listen?encoding=linear16&sample_rate=44100&channels=1"@,
{
    String::from_str(
        "wss://api.deepgram.com/v1/listen?encoding=linear16&sample_rate=44100&channels=1",
    )
}

/// The authorization header value the connect request carries: the fixed
/// scheme word "Token", one space, and the credential read from the
/// process environment.
pub fn auth_header_value(key: &str) -> (r: String)
    ensures
        r@ == "Token "@ + key@,
{
    String::from_str("Token ").concat(key)
}

/// The payload view of one drained inbound message.
pub open spec fn text_view(m: Option<Vec<u8>>) -> Option<Seq<u8>> {
    match m {
        Option::Some(v) => Option::Some(v@),
        Option::None => Option::None,
    }
}

/// The consuming half of the capture-to-tick transfer queue.  The capture
/// side owns the sending half and is its sole writer; the tick coordinator
/// is the sole reader.
pub struct AudioReceiver {
    rx: crossbeam_channel::Receiver<Vec<i64>>,
}

impl AudioReceiver {
    /// The frames currently queued, oldest first.
    pub closed spec fn frames(self) -> Seq<Seq<i64>> {
        frames_of(self.rx)
    }

    /// Wraps the receiving half of the transfer channel.
    pub fn new(rx: crossbeam_channel::Receiver<Vec<i64>>) -> (r: AudioReceiver)
        ensures
            r.frames() == frames_of(rx),
    {
        AudioReceiver { rx }
    }

    /// Relies on crossbeam_channel::Receiver::try_recv: without waiting, it
    /// pops and returns the oldest queued message, or reports that the
    /// queue currently holds nothing.
    #[verifier::external_body]
    fn try_recv_frame(&mut self) -> (r: Option<Vec<i64>>)
        ensures
            match r {
                Option::Some(f) => {
                    &&& frames_of(old(self).rx).len() > 0
                    &&& f@ == frames_of(old(self).rx)[0]
                    &&& frames_of(final(self).rx) == frames_of(old(self).rx).drop_first()
                },
                Option::None => {
                    &&& frames_of(old(self).rx).len() == 0
                    &&& frames_of(final(self).rx) == frames_of(old(self).rx)
                },
            },
    {
        self.rx.try_recv().ok()
    }

    /// Removes and returns every currently queued frame without waiting:
    /// the frames come out in arrival order and the queue is left empty,
    /// so an immediately following drain returns nothing.
    pub fn drain_frames(&mut self) -> (r: Vec<Vec<i64>>)
        ensures
            r@.map_values(|f: Vec<i64>| f@) == old(self).frames(),
            final(self).frames().len() == 0,
    {
        let mut r: Vec<Vec<i64>> = Vec::new();
        loop
            invariant_except_break
                r@.map_values(|f: Vec<i64>| f@) + self.frames() == old(self).frames(),
            ensures
                r@.map_values(|f: Vec<i64>| f@) == old(self).frames(),
                self.frames().len() == 0,
            decreases self.frames().len(),
        {
            let ghost pre_map = r@.map_values(|f: Vec<i64>| f@);
            let ghost pre_frames = self.frames();
            match self.try_recv_frame() {
                Option::Some(f) => {
                    r.push(f);
                    proof {
                        assert(r@.map_values(|f: Vec<i64>| f@) =~= pre_map.push(pre_frames[0]));
                        assert(pre_map.push(pre_frames[0]) + self.frames() =~= pre_map
                            + pre_frames);
                    }
                },
                Option::None => {
                    proof {
                        assert(r@.map_values(|f: Vec<i64>| f@) =~= pre_map + pre_frames);
                    }
                    break;
                },
            }
        }
        r
    }
}

/// The consuming half of the link-to-tick inbound queue.  The inbound
/// network task owns the sending half and is its sole writer; the tick
/// coordinator is the sole reader.
pub struct TranscriptReceiver {
    rx: crossbeam_channel::Receiver<tungstenite::Message>,
}

impl TranscriptReceiver {
    /// The queued messages, oldest first, each as its text payload
    /// (`None` for a non-text frame).
    pub closed spec fn texts(self) -> Seq<Option<Seq<u8>>> {
        texts_of(self.rx)
    }

    /// Wraps the receiving half of the inbound channel.
    pub fn new(rx: crossbeam_channel::Receiver<tungstenite::Message>) -> (r: TranscriptReceiver)
        ensures
            r.texts() == texts_of(rx),
    {
        TranscriptReceiver { rx }
    }

    /// Relies on crossbeam_channel::Receiver::try_recv (without waiting,
    /// pop the oldest queued message, or report an empty queue) and on the
    /// shape of tungstenite::Message: only a Text frame carries a text
    /// payload, handed out here as its UTF-8 bytes.
    #[verifier::external_body]
    fn try_recv_text(&mut self) -> (r: Option<Option<Vec<u8>>>)
        ensures
            match r {
                Option::Some(m) => {
                    &&& texts_of(old(self).rx).len() > 0
                    &&& text_view(m) == texts_of(old(self).rx)[0]
                    &&& texts_of(final(self).rx) == texts_of(old(self).rx).drop_first()
                },
                Option::None => {
                    &&& texts_of(old(self).rx).len() == 0
                    &&& texts_of(final(self).rx) == texts_of(old(self).rx)
                },
            },
    {
        match self.rx.try_recv() {
            Ok(tungstenite::Message::Text(s)) => Some(Some(s.as_str().as_bytes().to_vec())),
            Ok(_) => Some(None),
            Err(_) => None,
        }
    }

    /// Removes and returns every currently queued message without waiting:
    /// the payloads come out in arrival order and the queue is left empty,
    /// so an immediately following drain returns nothing.
    pub fn drain_texts(&mut self) -> (r: Vec<Option<Vec<u8>>>)
        ensures
            r@.map_values(|m: Option<Vec<u8>>| text_view(m)) == old(self).texts(),
            final(self).texts().len() == 0,
    {
        let mut r: Vec<Option<Vec<u8>>> = Vec::new();
        loop
            invariant_except_break
                r@.map_values(|m: Option<Vec<u8>>| text_view(m)) + self.texts() == old(
                    self,
                ).texts(),
            ensures
                r@.map_values(|m: Option<Vec<u8>>| text_view(m)) == old(self).texts(),
                self.texts().len() == 0,
            decreases self.texts().len(),
        {
            let ghost pre_map = r@.map_values(|m: Option<Vec<u8>>| text_view(m));
            let ghost pre_texts = self.texts();
            match self.try_recv_text() {
                Option::Some(m) => {
                    r.push(m);
                    proof {
                        assert(r@.map_values(|m: Option<Vec<u8>>| text_view(m)) =~= pre_map.push(
                            pre_texts[0],
                        ));
                        assert(pre_map.push(pre_texts[0]) + self.texts() =~= pre_map + pre_texts);
                    }
                },
                Option::None => {
                    proof {
                        assert(r@.map_values(|m: Option<Vec<u8>>| text_view(m)) =~= pre_map
                            + pre_texts);
                    }
                    break;
                },
            }
        }
        r
    }
}

} // verus!
