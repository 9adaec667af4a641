//! Conversion of captured audio samples to 16-bit linear PCM.
//!
//! A captured sample reaches the bridge as a fixed-point value: the
//! floating-point sample produced by the audio device, multiplied by 32768
//! and truncated toward zero by the capture side.  For device samples in
//! [-1.0, 1.0] the fixed-point value lies in [-32768, 32768]; anything
//! outside the 16-bit signed range saturates to the representable
//! minimum or maximum rather than wrapping.

use vstd::prelude::*;

verus! {

/// The 16-bit PCM value of a fixed-point sample `x`: saturation clamps
/// out-of-range values to the representable minimum or maximum.
pub open spec fn clamp_sample(x: int) -> int {
    if x < -32768 {
        -32768
    } else if x > 32767 {
        32767
    } else {
        x
    }
}

/// Converts one fixed-point audio sample to a 16-bit signed PCM sample,
/// saturating instead of wrapping on overflow.
pub fn convert(scaled: i64) -> (r: i16)
    ensures
        r as int == clamp_sample(scaled as int),
        -32768 <= r as int <= 32767,
{
    if scaled < -32768 {
        -32768
    } else if scaled > 32767 {
        32767
    } else {
        scaled as i16
    }
}

/// The 16-bit two's-complement representation of a PCM value
/// `x` in [-32768, 32767], as an unsigned number in [0, 65535].
pub open spec fn rep16(x: int) -> int {
    if x < 0 {
        x + 65536
    } else {
        x
    }
}

/// The low byte of the little-endian encoding of PCM value `x`.
pub open spec fn lo_byte(x: int) -> u8 {
    (rep16(x) % 256) as u8
}

/// The high byte of the little-endian encoding of PCM value `x`.
pub open spec fn hi_byte(x: int) -> u8 {
    (rep16(x) / 256) as u8
}

/// The PCM buffer of an audio frame: each sample clamped to the 16-bit
/// range and written as two bytes, little-endian, sample order preserved.
pub open spec fn pcm_of(frame: Seq<i64>) -> Seq<u8> {
    Seq::new(
        2 * frame.len(),
        |k: int|
            if k % 2 == 0 {
                lo_byte(clamp_sample(frame[k / 2] as int))
            } else {
                hi_byte(clamp_sample(frame[k / 2] as int))
            },
    )
}

/// Serializes one audio frame of fixed-point samples into a PCM buffer:
/// two bytes per sample, little-endian, with saturating conversion.
pub fn frame_to_pcm(frame: &Vec<i64>) -> (r: Vec<u8>)
    ensures
        r@ == pcm_of(frame@),
        r@.len() == 2 * frame@.len(),
{
    let mut r: Vec<u8> = Vec::new();
    let mut i: usize = 0;
    while i < frame.len()
        invariant
            i <= frame@.len(),
            r@.len() == 2 * i,
            forall|k: int| 0 <= k < 2 * i ==> r@[k] == pcm_of(frame@)[k],
        decreases frame@.len() - i,
    {
        let c: i16 = convert(frame[i]);
        let u: u16 = if c < 0 {
            (c as i32 + 65536) as u16
        } else {
            c as u16
        };
        proof {
            assert(u as int == rep16(c as int));
        }
        r.push((u % 256) as u8);
        r.push((u / 256) as u8);
        proof {
            assert(r@[2 * i as int] == lo_byte(clamp_sample(frame@[i as int] as int)));
            assert(r@[2 * i as int + 1] == hi_byte(clamp_sample(frame@[i as int] as int)));
        }
        i = i + 1;
    }
    proof {
        assert(r@ =~= pcm_of(frame@));
    }
    r
}

} // verus!
