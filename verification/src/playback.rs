//! The real-time side: a cursor over the decoded sample buffer, the
//! frame-fill step the output callback runs, and the playback session's
//! state machine.

use vstd::prelude::*;

verus! {

/// The next sample index to emit. Owned by the output callback; it advances
/// one step per frame and never exceeds the sample count.
pub struct PlaybackCursor {
    pub index: usize,
}

impl PlaybackCursor {
    pub fn new() -> (r: Self)
        ensures
            r.index == 0,
    {
        PlaybackCursor { index: 0 }
    }

    /// Pulls the next sample, or silence once the buffer is exhausted; the
    /// cursor only advances while samples remain.
    pub fn next_sample(&mut self, samples: &Vec<i16>) -> (r: i16)
        requires
            old(self).index <= samples@.len(),
        ensures
            old(self).index < samples@.len() ==> r == samples@[old(self).index as int]
                && final(self).index == old(self).index + 1,
            old(self).index >= samples@.len() ==> r == 0 && final(self).index == old(self).index,
    {
        if self.index < samples.len() {
            let v = samples[self.index];
            self.index = self.index + 1;
            v
        } else {
            0i16
        }
    }
}

/// How many frames a callback buffer of `out_len` interleaved slots holds:
/// whole frames of `channels` slots, plus a final partial frame if the
/// backend hands over a length that is not a multiple of the channel count.
pub open spec fn frame_count(out_len: int, channels: int) -> int {
    (out_len + channels - 1) / channels
}

/// The value the fill step writes at slot `j` of the callback buffer when the
/// cursor starts at `start`: the frame's sample broadcast to every channel of
/// the frame, and silence once the buffer is exhausted.
pub open spec fn fill_value(samples: Seq<i16>, start: int, channels: int, j: int) -> int {
    if start + j / channels < samples.len() {
        samples[start + j / channels] as int
    } else {
        0
    }
}

/// Fills the callback's output buffer frame by frame: one sample per frame,
/// written to every channel slot of that frame, advancing the cursor one step
/// per frame; after exhaustion every remaining slot is silence and the cursor
/// stays put. Never reads beyond the end of `samples`.
pub fn write_data(
    output: &mut Vec<i16>,
    channels: usize,
    samples: &Vec<i16>,
    cursor: &mut PlaybackCursor,
)
    requires
        channels >= 1,
        old(cursor).index <= samples@.len(),
    ensures
        final(output)@.len() == old(output)@.len(),
        forall|j: int|
            0 <= j < old(output)@.len() ==> #[trigger] final(output)@[j] as int == fill_value(
                samples@,
                old(cursor).index as int,
                channels as int,
                j,
            ),
        final(cursor).index == vstd::math::min(
            old(cursor).index + frame_count(old(output)@.len() as int, channels as int),
            samples@.len() as int,
        ),
{
    let len: usize = output.len();
    let ghost start = cursor.index as int;
    let ghost ch = channels as int;
    let mut pos: usize = 0;
    assert(frame_count(0, ch) == 0) by (nonlinear_arith)
        requires
            ch >= 1,
    ;
    while pos < len
        invariant
            channels >= 1,
            ch == channels as int,
            pos <= len,
            len == output@.len(),
            pos == len || pos % channels == 0,
            0 <= start <= samples@.len(),
            cursor.index == vstd::math::min(start + frame_count(pos as int, ch), samples@.len() as int),
            forall|j: int|
                0 <= j < pos ==> #[trigger] output@[j] as int == fill_value(samples@, start, ch, j),
        decreases len - pos,
    {
        let ghost f = frame_count(pos as int, ch);
        assert(f == pos as int / ch && pos as int == ch * f) by {
            vstd::arithmetic::div_mod::lemma_fundamental_div_mod(pos as int, ch);
            assert((pos as int + ch - 1) / ch == pos as int / ch) by (nonlinear_arith)
                requires
                    ch >= 1,
                    pos as int % ch == 0,
            ;
        }
        let v = cursor.next_sample(samples);
        assert(v as int == (if start + f < samples@.len() {
            samples@[start + f] as int
        } else {
            0
        }));
        let frame_end: usize = if len - pos < channels {
            len
        } else {
            pos + channels
        };
        let ghost pos0 = pos as int;
        while pos < frame_end
            invariant
                0 <= pos0 <= pos <= frame_end,
                len == output@.len(),
                frame_end <= len,
                frame_end <= pos0 + ch,
                v as int == (if start + f < samples@.len() {
                    samples@[start + f] as int
                } else {
                    0
                }),
                forall|j: int| 0 <= j < pos0 ==> #[trigger] output@[j] as int == fill_value(samples@, start, ch, j),
                forall|j: int| pos0 <= j < pos ==> #[trigger] output@[j] as int == v as int,
            decreases frame_end - pos,
        {
            output.set(pos, v);
            pos += 1;
        }
        proof {
            assert(forall|j: int| pos0 <= j < pos ==> #[trigger] (j / ch) == f) by {
                assert forall|j: int| pos0 <= j < pos implies #[trigger] (j / ch) == f by {
                    assert(j / ch == f) by (nonlinear_arith)
                        requires
                            ch >= 1,
                            pos0 == ch * f,
                            pos0 <= j < pos0 + ch,
                            pos <= pos0 + ch,
                            pos0 <= j < pos,
                    ;
                }
            }
            assert(forall|j: int| pos0 <= j < pos ==> #[trigger] output@[j] as int == fill_value(samples@, start, ch, j));
            assert(frame_count(pos as int, ch) == f + 1) by (nonlinear_arith)
                requires
                    ch >= 1,
                    pos0 == ch * f,
                    pos0 < pos as int <= pos0 + ch,
            ;
            assert(pos == len || pos % channels == 0) by {
                if pos < len {
                    assert(pos as int == pos0 + ch);
                    assert((ch * f + ch) % ch == 0) by (nonlinear_arith)
                        requires
                            ch >= 1,
                    ;
                }
            }
        }
    }
}

/// Where a playback session stands: configured but not yet streaming, live,
/// out of real samples (the stream stays open and emits silence), or torn
/// down.
pub enum PlaybackState {
    Configured,
    Streaming,
    Exhausted,
    Stopped,
}

/// The state a session is in after `stop` is requested: always `Stopped`,
/// from every state.
pub open spec fn stop_state(s: PlaybackState) -> PlaybackState {
    PlaybackState::Stopped
}

/// Whether a stop request must tear the backend stream down: only when a
/// stream is actually open, so never for a session that was merely
/// configured, and never a second time.
pub open spec fn stop_needs_teardown(s: PlaybackState) -> bool {
    s is Streaming || s is Exhausted
}

/// The caller's grip on a running playback session. The handle only decides;
/// the unverified edge that owns the backend stream performs the teardown
/// exactly when `stop` answers `true`.
pub struct PlaybackHandle {
    pub state: PlaybackState,
}

impl PlaybackHandle {
    /// A handle for a stream that was just built and started.
    pub fn new_streaming() -> (r: Self)
        ensures
            r.state is Streaming,
    {
        PlaybackHandle { state: PlaybackState::Streaming }
    }

    /// Records that the cursor ran out of samples while the stream stays
    /// open emitting silence. Only a live stream can become exhausted.
    pub fn note_exhausted(&mut self)
        ensures
            old(self).state is Streaming ==> final(self).state is Exhausted,
            !(old(self).state is Streaming) ==> final(self).state == old(self).state,
    {
        if let PlaybackState::Streaming = self.state {
            self.state = PlaybackState::Exhausted;
        }
    }

    /// Requests a stop. Answers whether the backend stream must be torn
    /// down now; once stopped, calling again changes nothing and asks for
    /// no second teardown.
    pub fn stop(&mut self) -> (teardown: bool)
        ensures
            final(self).state == stop_state(old(self).state),
            teardown == stop_needs_teardown(old(self).state),
    {
        let open = match self.state {
            PlaybackState::Streaming => true,
            PlaybackState::Exhausted => true,
            _ => false,
        };
        self.state = PlaybackState::Stopped;
        open
    }
}

/// Stopping twice is a no-op the second time: the state is already
/// `Stopped`, stays `Stopped`, and no second teardown of the stream resource
/// is requested.
pub proof fn lemma_stop_twice_noop(s: PlaybackState)
    ensures
        stop_state(stop_state(s)) == stop_state(s),
        !stop_needs_teardown(stop_state(s)),
{
}

/// The output configuration a stream is built with, taken verbatim from the
/// decoded audio.
pub struct StreamParams {
    pub channels: u16,
    pub sample_rate: u32,
}

/// What the chosen output device supports, as plain bounds: a channel-count
/// range and a sample-rate range.
pub struct DeviceCaps {
    pub min_channels: u16,
    pub max_channels: u16,
    pub min_sample_rate: u32,
    pub max_sample_rate: u32,
}

/// Why a playback attempt failed before any audio was produced.
#[derive(Debug)]
pub enum PlaybackError {
    /// No output device is available.
    DeviceUnavailable,
    /// The audio's channel count or sample rate falls outside what the
    /// device supports; no resampling or down-mixing is attempted.
    UnsupportedDeviceConfig,
    /// The backend refused to build or start the stream.
    StreamBuildFailure,
}

/// The device can play the audio as-is: channel count and sample rate both
/// fall within its supported ranges.
pub open spec fn config_supported(caps: DeviceCaps, channels: int, sample_rate: int) -> bool {
    &&& caps.min_channels <= channels <= caps.max_channels
    &&& caps.min_sample_rate <= sample_rate <= caps.max_sample_rate
}

/// Decides the stream configuration for a decoded buffer on a device, or why
/// none can be built: no device at all, or a channel-count/sample-rate
/// mismatch. The configuration always carries the audio's own channel count
/// and rate, never an adjusted one.
pub fn build_stream_params(audio: &crate::wav::DecodedAudio, device: Option<DeviceCaps>) -> (r:
    Result<StreamParams, PlaybackError>)
    ensures
        device is None ==> r == Result::<StreamParams, PlaybackError>::Err(
            PlaybackError::DeviceUnavailable,
        ),
        device matches Some(caps) && config_supported(
            caps,
            audio.num_channels as int,
            audio.sample_rate as int,
        ) ==> r == Result::<StreamParams, PlaybackError>::Ok(
            (StreamParams { channels: audio.num_channels, sample_rate: audio.sample_rate }),
        ),
        device matches Some(caps) && !config_supported(
            caps,
            audio.num_channels as int,
            audio.sample_rate as int,
        ) ==> r == Result::<StreamParams, PlaybackError>::Err(
            PlaybackError::UnsupportedDeviceConfig,
        ),
{
    match device {
        None => Err(PlaybackError::DeviceUnavailable),
        Some(caps) => {
            if caps.min_channels <= audio.num_channels && audio.num_channels <= caps.max_channels
                && caps.min_sample_rate <= audio.sample_rate && audio.sample_rate
                <= caps.max_sample_rate {
                Ok(StreamParams { channels: audio.num_channels, sample_rate: audio.sample_rate })
            } else {
                Err(PlaybackError::UnsupportedDeviceConfig)
            }
        },
    }
}

/// Once the cursor is exhausted, the fill step writes exact silence into
/// every requested slot, however many frames the backend asks for.
pub proof fn lemma_exhausted_fill_is_silence(
    samples: Seq<i16>,
    start: int,
    channels: int,
    out_len: int,
)
    requires
        channels >= 1,
        start >= samples.len(),
    ensures
        forall|j: int| 0 <= j < out_len ==> #[trigger] fill_value(samples, start, channels, j) == 0,
{
    assert forall|j: int| 0 <= j < out_len implies #[trigger] fill_value(samples, start, channels, j)
        == 0 by {
        assert(j / channels >= 0) by (nonlinear_arith)
            requires
                channels >= 1,
                j >= 0,
        ;
    }
}

} // verus!

