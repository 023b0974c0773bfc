//! Per-session playback state: the one-time join-point skip policy and the
//! real-time pacing decisions.
//!
//! A session is created with a join-skip threshold. While fewer video key
//! frames have been skipped than the threshold asks, every frame is
//! discarded; once the threshold is reached, every remaining frame is
//! delivered, so the emitted stream is a contiguous suffix of the recording.
//! Audio frames are delivered immediately; video frames are paced to the
//! recording's nominal inter-frame interval against wall-clock time.

use vstd::prelude::*;
use crate::frame::FrameKind;
use crate::skip::count_keys;
use crate::skip::lemma_count_keys_push;
use crate::skip::lemma_prefix_membership;
use crate::skip::lemma_skip_prefix_len_le;
use crate::skip::skip_prefix_len;

verus! {

/// Nominal inter-frame period of the recording in milliseconds: 1000 ms at
/// 15 frames per second, rounded to the nearest whole millisecond.
pub const VIDEO_FRAME_INTERVAL_MS: i64 = 67;

/// Exclusive upper bound of the join-skip threshold draw: a session skips
/// between 0 and 96 video key frames.
pub const JOIN_SKIP_BOUND: u32 = 97;

/// Largest wall-clock reading, in milliseconds, that the pacing arithmetic
/// accepts; keeps every intermediate difference within `i64`.
pub const MAX_CLOCK_MS: i64 = 0x3fff_ffff_ffff_ffff;

/// What the pacer decides for one frame.
#[derive(Clone, Copy, Debug, PartialEq, Eq, Structural)]
pub enum FrameAction {
    /// The frame is in the discarded join-point prefix: do not deliver it.
    Skip,
    /// Deliver the audio frame immediately, with no pacing delay.
    DeliverAudio,
    /// Deliver the video frame after waiting the given number of
    /// milliseconds.
    DeliverVideo { wait_ms: u64 },
}

/// The pacing delay before a video frame may be delivered: zero when no
/// video frame was delivered yet, otherwise whatever remains of the nominal
/// interval since the previous delivery.
pub open spec fn spec_video_wait_ms(last_delivery_ms: Option<i64>, now_ms: i64) -> int {
    match last_delivery_ms {
        Option::None => 0,
        Option::Some(t) => {
            let remaining = VIDEO_FRAME_INTERVAL_MS - (now_ms - t);
            if remaining > 0 {
                remaining as int
            } else {
                0
            }
        },
    }
}

/// Video frame pacing: when a video frame is delivered after the computed
/// wait, its delivery time never follows the previous video delivery by
/// less than the nominal inter-frame interval — not even when the clock
/// reading ran backwards in between.
pub proof fn lemma_video_gap_at_least_interval(t: i64, now_ms: i64)
    ensures
        now_ms + spec_video_wait_ms(Option::Some(t), now_ms) >= t + VIDEO_FRAME_INTERVAL_MS,
{
}

/// Mutable per-session playback state.
pub struct PlaybackSession {
    /// How many video key frames this session skips before delivering.
    pub join_skip_threshold: u32,
    /// How many video key frames have been skipped so far; frozen once it
    /// reaches the threshold.
    pub key_frames_skipped: u32,
    /// Wall-clock instant of the last video frame delivery, unset until the
    /// first video frame is delivered.
    pub last_video_delivery_ms: Option<i64>,
}

impl PlaybackSession {
    /// The session's invariant: the skip counter never exceeds the
    /// threshold, and any recorded delivery instant is a clock reading the
    /// pacing arithmetic accepts.
    pub open spec fn wf(self) -> bool {
        &&& self.key_frames_skipped <= self.join_skip_threshold
        &&& match self.last_video_delivery_ms {
            Option::None => true,
            Option::Some(t) => 0 <= t <= MAX_CLOCK_MS,
        }
    }

    /// The session is still discarding its join-point prefix.
    pub open spec fn skipping(self) -> bool {
        self.key_frames_skipped < self.join_skip_threshold
    }

    /// Create a session that skips past `join_skip_threshold` video key
    /// frames before delivering.
    pub fn new(join_skip_threshold: u32) -> (s: PlaybackSession)
        ensures
            s.wf(),
            s.join_skip_threshold == join_skip_threshold,
            s.key_frames_skipped == 0,
            s.last_video_delivery_ms is None,
    {
        PlaybackSession {
            join_skip_threshold,
            key_frames_skipped: 0,
            last_video_delivery_ms: Option::None,
        }
    }

    /// Decide what to do with the next frame of the recording, read at
    /// wall-clock time `now_ms`.
    ///
    /// While the skip counter is below the threshold the frame is discarded,
    /// and the counter advances exactly on video key frames. Past the
    /// threshold, an audio frame is delivered immediately and a video frame
    /// is delivered after the remaining share of the nominal interval; the
    /// wait always stretches the gap since the previous video delivery to at
    /// least the full interval.
    pub fn on_frame(&mut self, kind: FrameKind, now_ms: i64) -> (a: FrameAction)
        requires
            old(self).wf(),
            0 <= now_ms <= MAX_CLOCK_MS,
        ensures
            final(self).wf(),
            final(self).join_skip_threshold == old(self).join_skip_threshold,
            final(self).last_video_delivery_ms == old(self).last_video_delivery_ms,
            old(self).skipping() ==> {
                &&& a == FrameAction::Skip
                &&& final(self).key_frames_skipped == old(self).key_frames_skipped
                    + (if kind is VideoKey { 1int } else { 0int })
            },
            !old(self).skipping() ==> {
                &&& final(self).key_frames_skipped == old(self).key_frames_skipped
                &&& (kind is Audio ==> a == FrameAction::DeliverAudio)
                &&& (!(kind is Audio) ==> a == (FrameAction::DeliverVideo {
                    wait_ms: spec_video_wait_ms(old(self).last_video_delivery_ms, now_ms) as u64,
                }))
            },
            (match (a, old(self).last_video_delivery_ms) {
                (FrameAction::DeliverVideo { wait_ms }, Option::Some(t)) =>
                    now_ms + wait_ms >= t + VIDEO_FRAME_INTERVAL_MS,
                _ => true,
            }),
    {
        if self.key_frames_skipped < self.join_skip_threshold {
            if matches!(kind, FrameKind::VideoKey) {
                self.key_frames_skipped = self.key_frames_skipped + 1;
            }
            return FrameAction::Skip;
        }
        match kind {
            FrameKind::Audio => FrameAction::DeliverAudio,
            _ => FrameAction::DeliverVideo { wait_ms: self.video_wait_ms(now_ms) },
        }
    }

    /// The pacing delay, in milliseconds, before a video frame may be
    /// delivered at wall-clock time `now_ms`.
    pub fn video_wait_ms(&self, now_ms: i64) -> (w: u64)
        requires
            self.wf(),
            0 <= now_ms <= MAX_CLOCK_MS,
        ensures
            w == spec_video_wait_ms(self.last_video_delivery_ms, now_ms),
    {
        match self.last_video_delivery_ms {
            Option::None => 0,
            Option::Some(t) => {
                let remaining = VIDEO_FRAME_INTERVAL_MS - (now_ms - t);
                if remaining > 0 {
                    remaining as u64
                } else {
                    0
                }
            },
        }
    }

    /// Record that a video frame was actually delivered at wall-clock time
    /// `now_ms`; later video frames are paced relative to this instant.
    pub fn record_video_delivery(&mut self, now_ms: i64)
        requires
            old(self).wf(),
            0 <= now_ms <= MAX_CLOCK_MS,
        ensures
            final(self).wf(),
            final(self).join_skip_threshold == old(self).join_skip_threshold,
            final(self).key_frames_skipped == old(self).key_frames_skipped,
            final(self).last_video_delivery_ms == Option::Some(now_ms),
    {
        self.last_video_delivery_ms = Option::Some(now_ms);
    }
}

/// Drive a fresh session over the recorded frame kinds, in stream order,
/// and report which frames it delivers. The session's step decisions agree
/// exactly with the skip policy's specification: the delivered frames are
/// the contiguous suffix that begins after the discarded join-point prefix.
pub fn session_delivered_indices(kinds: &Vec<FrameKind>, threshold: u32) -> (r: Vec<usize>)
    ensures
        ({
            let p = skip_prefix_len(kinds@, threshold as nat);
            &&& r@.len() == kinds@.len() - p
            &&& forall|j: int| 0 <= j < r@.len() ==> r@[j] == p + j
        }),
{
    proof {
        lemma_skip_prefix_len_le(kinds@, threshold as nat);
        assert(kinds@.take(0) =~= Seq::<FrameKind>::empty());
        assert(count_keys(Seq::<FrameKind>::empty()) == 0);
    }
    let ghost p = skip_prefix_len(kinds@, threshold as nat);
    let mut session = PlaybackSession::new(threshold);
    let mut delivered: Vec<usize> = Vec::new();
    let mut i: usize = 0;
    while i < kinds.len()
        invariant
            i <= kinds.len(),
            p == skip_prefix_len(kinds@, threshold as nat),
            p <= kinds@.len(),
            session.wf(),
            session.join_skip_threshold == threshold,
            session.key_frames_skipped == vstd::math::min(
                threshold as int,
                count_keys(kinds@.take(i as int)) as int,
            ),
            delivered@.len() == (if i <= p {
                0int
            } else {
                i - p
            }),
            forall|j: int| 0 <= j < delivered@.len() ==> delivered@[j] == p + j,
        decreases kinds.len() - i,
    {
        let ghost pre = i as int;
        proof {
            lemma_prefix_membership(kinds@, threshold as nat, pre);
        }
        let action = session.on_frame(kinds[i], 0);
        if !matches!(action, FrameAction::Skip) {
            delivered.push(i);
        }
        i = i + 1;
        proof {
            lemma_count_keys_push(kinds@.take(pre), kinds@[pre]);
            assert(kinds@.take(pre + 1) =~= kinds@.take(pre).push(kinds@[pre]));
        }
    }
    proof {
        assert(kinds@.take(kinds@.len() as int) =~= kinds@);
    }
    delivered
}

} // verus!
