//! The join-point skip policy: a session discards every frame until it has
//! seen its threshold's worth of video key frames, then delivers the rest.
//!
//! The discarded part is always a prefix of the recording, so what a
//! session delivers is a contiguous, unmodified suffix.

use vstd::prelude::*;
use crate::frame::Frame;
use crate::frame::FrameKind;
use crate::frame::StreamError;
use crate::frame::spec_frames_from;
use crate::frame::spec_stream_error_from;
use crate::frame::parse_all;

verus! {

/// How many video key frames a sequence of frame kinds holds.
pub open spec fn count_keys(kinds: Seq<FrameKind>) -> nat
    decreases kinds.len(),
{
    if kinds.len() == 0 {
        0
    } else {
        (if kinds[0] is VideoKey {
            1nat
        } else {
            0nat
        }) + count_keys(kinds.drop_first())
    }
}

/// Length of the discarded prefix for threshold `k`: frames are discarded
/// while fewer than `k` video key frames have been discarded, so the prefix
/// ends just past the `k`-th key frame, or at the end of the recording when
/// it holds fewer than `k` key frames.
pub open spec fn skip_prefix_len(kinds: Seq<FrameKind>, k: nat) -> nat
    decreases kinds.len(),
{
    if k == 0 || kinds.len() == 0 {
        0
    } else if kinds[0] is VideoKey {
        1 + skip_prefix_len(kinds.drop_first(), (k - 1) as nat)
    } else {
        1 + skip_prefix_len(kinds.drop_first(), k)
    }
}

/// The frame kinds a session with threshold `k` delivers: the suffix after
/// the discarded prefix.
pub open spec fn delivered_kinds(kinds: Seq<FrameKind>, k: nat) -> Seq<FrameKind> {
    kinds.skip(skip_prefix_len(kinds, k) as int)
}

/// The discarded prefix never reaches past the end of the recording.
pub proof fn lemma_skip_prefix_len_le(kinds: Seq<FrameKind>, k: nat)
    ensures
        skip_prefix_len(kinds, k) <= kinds.len(),
    decreases kinds.len(),
{
    if k == 0 || kinds.len() == 0 {
    } else if kinds[0] is VideoKey {
        lemma_skip_prefix_len_le(kinds.drop_first(), (k - 1) as nat);
    } else {
        lemma_skip_prefix_len_le(kinds.drop_first(), k);
    }
}

/// Appending one frame kind adds one to the key count exactly when it is a
/// video key frame.
pub proof fn lemma_count_keys_push(kinds: Seq<FrameKind>, x: FrameKind)
    ensures
        count_keys(kinds.push(x)) == count_keys(kinds) + (if x is VideoKey {
            1int
        } else {
            0int
        }),
    decreases kinds.len(),
{
    if kinds.len() == 0 {
        assert(kinds.push(x)[0] == x);
        assert(kinds.push(x).drop_first() =~= Seq::<FrameKind>::empty());
        assert(count_keys(Seq::<FrameKind>::empty()) == 0);
    } else {
        lemma_count_keys_push(kinds.drop_first(), x);
        assert(kinds.push(x)[0] == kinds[0]);
        assert(kinds.push(x).drop_first() =~= kinds.drop_first().push(x));
    }
}

/// A frame is in the discarded prefix exactly when fewer than `k` video key
/// frames lie before it in the recording.
pub proof fn lemma_prefix_membership(kinds: Seq<FrameKind>, k: nat, i: int)
    requires
        0 <= i <= kinds.len(),
    ensures
        i < skip_prefix_len(kinds, k) <==> (i < kinds.len() && count_keys(kinds.take(i)) < k),
    decreases kinds.len(),
{
    lemma_skip_prefix_len_le(kinds, k);
    if k == 0 || kinds.len() == 0 {
        assert(kinds.take(i).len() >= 0);
    } else if i == 0 {
        assert(kinds.take(0) =~= Seq::<FrameKind>::empty());
    } else {
        let tail = kinds.drop_first();
        let kk: nat = if kinds[0] is VideoKey {
            (k - 1) as nat
        } else {
            k
        };
        lemma_prefix_membership(tail, kk, i - 1);
        assert(kinds.take(i).drop_first() =~= tail.take(i - 1));
        assert(kinds.take(i)[0] == kinds[0]);
        assert(count_keys(kinds.take(i)) == (if kinds[0] is VideoKey {
            1int
        } else {
            0int
        }) + count_keys(tail.take(i - 1)));
    }
}

/// With a join-skip threshold of zero nothing is discarded: the delivered
/// sequence is the full recorded sequence.
pub proof fn lemma_zero_threshold_delivers_all(kinds: Seq<FrameKind>)
    ensures
        skip_prefix_len(kinds, 0) == 0,
        delivered_kinds(kinds, 0) == kinds,
{
    assert(kinds.skip(0) =~= kinds);
}

/// With threshold `k > 0` and at least `k` video key frames recorded, the
/// discarded prefix holds exactly `k` video key frames, its last frame is
/// the `k`-th key frame of the recording, and delivery begins at the frame
/// immediately after that key frame.
pub proof fn lemma_positive_threshold_prefix(kinds: Seq<FrameKind>, k: nat)
    requires
        0 < k <= count_keys(kinds),
    ensures
        ({
            let p = skip_prefix_len(kinds, k);
            &&& 0 < p <= kinds.len()
            &&& count_keys(kinds.take(p as int)) == k
            &&& kinds[p - 1] is VideoKey
            &&& count_keys(kinds.take(p - 1)) == k - 1
            &&& delivered_kinds(kinds, k) == kinds.skip(p as int)
        }),
    decreases kinds.len(),
{
    let p = skip_prefix_len(kinds, k);
    let tail = kinds.drop_first();
    if kinds[0] is VideoKey {
        if k == 1 {
            assert(p == 1);
            assert(kinds.take(1)[0] == kinds[0]);
            assert(kinds.take(1).drop_first() =~= Seq::<FrameKind>::empty());
            assert(count_keys(Seq::<FrameKind>::empty()) == 0);
            assert(count_keys(kinds.take(1)) == 1);
            assert(kinds.take(0) =~= Seq::<FrameKind>::empty());
        } else {
            lemma_positive_threshold_prefix(tail, (k - 1) as nat);
            let pt = skip_prefix_len(tail, (k - 1) as nat);
            assert(p == 1 + pt);
            assert(kinds.take(p as int).drop_first() =~= tail.take(pt as int));
            assert(count_keys(kinds.take(p as int)) == 1 + count_keys(tail.take(pt as int)));
            assert(kinds[p - 1] == tail[pt - 1]);
            assert(kinds.take(p - 1).drop_first() =~= tail.take(pt - 1));
            assert(count_keys(kinds.take(p - 1)) == 1 + count_keys(tail.take(pt - 1)));
        }
    } else {
        lemma_positive_threshold_prefix(tail, k);
        let pt = skip_prefix_len(tail, k);
        assert(p == 1 + pt);
        assert(kinds.take(p as int).drop_first() =~= tail.take(pt as int));
        assert(count_keys(kinds.take(p as int)) == count_keys(tail.take(pt as int)));
        assert(kinds[p - 1] == tail[pt - 1]);
        assert(kinds.take(p - 1).drop_first() =~= tail.take(pt - 1));
        assert(count_keys(kinds.take(p - 1)) == count_keys(tail.take(pt - 1)));
    }
}

/// One recording and one threshold determine the delivered sequence
/// uniquely: any two sessions over the same recorded frame kinds with the
/// same threshold deliver exactly the same frames in the same order.
pub proof fn lemma_delivery_deterministic(
    kinds: Seq<FrameKind>,
    k: nat,
    d1: Seq<FrameKind>,
    d2: Seq<FrameKind>,
)
    requires
        d1 == delivered_kinds(kinds, k),
        d2 == delivered_kinds(kinds, k),
    ensures
        d1 == d2,
{
}

/// Number of leading frames in the discarded join-point prefix for the
/// given threshold.
pub fn skip_prefix_frames(kinds: &Vec<FrameKind>, threshold: u32) -> (p: usize)
    ensures
        p == skip_prefix_len(kinds@, threshold as nat),
        p <= kinds@.len(),
{
    proof {
        assert(kinds@.skip(0) =~= kinds@);
    }
    let mut i: usize = 0;
    let mut skipped: u32 = 0;
    while i < kinds.len() && skipped < threshold
        invariant
            i <= kinds.len(),
            skipped <= threshold,
            skip_prefix_len(kinds@, threshold as nat) == i + skip_prefix_len(
                kinds@.skip(i as int),
                (threshold - skipped) as nat,
            ),
        decreases kinds.len() - i,
    {
        let ghost pre = i as int;
        let ghost rem: nat = (threshold - skipped) as nat;
        if matches!(kinds[i], FrameKind::VideoKey) {
            skipped = skipped + 1;
        }
        i = i + 1;
        proof {
            assert(kinds@.skip(pre)[0] == kinds@[pre]);
            assert(kinds@.skip(pre).drop_first() =~= kinds@.skip(pre + 1));
            assert(skip_prefix_len(kinds@.skip(pre), rem) == 1 + skip_prefix_len(
                kinds@.skip(pre + 1),
                (threshold - skipped) as nat,
            ));
        }
    }
    proof {
        if skipped == threshold {
            assert(skip_prefix_len(kinds@.skip(i as int), 0) == 0);
        } else {
            assert(kinds@.skip(kinds@.len() as int) =~= Seq::<FrameKind>::empty());
        }
    }
    i
}

/// The frame kinds of a sequence of frames, in order.
pub open spec fn kinds_of(fs: Seq<Frame>) -> Seq<FrameKind> {
    fs.map_values(|f: Frame| f.kind)
}

/// The frames a session with the given threshold delivers: the contiguous,
/// unmodified suffix of the recording that begins after the discarded
/// join-point prefix. Fails exactly where framing the recording fails.
pub fn plan_delivery(data: &Vec<u8>, threshold: u32) -> (r: Result<Vec<Frame>, StreamError>)
    ensures
        r is Ok <==> spec_frames_from(data@, 0) is Some,
        (match r {
            Ok(ds) => {
                let fs = spec_frames_from(data@, 0)->Some_0;
                ds@ == fs.skip(skip_prefix_len(kinds_of(fs), threshold as nat) as int)
            },
            Err(e) => e == spec_stream_error_from(data@, 0),
        }),
{
    let frames = match parse_all(data) {
        Ok(fs) => fs,
        Err(e) => {
            return Err(e);
        },
    };
    let mut kinds: Vec<FrameKind> = Vec::new();
    let mut i: usize = 0;
    while i < frames.len()
        invariant
            i <= frames.len(),
            kinds@ =~= kinds_of(frames@).take(i as int),
        decreases frames.len() - i,
    {
        kinds.push(frames[i].kind);
        i = i + 1;
    }
    proof {
        assert(kinds@ =~= kinds_of(frames@));
    }
    let p = skip_prefix_frames(&kinds, threshold);
    let mut delivered: Vec<Frame> = Vec::new();
    let mut j: usize = p;
    while j < frames.len()
        invariant
            p <= j <= frames.len(),
            delivered@ =~= frames@.subrange(p as int, j as int),
        decreases frames.len() - j,
    {
        delivered.push(frames[j]);
        j = j + 1;
    }
    proof {
        assert(delivered@ =~= frames@.skip(p as int));
    }
    Ok(delivered)
}

} // verus!
