//! Sample buffers between the audio devices and the codec. They hold any kind
//! of sample.
use std::collections::VecDeque;
use vstd::prelude::*;

verus! {

/// The codec and pipeline sample rate.
pub const SAMPLE_RATE: u32 = 48000;

/// One 20 ms mono frame at 48 kHz.
pub const FRAME_SAMPLES: usize = 960;

/// Playback buffer bound (500 ms). Older samples are dropped when the speaker
/// lags.
pub const PLAYBACK_CAPACITY: usize = 24000;

/// The last `count` items of a sequence, or all of them.
pub open spec fn last_of<T>(items: Seq<T>, count: int) -> Seq<T> {
    if items.len() <= count {
        items
    } else {
        items.subrange(items.len() - count, items.len() as int)
    }
}

/// Appends decoded samples; of more than the buffer holds, the newest stay.
pub fn push_playback<T: Copy>(buffer: &mut VecDeque<T>, samples: &[T])
    ensures
        final(buffer)@ == last_of(old(buffer)@ + samples@, PLAYBACK_CAPACITY as int),
{
    let first: usize = if samples.len() > PLAYBACK_CAPACITY {
        samples.len() - PLAYBACK_CAPACITY
    } else {
        0
    };
    let kept: usize = samples.len() - first;
    let room: usize = PLAYBACK_CAPACITY - kept;
    let dropped: usize = if buffer.len() > room {
        buffer.len() - room
    } else {
        0
    };
    let ghost before = buffer@;
    let mut i: usize = 0;
    while i < dropped
        invariant
            i <= dropped <= before.len(),
            buffer@ == before.subrange(i as int, before.len() as int),
        decreases dropped - i,
    {
        let _ = buffer.pop_front();
        i += 1;
    }
    let ghost middle = buffer@;
    let mut j: usize = first;
    while j < samples.len()
        invariant
            first <= j <= samples@.len(),
            buffer@ == middle + samples@.subrange(first as int, j as int),
        decreases samples.len() - j,
    {
        buffer.push_back(samples[j]);
        j += 1;
    }
    proof {
        let all = before + samples@;
        assert(buffer@ =~= last_of(all, PLAYBACK_CAPACITY as int));
    }
}

/// What a speaker buffer of `wanted` samples is filled with.
pub open spec fn played<T>(buffer: Seq<T>, wanted: int, silence: T) -> Seq<T> {
    Seq::new(
        wanted as nat,
        |i: int|
            if i < buffer.len() {
                buffer[i]
            } else {
                silence
            },
    )
}

/// Takes samples for the speaker; silence where nothing is buffered.
pub fn take_playback<T: Copy>(buffer: &mut VecDeque<T>, wanted: usize, silence: T) -> (out: Vec<T>)
    ensures
        out@ == played(old(buffer)@, wanted as int, silence),
        final(buffer)@ == (if wanted < old(buffer)@.len() {
            old(buffer)@.subrange(wanted as int, old(buffer)@.len() as int)
        } else {
            Seq::empty()
        }),
{
    let ghost before = buffer@;
    let mut out: Vec<T> = Vec::new();
    let mut i: usize = 0;
    while i < wanted
        invariant
            i <= wanted,
            out@ == played(before, i as int, silence),
            buffer@ == (if i < before.len() {
                before.subrange(i as int, before.len() as int)
            } else {
                Seq::empty()
            }),
        decreases wanted - i,
    {
        match buffer.pop_front() {
            Some(sample) => out.push(sample),
            None => out.push(silence),
        }
        i += 1;
        assert(out@ =~= played(before, i as int, silence));
        assert(buffer@ =~= (if i < before.len() {
            before.subrange(i as int, before.len() as int)
        } else {
            Seq::empty()
        }));
    }
    out
}

/// The whole frames at the start of a stretch of samples.
pub open spec fn frames<T>(samples: Seq<T>) -> Seq<Seq<T>>
    decreases samples.len(),
{
    if samples.len() < FRAME_SAMPLES {
        Seq::empty()
    } else {
        seq![samples.take(FRAME_SAMPLES as int)] + frames(samples.skip(FRAME_SAMPLES as int))
    }
}

/// What is left after the whole frames.
pub open spec fn remainder<T>(samples: Seq<T>) -> Seq<T>
    decreases samples.len(),
{
    if samples.len() < FRAME_SAMPLES {
        samples
    } else {
        remainder(samples.skip(FRAME_SAMPLES as int))
    }
}

pub open spec fn frame_views<T>(frames: Seq<Vec<T>>) -> Seq<Seq<T>> {
    Seq::new(frames.len(), |i: int| frames[i]@)
}

/// Collects captured samples, of any chunk size, into whole frames.
pub fn push_capture<T: Copy>(pending: &mut Vec<T>, samples: &[T]) -> (complete: Vec<Vec<T>>)
    ensures
        frame_views(complete@) == frames(old(pending)@ + samples@),
        final(pending)@ == remainder(old(pending)@ + samples@),
{
    let mut all: Vec<T> = Vec::new();
    let mut i: usize = 0;
    while i < pending.len()
        invariant
            i <= pending@.len(),
            all@ == pending@.take(i as int),
        decreases pending.len() - i,
    {
        all.push(pending[i]);
        i += 1;
        assert(all@ =~= pending@.take(i as int));
    }
    i = 0;
    while i < samples.len()
        invariant
            i <= samples@.len(),
            all@ == pending@ + samples@.take(i as int),
        decreases samples.len() - i,
    {
        all.push(samples[i]);
        i += 1;
        assert(all@ =~= pending@ + samples@.take(i as int));
    }
    let ghost whole = pending@ + samples@;
    assert(all@ =~= whole);
    let mut complete: Vec<Vec<T>> = Vec::new();
    let mut at: usize = 0;
    assert(whole.skip(0) =~= whole);
    assert(frame_views(complete@) =~= Seq::empty());
    assert(Seq::<Seq<T>>::empty() + frames(whole) =~= frames(whole));
    while all.len() - at >= FRAME_SAMPLES
        invariant
            all@ == whole,
            at <= all@.len(),
            frame_views(complete@) + frames(whole.skip(at as int)) == frames(whole),
            remainder(whole.skip(at as int)) == remainder(whole),
        decreases all.len() - at,
    {
        let mut frame: Vec<T> = Vec::new();
        let mut j: usize = 0;
        while j < FRAME_SAMPLES
            invariant
                j <= FRAME_SAMPLES,
                all@ == whole,
                at + FRAME_SAMPLES <= all@.len(),
                at + FRAME_SAMPLES <= usize::MAX,
                frame@ == whole.subrange(at as int, at + j),
            decreases FRAME_SAMPLES - j,
        {
            frame.push(all[at + j]);
            j += 1;
            assert(frame@ =~= whole.subrange(at as int, at + j));
        }
        let ghost rest = whole.skip(at as int);
        let ghost next = whole.skip(at + FRAME_SAMPLES);
        let ghost before = frame_views(complete@);
        assert(frame@ =~= rest.take(FRAME_SAMPLES as int));
        complete.push(frame);
        proof {
            assert(rest.skip(FRAME_SAMPLES as int) =~= next);
            assert(frame_views(complete@) =~= before.push(rest.take(FRAME_SAMPLES as int)));
            assert(before + (seq![rest.take(FRAME_SAMPLES as int)] + frames(next)) =~= frame_views(
                complete@,
            ) + frames(next));
        }
        at += FRAME_SAMPLES;
    }
    let mut left: Vec<T> = Vec::new();
    let ghost first = at;
    while at < all.len()
        invariant
            all@ == whole,
            first <= at <= all@.len(),
            left@ == whole.subrange(first as int, at as int),
        decreases all.len() - at,
    {
        left.push(all[at]);
        at += 1;
        assert(left@ =~= whole.subrange(first as int, at as int));
    }
    assert(left@ =~= whole.skip(first as int));
    assert(frame_views(complete@) + Seq::<Seq<T>>::empty() =~= frame_views(complete@));
    *pending = left;
    complete
}

/// How captured samples are chunked does not matter: the frames of two pushes are
/// those of one push of both.
pub proof fn law_capture_chunking<T>(pending: Seq<T>, first: Seq<T>, second: Seq<T>)
    ensures
        frames(pending + first) + frames(remainder(pending + first) + second) == frames(
            pending + (first + second),
        ),
        remainder(remainder(pending + first) + second) == remainder(pending + (first + second)),
{
    assert(pending + (first + second) =~= (pending + first) + second);
    lemma_frames_append(pending + first, second);
}

proof fn lemma_frames_append<T>(samples: Seq<T>, more: Seq<T>)
    ensures
        frames(samples) + frames(remainder(samples) + more) == frames(samples + more),
        remainder(remainder(samples) + more) == remainder(samples + more),
    decreases samples.len(),
{
    if samples.len() < FRAME_SAMPLES {
        assert(Seq::<Seq<T>>::empty() + frames(samples + more) =~= frames(samples + more));
    } else {
        let rest = samples.skip(FRAME_SAMPLES as int);
        lemma_frames_append(rest, more);
        assert((samples + more).skip(FRAME_SAMPLES as int) =~= rest + more);
        assert((samples + more).take(FRAME_SAMPLES as int) =~= samples.take(FRAME_SAMPLES as int));
        let head = seq![samples.take(FRAME_SAMPLES as int)];
        assert((head + frames(rest)) + frames(remainder(rest) + more) =~= head + (frames(rest)
            + frames(remainder(rest) + more)));
    }
}

/// No captured sample is lost or moved: the frames and what is left, in order, are
/// the samples.
pub proof fn law_capture_loses_nothing<T>(samples: Seq<T>)
    ensures
        frames(samples).flatten() + remainder(samples) == samples,
        remainder(samples).len() < FRAME_SAMPLES,
    decreases samples.len(),
{
    if samples.len() < FRAME_SAMPLES {
        assert(Seq::<Seq<T>>::empty().flatten() =~= Seq::empty());
        assert(Seq::<T>::empty() + samples =~= samples);
    } else {
        let head = samples.take(FRAME_SAMPLES as int);
        let rest = samples.skip(FRAME_SAMPLES as int);
        law_capture_loses_nothing(rest);
        let all = seq![head] + frames(rest);
        assert(all.first() == head);
        assert(all.drop_first() =~= frames(rest));
        assert(all.flatten() =~= head + frames(rest).flatten());
        assert((head + frames(rest).flatten()) + remainder(rest) =~= head + rest);
        assert(head + rest =~= samples);
    }
}

/// A buffer that overflows loses its oldest samples and nothing else: what is left is the
/// end of what there was, as much of it as fits.
pub proof fn law_newest_samples_stay<T>(items: Seq<T>, count: int)
    requires
        count >= 0,
    ensures
        last_of(items, count).is_suffix_of(items),
        last_of(items, count).len() <= count,
        items.len() <= count ==> last_of(items, count) == items,
        items.len() >= count ==> last_of(items, count).len() == count,
{
    let kept = last_of(items, count);
    assert(kept =~= items.subrange(items.len() - kept.len(), items.len() as int));
}

/// The speaker gets the buffered samples first and in order, and silence only behind them.
pub proof fn law_samples_are_played_in_order<T>(buffer: Seq<T>, wanted: int, silence: T)
    requires
        wanted >= 0,
    ensures
        played(buffer, wanted, silence).len() == wanted,
        wanted <= buffer.len() ==> played(buffer, wanted, silence) == buffer.take(wanted),
        wanted >= buffer.len() ==> buffer.is_prefix_of(played(buffer, wanted, silence)),
        forall|i: int|
            buffer.len() <= i < wanted ==> #[trigger] played(buffer, wanted, silence)[i] == silence,
{
    let out = played(buffer, wanted, silence);
    if wanted <= buffer.len() {
        assert(out =~= buffer.take(wanted));
    }
    if wanted >= buffer.len() {
        assert(buffer =~= out.subrange(0, buffer.len() as int));
    }
}

/// Every captured frame is of one length, 20 milliseconds at the codec's rate.
pub proof fn law_frames_are_whole<T>(samples: Seq<T>)
    ensures
        frames(samples).len() == samples.len() / 960,
        forall|i: int|
            0 <= i < frames(samples).len() ==> (#[trigger] frames(samples)[i]).len() == 960,
        SAMPLE_RATE == 960 * 50,
        PLAYBACK_CAPACITY == 25 * 960,
    decreases samples.len(),
{
    if samples.len() >= FRAME_SAMPLES {
        let rest = samples.skip(FRAME_SAMPLES as int);
        law_frames_are_whole(rest);
        assert forall|i: int| 0 <= i < frames(samples).len() implies (#[trigger] frames(
            samples,
        )[i]).len() == 960 by {
            if i > 0 {
                assert(frames(samples)[i] == frames(rest)[i - 1]);
            }
        }
    }
}

} // verus!
