//! The samples that are kept from one chunk to the next.

use crate::frontend::FEATURE_WINDOW_SAMPLES;
use std::collections::VecDeque;
use vstd::prelude::*;

verus! {

/// The last samples of a stream, as many as a window holds.
pub open spec fn kept_samples(stream: Seq<u32>) -> Seq<u32> {
    if stream.len() > FEATURE_WINDOW_SAMPLES {
        stream.skip(stream.len() - FEATURE_WINDOW_SAMPLES)
    } else {
        stream
    }
}

/// The window of a chunk: the kept samples behind as many zeros as they leave room
/// for.
pub open spec fn feature_window_of(audio: Seq<u32>) -> Seq<u32> {
    Seq::new((FEATURE_WINDOW_SAMPLES - audio.len()) as nat, |i: int| 0u32) + audio
}

/// Adds the samples of a chunk, and drops the oldest ones that no window needs.
pub fn push_samples(audio: &mut VecDeque<u32>, chunk: &[u32])
    ensures
        final(audio)@ == kept_samples(old(audio)@ + chunk@),
{
    let ghost stream = audio@ + chunk@;
    let mut i: usize = 0;
    while i < chunk.len()
        invariant
            i <= chunk@.len(),
            audio@ == old(audio)@ + chunk@.take(i as int),
        decreases chunk@.len() - i,
    {
        audio.push_back(chunk[i]);
        assert(audio@ =~= old(audio)@ + chunk@.take(i + 1));
        i += 1;
    }
    assert(audio@ =~= stream);
    assert(stream.skip(0) =~= stream);
    while audio.len() > FEATURE_WINDOW_SAMPLES
        invariant
            audio@.len() <= stream.len(),
            audio@ == stream.skip(stream.len() - audio@.len()),
            stream.len() > FEATURE_WINDOW_SAMPLES ==> audio@.len() >= FEATURE_WINDOW_SAMPLES,
            stream.len() <= FEATURE_WINDOW_SAMPLES ==> audio@ == stream,
        decreases audio@.len(),
    {
        let ghost before = audio@;
        audio.pop_front();
        assert(audio@ =~= stream.skip(stream.len() - audio@.len()));
    }
    assert(audio@ =~= kept_samples(stream));
}

/// Fills the window of a chunk from the kept samples.
pub fn fill_window(window: &mut Vec<u32>, audio: &VecDeque<u32>)
    requires
        old(window)@.len() == FEATURE_WINDOW_SAMPLES,
        audio@.len() <= FEATURE_WINDOW_SAMPLES,
    ensures
        final(window)@ == feature_window_of(audio@),
{
    let pad: usize = FEATURE_WINDOW_SAMPLES - audio.len();
    let mut i: usize = 0;
    while i < FEATURE_WINDOW_SAMPLES
        invariant
            i <= FEATURE_WINDOW_SAMPLES,
            pad == FEATURE_WINDOW_SAMPLES - audio@.len(),
            audio@.len() <= FEATURE_WINDOW_SAMPLES,
            window@.len() == FEATURE_WINDOW_SAMPLES,
            forall|j: int| 0 <= j < i ==> window@[j] == feature_window_of(audio@)[j],
        decreases FEATURE_WINDOW_SAMPLES - i,
    {
        let word: u32 = if i < pad {
            0
        } else {
            audio[i - pad]
        };
        window.set(i, word);
        i += 1;
    }
    assert(window@ =~= feature_window_of(audio@));
}

/// However a stream is cut into chunks, what is kept are its last samples: keeping
/// what is needed after each of two chunks is keeping it after both.
pub proof fn the_kept_samples_are_the_last_ones(stream: Seq<u32>, a: Seq<u32>, b: Seq<u32>)
    ensures
        kept_samples(kept_samples(stream + a) + b) == kept_samples(stream + a + b),
        kept_samples(stream).len() <= FEATURE_WINDOW_SAMPLES,
{
    assert(kept_samples(kept_samples(stream + a) + b) =~= kept_samples(stream + a + b));
}

/// A window is always full.
pub proof fn windows_have_one_size(audio: Seq<u32>)
    requires
        audio.len() <= FEATURE_WINDOW_SAMPLES,
    ensures
        feature_window_of(audio).len() == FEATURE_WINDOW_SAMPLES,
{
}

/// After a chunk the newest samples are kept, in their order: all of them as long as a
/// window of 2800 samples holds them, else the last 2800.
pub proof fn the_newest_samples_are_kept(audio: &mut VecDeque<u32>, chunk: &[u32])
    requires
        call_ensures(push_samples, (audio, chunk), ()),
    ensures
        ({
            let before = old(audio)@;
            let after = final(audio)@;
            let n = before.len() + chunk@.len();
            &&& after.len() == (if n < 2800 {
                n
            } else {
                2800
            })
            &&& forall|i: int|
                0 <= i < after.len() ==> #[trigger] after[i] == ({
                    let at = n - after.len() + i;
                    if at < before.len() {
                        before[at]
                    } else {
                        chunk@[at - before.len()]
                    }
                })
        }),
{
}

/// A window of 2800 samples ends with the kept samples, the newest last, and begins with
/// zeros where they leave room.
pub proof fn windows_end_with_the_newest_sample(window: &mut Vec<u32>, audio: &VecDeque<u32>)
    requires
        call_ensures(fill_window, (window, audio), ()),
        audio@.len() <= 2800,
    ensures
        final(window)@.len() == 2800,
        forall|i: int|
            0 <= i < audio@.len() ==> #[trigger] audio@[i] == final(window)@[2800 - audio@.len()
                + i],
        forall|j: int|
            0 <= j < 2800 - audio@.len() ==> #[trigger] final(window)@[j] == 0,
{
}

} // verus!
