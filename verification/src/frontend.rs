//! The geometry of the audio front end: which samples make up a frame, and where
//! the mel frames of a chunk stand in the encoder's input.

use crate::error::{Error, ErrorView};
use crate::text::{decimal, show_decimal};
use vstd::arithmetic::div_mod::lemma_fundamental_div_mod_converse;
use vstd::prelude::*;

verus! {

/// Samples per second.
pub const SAMPLE_RATE: usize = 16000;

/// Samples of one Fourier transform.
pub const N_FFT: usize = 512;

/// Samples of one analysis window.
pub const WIN_LENGTH: usize = 400;

/// Samples from one analysis window to the next.
pub const HOP_LENGTH: usize = 160;

/// Mel bands.
pub const N_MELS: usize = 128;

/// Mel frames of the chunk before that the encoder sees again.
pub const PRE_ENCODE_CACHE: usize = 9;

/// New mel frames per chunk.
pub const FRAMES_PER_CHUNK: usize = 16;

/// Mel frames that the encoder sees at a time.
pub const SLICE_LEN: usize = PRE_ENCODE_CACHE + FRAMES_PER_CHUNK;

/// Frequency bins of one Fourier transform.
pub const FREQ_BINS: usize = N_FFT / 2 + 1;

/// Samples that the new mel frames of a chunk span.
pub const FEATURE_WINDOW_SAMPLES: usize = (FRAMES_PER_CHUNK - 1) * HOP_LENGTH + WIN_LENGTH;

/// Fourier transforms per chunk.
pub const STFT_FRAMES: usize = 1 + (FEATURE_WINDOW_SAMPLES + N_FFT - WIN_LENGTH) / HOP_LENGTH;

/// What is added to a mel energy before its logarithm is taken, 2^-24, as a word.
pub const LOG_ZERO_GUARD: u32 = 0x3380_0000;

/// The log-mel value of silence, -16.635, as a word.
pub const LOG_MEL_ZERO: u32 = 0xc185_147b;

/// The number of samples that `num_frames` frames span.
pub open spec fn samples_of_frames(num_frames: nat) -> nat {
    if num_frames == 0 {
        0
    } else {
        ((num_frames - 1) * HOP_LENGTH + WIN_LENGTH) as nat
    }
}

/// The number of samples that `num_frames` frames span.
pub fn required_audio_samples(num_frames: usize) -> (r: usize)
    requires
        samples_of_frames(num_frames as nat) <= usize::MAX,
    ensures
        r == samples_of_frames(num_frames as nat),
{
    if num_frames == 0 {
        return 0;
    }
    (num_frames - 1) * HOP_LENGTH + WIN_LENGTH
}

/// The window of a chunk is the span of its new frames.
pub proof fn the_window_spans_the_new_frames()
    ensures
        samples_of_frames(FRAMES_PER_CHUNK as nat) == FEATURE_WINDOW_SAMPLES,
{
}

/// The word at position `k` of the samples with zeros on both sides.
pub open spec fn padded_sample(samples: Seq<u32>, k: int) -> u32 {
    if N_FFT / 2 <= k < N_FFT / 2 + samples.len() {
        samples[k - N_FFT / 2]
    } else {
        0
    }
}

/// The number of frames into which `len` samples are cut, once they have zeros on
/// both sides.
pub open spec fn stft_frame_count(len: nat) -> nat {
    if len + N_FFT >= WIN_LENGTH {
        ((1 + (len + N_FFT - WIN_LENGTH) / HOP_LENGTH as int)) as nat
    } else {
        1
    }
}

/// The message about a window that is not cut into the usual number of frames.
pub open spec fn frame_count_message(count: nat) -> Seq<char> {
    "Unexpected STFT frame count: "@ + decimal(count) + ", expected "@ + decimal(
        STFT_FRAMES as nat,
    )
}

/// Checks that `len` samples are cut into the usual number of frames.
pub fn check_stft_frames(len: usize) -> (r: Result<usize, Error>)
    requires
        len + N_FFT <= usize::MAX,
    ensures
        r is Ok <==> stft_frame_count(len as nat) == STFT_FRAMES,
        r matches Ok(count) ==> count == STFT_FRAMES,
        r matches Err(e) ==> e@ == ErrorView::Audio(
            frame_count_message(stft_frame_count(len as nat)),
        ),
{
    let padded_len: usize = len + 2 * (N_FFT / 2);
    let count: usize = 1 + (padded_len - WIN_LENGTH) / HOP_LENGTH;
    if count == STFT_FRAMES {
        Ok(count)
    } else {
        let mut m = "Unexpected STFT frame count: ".to_owned();
        m.append(show_decimal(count as u128).as_str());
        m.append(", expected ");
        m.append(show_decimal(STFT_FRAMES as u128).as_str());
        Err(Error::Audio(m))
    }
}

/// The samples of frame `frame`, with zeros where there are none, or nothing where
/// the frame would end beyond the padding.
pub fn stft_frame(samples: &[u32], frame: usize) -> (r: Option<Vec<u32>>)
    requires
        samples@.len() + N_FFT <= usize::MAX,
        frame * HOP_LENGTH + WIN_LENGTH <= usize::MAX,
    ensures
        r is Some <==> frame * HOP_LENGTH + WIN_LENGTH <= samples@.len() + N_FFT,
        r matches Some(words) ==> words@ == Seq::new(
            WIN_LENGTH as nat,
            |i: int| padded_sample(samples@, frame * HOP_LENGTH + i),
        ),
{
    let pad: usize = N_FFT / 2;
    let start: usize = frame * HOP_LENGTH;
    if start + WIN_LENGTH > samples.len() + 2 * pad {
        return None;
    }
    let mut words: Vec<u32> = Vec::new();
    let mut i: usize = 0;
    while i < WIN_LENGTH
        invariant
            i <= WIN_LENGTH,
            start == frame * HOP_LENGTH,
            start + WIN_LENGTH <= usize::MAX,
            pad == N_FFT / 2,
            words@ == Seq::new(i as nat, |j: int| padded_sample(samples@, start + j)),
        decreases WIN_LENGTH - i,
    {
        let position: usize = start + i;
        let word: u32 = if position >= pad && position - pad < samples.len() {
            samples[position - pad]
        } else {
            0
        };
        words.push(word);
        assert(words@ =~= Seq::new((i + 1) as nat, |j: int| padded_sample(samples@, start + j)));
        i += 1;
    }
    Some(words)
}

/// A whole window is cut into the usual number of frames, and each of them fits.
pub proof fn a_window_gives_every_frame(frame: nat)
    requires
        frame < STFT_FRAMES,
    ensures
        stft_frame_count(FEATURE_WINDOW_SAMPLES as nat) == STFT_FRAMES,
        frame * HOP_LENGTH + WIN_LENGTH <= FEATURE_WINDOW_SAMPLES + N_FFT,
{
}

/// The columns `from` to `from + count` of a matrix with rows of `width` words.
pub open spec fn columns(
    words: Seq<u32>,
    rows: nat,
    width: nat,
    from: nat,
    count: nat,
) -> Seq<u32> {
    Seq::new(
        rows * count,
        |k: int| words[(k / count as int) * width + from + k % count as int],
    )
}

/// Two matrices with as many rows side by side.
pub open spec fn side_by_side(
    left: Seq<u32>,
    left_width: nat,
    right: Seq<u32>,
    right_width: nat,
    rows: nat,
) -> Seq<u32> {
    let width = left_width + right_width;
    Seq::new(
        rows * width,
        |k: int|
            {
                let row = k / width as int;
                let column = k % width as int;
                if column < left_width {
                    left[row * left_width + column]
                } else {
                    right[row * right_width + column - left_width]
                }
            },
    )
}

proof fn lemma_position(row: int, column: int, width: int, rows: int)
    requires
        0 <= row < rows,
        0 <= column < width,
    ensures
        (row * width + column) / width == row,
        (row * width + column) % width == column,
        0 <= row * width + column < rows * width,
        0 <= row * width,
{
    lemma_fundamental_div_mod_converse(row * width + column, width, row, column);
    assert(row * width + column < rows * width) by (nonlinear_arith)
        requires
            0 <= row < rows,
            0 <= column < width,
    ;
    assert(0 <= row * width) by (nonlinear_arith)
        requires
            0 <= row,
            0 < width,
    ;
}

/// The columns `from` to `from + count` of a matrix with rows of `width` words.
pub fn take_columns(words: &[u32], rows: usize, width: usize, from: usize, count: usize) -> (r: Vec<
    u32,
>)
    requires
        words@.len() == rows * width,
        from + count <= width,
    ensures
        r@ == columns(words@, rows as nat, width as nat, from as nat, count as nat),
{
    let total: usize = words.len();
    let mut r: Vec<u32> = Vec::new();
    let mut row: usize = 0;
    while row < rows
        invariant
            row <= rows,
            words@.len() == total == rows * width,
            from + count <= width,
            r@.len() == row * count,
            forall|k: int|
                0 <= k < r@.len() ==> r@[k] == words@[(k / count as int) * width + from + k
                    % count as int],
        decreases rows - row,
    {
        let mut column: usize = 0;
        while column < count
            invariant
                row < rows,
                column <= count,
                words@.len() == total == rows * width,
                from + count <= width,
                r@.len() == row * count + column,
                forall|k: int|
                    0 <= k < r@.len() ==> r@[k] == words@[(k / count as int) * width + from + k
                        % count as int],
            decreases count - column,
        {
            proof {
                lemma_position(row as int, column as int, count as int, rows as int);
                lemma_position(row as int, from + column, width as int, rows as int);
            }
            r.push(words[row * width + (from + column)]);
            column += 1;
        }
        assert(row * count + count == (row + 1) * count) by (nonlinear_arith);
        row += 1;
    }
    assert(r@ =~= columns(words@, rows as nat, width as nat, from as nat, count as nat));
    r
}

/// Two matrices with as many rows side by side.
pub fn join_columns(
    left: &[u32],
    left_width: usize,
    right: &[u32],
    right_width: usize,
    rows: usize,
) -> (r: Vec<u32>)
    requires
        left@.len() == rows * left_width,
        right@.len() == rows * right_width,
        left_width + right_width <= usize::MAX,
    ensures
        r@ == side_by_side(
            left@,
            left_width as nat,
            right@,
            right_width as nat,
            rows as nat,
        ),
{
    let width: usize = left_width + right_width;
    let left_total: usize = left.len();
    let right_total: usize = right.len();
    let ghost whole = side_by_side(
        left@,
        left_width as nat,
        right@,
        right_width as nat,
        rows as nat,
    );
    let mut r: Vec<u32> = Vec::new();
    let mut row: usize = 0;
    while row < rows
        invariant
            row <= rows,
            width == left_width + right_width,
            left@.len() == left_total == rows * left_width,
            right@.len() == right_total == rows * right_width,
            whole == side_by_side(
                left@,
                left_width as nat,
                right@,
                right_width as nat,
                rows as nat,
            ),
            r@.len() == row * width,
            r@.len() <= whole.len(),
            forall|k: int| 0 <= k < r@.len() ==> r@[k] == whole[k],
        decreases rows - row,
    {
        let mut column: usize = 0;
        while column < width
            invariant
                row < rows,
                column <= width,
                width == left_width + right_width,
                left@.len() == left_total == rows * left_width,
                right@.len() == right_total == rows * right_width,
                whole == side_by_side(
                    left@,
                    left_width as nat,
                    right@,
                    right_width as nat,
                    rows as nat,
                ),
                r@.len() == row * width + column,
                r@.len() <= whole.len(),
                forall|k: int| 0 <= k < r@.len() ==> r@[k] == whole[k],
            decreases width - column,
        {
            proof {
                lemma_position(row as int, column as int, width as int, rows as int);
                if column < left_width {
                    lemma_position(row as int, column as int, left_width as int, rows as int);
                } else {
                    lemma_position(
                        row as int,
                        column - left_width,
                        right_width as int,
                        rows as int,
                    );
                }
            }
            let word: u32 = if column < left_width {
                left[row * left_width + column]
            } else {
                right[row * right_width + (column - left_width)]
            };
            r.push(word);
            column += 1;
        }
        assert(row * width + width == (row + 1) * width) by (nonlinear_arith);
        row += 1;
    }
    assert(r@ =~= whole);
    r
}

/// What is set side by side can be taken apart again.
pub proof fn joined_columns_come_apart(
    left: Seq<u32>,
    left_width: nat,
    right: Seq<u32>,
    right_width: nat,
    rows: nat,
)
    requires
        left.len() == rows * left_width,
        right.len() == rows * right_width,
    ensures
        ({
            let both = side_by_side(left, left_width, right, right_width, rows);
            let width = left_width + right_width;
            &&& columns(both, rows, width, 0, left_width) == left
            &&& columns(both, rows, width, left_width, right_width) == right
        }),
{
    let both = side_by_side(left, left_width, right, right_width, rows);
    let width = left_width + right_width;
    assert forall|k: int| 0 <= k < left.len() implies columns(both, rows, width, 0, left_width)[k]
        == left[k] by {
        lemma_row_of(k, left_width as int, rows as int);
        lemma_position(k / left_width as int, k % left_width as int, width as int, rows as int);
    }
    assert forall|k: int| 0 <= k < right.len() implies columns(
        both,
        rows,
        width,
        left_width,
        right_width,
    )[k] == right[k] by {
        lemma_row_of(k, right_width as int, rows as int);
        lemma_position(
            k / right_width as int,
            left_width + k % right_width as int,
            width as int,
            rows as int,
        );
    }
    assert(columns(both, rows, width, 0, left_width) =~= left);
    assert(columns(both, rows, width, left_width, right_width) =~= right);
}

proof fn lemma_row_of(k: int, width: int, rows: int)
    requires
        0 <= k < rows * width,
        0 <= width,
        0 <= rows,
    ensures
        0 < width,
        0 <= k / width < rows,
        0 <= k % width < width,
        k == (k / width) * width + k % width,
{
    assert(width > 0) by (nonlinear_arith)
        requires
            0 <= k < rows * width,
            0 <= width,
    ;
    assert(k == (k / width) * width + k % width) by (nonlinear_arith)
        requires
            width > 0,
    ;
    assert(0 <= k / width < rows) by (nonlinear_arith)
        requires
            0 <= k < rows * width,
            width > 0,
    ;
}

/// The last columns of two matrices side by side are the last columns of the right
/// one, as long as it has that many.
pub proof fn last_joined_columns_come_from_the_right(
    left: Seq<u32>,
    left_width: nat,
    right: Seq<u32>,
    right_width: nat,
    rows: nat,
    count: nat,
)
    requires
        left.len() == rows * left_width,
        right.len() == rows * right_width,
        count <= right_width,
    ensures
        columns(
            side_by_side(left, left_width, right, right_width, rows),
            rows,
            left_width + right_width,
            (left_width + right_width - count) as nat,
            count,
        ) == columns(right, rows, right_width, (right_width - count) as nat, count),
{
    let both = side_by_side(left, left_width, right, right_width, rows);
    let width = left_width + right_width;
    let a = columns(both, rows, width, (width - count) as nat, count);
    let b = columns(right, rows, right_width, (right_width - count) as nat, count);
    assert forall|k: int| 0 <= k < rows * count implies a[k] == b[k] by {
        lemma_row_of(k, count as int, rows as int);
        lemma_position(
            k / count as int,
            width - count + k % count as int,
            width as int,
            rows as int,
        );
    }
    assert(a =~= b);
}

/// The new mel frames of a chunk: the last of `frames` columns of mel energies.
pub fn recent_frames(mel: &[u32], frames: usize) -> (r: Vec<u32>)
    requires
        mel@.len() == N_MELS * frames,
        frames >= FRAMES_PER_CHUNK,
    ensures
        r@ == columns(
            mel@,
            N_MELS as nat,
            frames as nat,
            (frames - FRAMES_PER_CHUNK) as nat,
            FRAMES_PER_CHUNK as nat,
        ),
{
    take_columns(mel, N_MELS, frames, frames - FRAMES_PER_CHUNK, FRAMES_PER_CHUNK)
}

/// The geometry of the front end, and the words of its two log-mel values.
pub proof fn the_front_end_has_one_geometry()
    ensures
        SAMPLE_RATE == 16000,
        N_FFT == 512,
        WIN_LENGTH == 400,
        HOP_LENGTH == 160,
        N_MELS == 128,
        PRE_ENCODE_CACHE == 9,
        FRAMES_PER_CHUNK == 16,
        SLICE_LEN == 25,
        FREQ_BINS == 257,
        FEATURE_WINDOW_SAMPLES == 2800,
        STFT_FRAMES == 19,
        LOG_ZERO_GUARD == 0x3380_0000,
        LOG_MEL_ZERO == 0xc185_147b,
{
}

/// No frame spans no sample, one frame spans 400, and every further one 160 more.
pub proof fn every_frame_spans_one_hop_more(n: usize, fewer: usize, more: usize)
    requires
        n < usize::MAX,
        call_ensures(required_audio_samples, (n,), fewer),
        call_ensures(required_audio_samples, ((n + 1) as usize,), more),
    ensures
        n == 0 ==> fewer == 0 && more == 400,
        n > 0 ==> more == fewer + 160,
{
}

/// Between 2768 and 2927 samples are cut into 19 frames, and no other number of them is.
pub proof fn whole_windows_pass_the_frame_check(len: usize, r: Result<usize, Error>)
    requires
        call_ensures(check_stft_frames, (len,), r),
    ensures
        r is Ok <==> 2768 <= len < 2928,
        r matches Ok(count) ==> count == 19,
        r matches Err(e) ==> e is Audio,
{
}

/// A frame holds the 400 samples from 160 times its number on, counted from 256 zeros
/// before the first sample, and zeros where there is no sample.
pub proof fn frames_hold_their_samples(samples: &[u32], frame: usize, r: Option<Vec<u32>>)
    requires
        call_ensures(stft_frame, (samples, frame), r),
    ensures
        r is Some <==> frame * 160 + 400 <= samples@.len() + 512,
        r matches Some(words) ==> {
            &&& words@.len() == 400
            &&& forall|i: int|
                0 <= i < 400 ==> #[trigger] words@[i] == (if 0 <= frame * 160 + i - 256
                    < samples@.len() {
                    samples@[frame * 160 + i - 256]
                } else {
                    0
                })
        },
{
}

proof fn lemma_column(
    words: Seq<u32>,
    rows: nat,
    width: nat,
    from: nat,
    count: nat,
    row: int,
    column: int,
)
    requires
        0 <= row < rows,
        0 <= column < count,
    ensures
        columns(words, rows, width, from, count)[row * count + column] == words[row * width + from
            + column],
        row * count + column < rows * count,
{
    lemma_position(row, column, count as int, rows as int);
}

/// Taking columns keeps every row, and of each row the words from `from` on.
pub proof fn taken_columns_hold_their_words(
    words: &[u32],
    rows: usize,
    width: usize,
    from: usize,
    count: usize,
    r: Vec<u32>,
)
    requires
        call_ensures(take_columns, (words, rows, width, from, count), r),
    ensures
        r@.len() == rows * count,
        forall|row: int, column: int|
            0 <= row < rows && 0 <= column < count ==> #[trigger] r@[row * count + column]
                == words@[row * width + from + column],
{
    assert forall|row: int, column: int|
        0 <= row < rows && 0 <= column < count implies #[trigger] r@[row * count + column]
        == words@[row * width + from + column] by {
        lemma_column(
            words@,
            rows as nat,
            width as nat,
            from as nat,
            count as nat,
            row,
            column,
        );
    }
}

/// Every row of two joined matrices is the row of the left one and then that of the right
/// one.
pub proof fn joined_rows_stand_one_after_the_other(
    left: &[u32],
    left_width: usize,
    right: &[u32],
    right_width: usize,
    rows: usize,
    r: Vec<u32>,
)
    requires
        call_ensures(join_columns, (left, left_width, right, right_width, rows), r),
    ensures
        r@.len() == rows * (left_width + right_width),
        forall|row: int, column: int|
            0 <= row < rows && 0 <= column < left_width ==> #[trigger] left@[row * left_width
                + column] == r@[row * (left_width + right_width) + column],
        forall|row: int, column: int|
            0 <= row < rows && 0 <= column < right_width ==> #[trigger] right@[row * right_width
                + column] == r@[row * (left_width + right_width) + left_width + column],
{
    let width = left_width + right_width;
    assert forall|row: int, column: int|
        0 <= row < rows && 0 <= column < left_width implies #[trigger] left@[row * left_width
        + column] == r@[row * width + column] by {
        lemma_position(row, column, width, rows as int);
    }
    assert forall|row: int, column: int|
        0 <= row < rows && 0 <= column < right_width implies #[trigger] right@[row * right_width
        + column] == r@[row * width + left_width + column] by {
        lemma_position(row, left_width + column, width, rows as int);
    }
}

/// The new mel frames are the last 16 columns of the 128 mel bands.
pub proof fn recent_frames_are_the_last_columns(mel: &[u32], frames: usize, r: Vec<u32>)
    requires
        call_ensures(recent_frames, (mel, frames), r),
        frames >= 16,
    ensures
        r@.len() == 128 * 16,
        forall|band: int, t: int|
            0 <= band < 128 && 0 <= t < 16 ==> #[trigger] r@[band * 16 + t] == mel@[band * frames
                + frames - 16 + t],
{
    assert forall|band: int, t: int|
        0 <= band < 128 && 0 <= t < 16 implies #[trigger] r@[band * 16 + t] == mel@[band * frames
        + frames - 16 + t] by {
        lemma_column(mel@, 128, frames as nat, (frames - 16) as nat, 16, band, t);
    }
}

/// The message about a window of the wrong size says into how many frames it is cut: one,
/// and one more for every 160 samples that 112 and the window hold.
pub proof fn wrong_windows_are_counted(len: usize, r: Result<usize, Error>)
    requires
        call_ensures(check_stft_frames, (len,), r),
    ensures
        r matches Err(e) ==> e@ == ErrorView::Audio(
            "Unexpected STFT frame count: "@ + decimal((1 + (len + 112) / 160) as nat)
                + ", expected "@ + decimal(19),
        ),
{
}

} // verus!
