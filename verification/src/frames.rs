use vstd::prelude::*;

verus! {

/// Sample rate, in Hz, at which the echo canceller runs.
pub const SAMPLE_RATE: u32 = 48000;

/// Number of channels the echo canceller processes.
pub const CHANNELS: u16 = 1;

/// Samples in one echo-canceller frame: 10 ms at `SAMPLE_RATE`.
pub const FRAME_SIZE: usize = 480;

/// A frame holds exactly ten milliseconds of audio at the processing rate.
pub proof fn frame_is_ten_milliseconds()
    ensures
        FRAME_SIZE * 100 == SAMPLE_RATE,
{
}

/// Folds interleaved two-channel audio to one channel.
///
/// Each pair of samples (left, right) becomes one sample, `mix(left, right)`;
/// an odd sample at the end is dropped. Input shorter than one pair is
/// passed through unchanged.
pub fn stereo_to_mono<T: Copy, F: Fn(T, T) -> T>(data: &[T], mix: F) -> (mono: Vec<T>)
    requires
        forall|a: T, b: T| call_requires(mix, (a, b)),
    ensures
        data@.len() < 2 ==> mono@ == data@,
        data@.len() >= 2 ==> mono@.len() == data@.len() / 2,
        data@.len() >= 2 ==> forall|i: int|
            0 <= i < mono@.len() ==> call_ensures(mix, (data@[2 * i], data@[2 * i + 1]), #[trigger] mono@[i]),
{
    let mut mono: Vec<T> = Vec::new();
    if data.len() < 2 {
        let mut k: usize = 0;
        while k < data.len()
            invariant
                k <= data@.len(),
                mono@ == data@.take(k as int),
            decreases data@.len() - k,
        {
            mono.push(data[k]);
            k = k + 1;
            assert(mono@ == data@.take(k as int));
        }
        assert(data@.take(data@.len() as int) == data@);
        return mono;
    }
    let pairs = data.len() / 2;
    let mut i: usize = 0;
    while i < pairs
        invariant
            pairs == data@.len() / 2,
            i <= pairs,
            mono@.len() == i,
            forall|a: T, b: T| call_requires(mix, (a, b)),
            forall|j: int| 0 <= j < i ==> call_ensures(mix, (data@[2 * j], data@[2 * j + 1]), #[trigger] mono@[j]),
        decreases pairs - i,
    {
        let m = mix(data[2 * i], data[2 * i + 1]);
        mono.push(m);
        i = i + 1;
    }
    mono
}

/// The `k`-th frame of `frame_size` samples cut from the start of `samples`.
pub open spec fn frame_at<T>(samples: Seq<T>, frame_size: nat, k: int) -> Seq<T> {
    samples.subrange(k * frame_size, (k + 1) * frame_size)
}

/// Frame `k` holds `frame_size` consecutive samples, starting at sample
/// `k * frame_size`.
pub proof fn frame_holds_consecutive_samples<T>(samples: Seq<T>, frame_size: nat, k: int)
    requires
        0 <= k,
        (k + 1) * frame_size <= samples.len(),
    ensures
        frame_at(samples, frame_size, k).len() == frame_size,
        forall|j: int| 0 <= j < frame_size ==> #[trigger] frame_at(samples, frame_size, k)[j] == samples[k * frame_size + j],
{
    assert((k + 1) * frame_size == k * frame_size + frame_size) by (nonlinear_arith);
    assert(k * frame_size >= 0) by (nonlinear_arith) requires k >= 0;
}

/// Cuts audio into consecutive frames of `frame_size` samples, from the
/// start; a partial frame left at the end is dropped.
pub fn complete_frames<T: Copy>(samples: &[T], frame_size: usize) -> (frames: Vec<Vec<T>>)
    requires
        frame_size > 0,
    ensures
        frames@.len() == samples@.len() / (frame_size as nat),
        forall|k: int| 0 <= k < frames@.len() ==> (#[trigger] frames@[k])@ == frame_at(samples@, frame_size as nat, k),
        forall|k: int| 0 <= k < frames@.len() ==> (#[trigger] frames@[k])@.len() == frame_size,
        forall|k: int, j: int| #![trigger frames@[k]@[j]] 0 <= k < frames@.len() && 0 <= j < frame_size ==>
            frames@[k]@[j] == samples@[k * frame_size + j],
{
    let mut frames: Vec<Vec<T>> = Vec::new();
    let mut start: usize = 0;
    assert(frames@.len() * frame_size == 0) by (nonlinear_arith)
        requires frames@.len() == 0;
    while frame_size <= samples.len() - start
        invariant
            frame_size > 0,
            start <= samples@.len(),
            start == frames@.len() * frame_size,
            forall|k: int| 0 <= k < frames@.len() ==> (#[trigger] frames@[k])@ == frame_at(samples@, frame_size as nat, k),
        decreases samples@.len() - start,
    {
        let mut frame: Vec<T> = Vec::new();
        let end = start + frame_size;
        let mut j: usize = start;
        while j < end
            invariant
                end == start + frame_size,
                end <= samples@.len(),
                start <= j <= end,
                frame@ == samples@.subrange(start as int, j as int),
            decreases end - j,
        {
            frame.push(samples[j]);
            j = j + 1;
            assert(frame@ == samples@.subrange(start as int, j as int));
        }
        let ghost k = frames@.len() as int;
        assert((k + 1) * frame_size == k * frame_size + frame_size) by (nonlinear_arith);
        frames.push(frame);
        start = start + frame_size;
    }
    let ghost n = frames@.len() as int;
    let ghost len = samples@.len() as int;
    let ghost fs = frame_size as int;
    assert(n == len / fs) by (nonlinear_arith)
        requires
            fs > 0,
            n * fs <= len,
            len < n * fs + fs,
    {
        vstd::arithmetic::div_mod::lemma_fundamental_div_mod(len, fs);
    }
    proof {
        assert forall|k: int| 0 <= k < frames@.len() implies (#[trigger] frames@[k])@.len() == frame_size by {
            assert((k + 1) * fs <= len) by (nonlinear_arith) requires k + 1 <= n, fs > 0, n * fs <= len;
            frame_holds_consecutive_samples(samples@, frame_size as nat, k);
        }
        assert forall|k: int, j: int| #![trigger frames@[k]@[j]] 0 <= k < frames@.len() && 0 <= j < frame_size implies
            frames@[k]@[j] == samples@[k * frame_size + j] by {
            assert((k + 1) * fs <= len) by (nonlinear_arith) requires k + 1 <= n, fs > 0, n * fs <= len;
            frame_holds_consecutive_samples(samples@, frame_size as nat, k);
        }
    }
    frames
}

} // verus!
