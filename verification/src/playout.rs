use vstd::prelude::*;
use std::collections::VecDeque;

verus! {

/// Most samples held for the virtual microphone: two seconds at 48 kHz.
pub const MAX_BUFFER_SIZE: usize = 96000;

/// The last `limit` items of `s`, or all of `s` when it is no longer.
pub open spec fn keep_newest<T>(s: Seq<T>, limit: nat) -> Seq<T> {
    if s.len() > limit {
        s.subrange(s.len() - limit, s.len() as int)
    } else {
        s
    }
}

/// Number of whole output frames (one sample per channel) that fit in
/// `data_len` interleaved samples.
pub open spec fn frames_needed(data_len: nat, channels: nat) -> nat {
    data_len / channels
}

/// Number of queued samples an output request of `data_len` interleaved
/// samples takes from a queue holding `queued_len`.
pub open spec fn frames_consumed(data_len: nat, queued_len: nat, channels: nat) -> nat {
    let needed = frames_needed(data_len, channels);
    if needed < queued_len { needed } else { queued_len }
}

/// What position `k` of an output request holds after it was served from
/// `queued`: silence everywhere when nothing is queued; otherwise frame
/// `k / channels` carries queued sample `k / channels` on every channel
/// (silence once the queue runs out), and positions past the last whole
/// frame keep their previous content.
pub open spec fn played_sample<T>(data: Seq<T>, queued: Seq<T>, channels: nat, silence: T, k: int) -> T {
    if queued.len() == 0 {
        silence
    } else if k < frames_needed(data.len(), channels) * channels {
        if k / (channels as int) < queued.len() {
            queued[k / (channels as int)]
        } else {
            silence
        }
    } else {
        data[k]
    }
}

/// The whole output request after it was served from `queued`.
pub open spec fn played_out<T>(data: Seq<T>, queued: Seq<T>, channels: nat, silence: T) -> Seq<T> {
    Seq::new(data.len(), |k: int| played_sample(data, queued, channels, silence, k))
}

/// Processed audio waiting to be played into the virtual microphone.
///
/// New audio is appended at the back; when more than `MAX_BUFFER_SIZE`
/// samples are waiting, the oldest are dropped. Playback takes samples
/// from the front.
pub struct OutputBuffer<T> {
    samples: VecDeque<T>,
}

impl<T: Copy> OutputBuffer<T> {
    /// The waiting samples, oldest first.
    pub closed spec fn contents(&self) -> Seq<T> {
        self.samples@
    }

    /// The buffer never holds more than `MAX_BUFFER_SIZE` samples.
    pub open spec fn wf(&self) -> bool {
        self.contents().len() <= MAX_BUFFER_SIZE
    }

    /// An empty buffer.
    pub fn new() -> (buf: Self)
        ensures
            buf.wf(),
            buf.contents() == Seq::<T>::empty(),
    {
        OutputBuffer { samples: VecDeque::new() }
    }

    /// Number of waiting samples.
    pub fn len(&self) -> (n: usize)
        ensures
            n == self.contents().len(),
    {
        self.samples.len()
    }

    /// Appends a processed frame, then drops the oldest samples beyond
    /// `MAX_BUFFER_SIZE`.
    pub fn push_frame(&mut self, frame: &[T])
        requires
            old(self).wf(),
        ensures
            final(self).wf(),
            final(self).contents() == keep_newest(old(self).contents() + frame@, MAX_BUFFER_SIZE as nat),
    {
        let ghost start = self.samples@;
        let mut j: usize = 0;
        assert(start + frame@.take(0) == start);
        while j < frame.len()
            invariant
                j <= frame@.len(),
                self.samples@.len() <= MAX_BUFFER_SIZE,
                self.samples@ == keep_newest(start + frame@.take(j as int), MAX_BUFFER_SIZE as nat),
            decreases frame@.len() - j,
        {
            let ghost before = self.samples@;
            let x = frame[j];
            if self.samples.len() == MAX_BUFFER_SIZE {
                self.samples.pop_front();
            }
            self.samples.push_back(x);
            proof {
                let all = start + frame@.take(j as int);
                let all2 = start + frame@.take(j + 1);
                assert(all2 == all.push(x));
                lemma_keep_newest_push(all, x, MAX_BUFFER_SIZE as nat);
                if before.len() == MAX_BUFFER_SIZE {
                    assert(self.samples@ == keep_newest(before.push(x), MAX_BUFFER_SIZE as nat));
                } else {
                    assert(self.samples@ == before.push(x));
                }
            }
            j = j + 1;
        }
        assert(frame@.take(frame@.len() as int) == frame@);
    }

    /// Serves an output request of interleaved samples with `channels`
    /// channels: every whole frame of `data` carries the next waiting sample
    /// on all its channels, or `silence` once none is left; the samples
    /// used are removed. When nothing is waiting, all of `data` is set to
    /// `silence`.
    pub fn fill_output(&mut self, data: &mut [T], channels: usize, silence: T)
        requires
            old(self).wf(),
            channels > 0,
        ensures
            final(self).wf(),
            final(data)@ == played_out(old(data)@, old(self).contents(), channels as nat, silence),
            final(self).contents() == old(self).contents().skip(
                frames_consumed(old(data)@.len(), old(self).contents().len(), channels as nat) as int,
            ),
    {
        let ghost d0 = data@;
        let ghost q = self.samples@;
        let len = data.len();
        if self.samples.len() == 0 {
            let mut k: usize = 0;
            while k < len
                invariant
                    len == data@.len(),
                    d0.len() == len,
                    q.len() == 0,
                    k <= len,
                    forall|m: int| 0 <= m < k ==> data@[m] == silence,
                decreases len - k,
            {
                data[k] = silence;
                k = k + 1;
            }
            assert(data@ == played_out(d0, q, channels as nat, silence));
            assert(q.skip(0) == q);
            return;
        }
        let frames = len / channels;
        let available = self.samples.len();
        proof {
            vstd::arithmetic::div_mod::lemma_fundamental_div_mod(len as int, channels as int);
            assert(frames * channels <= len) by (nonlinear_arith)
                requires
                    len == channels * (len / channels) + len % channels,
                    len % channels >= 0,
                    frames == len / channels;
        }
        let mut i: usize = 0;
        while i < frames
            invariant
                len == data@.len(),
                d0.len() == len,
                q == self.samples@,
                q.len() == available,
                available > 0,
                channels > 0,
                frames == len / channels,
                frames * channels <= len,
                i <= frames,
                forall|m: int| 0 <= m < i * channels ==> data@[m] == played_sample(d0, q, channels as nat, silence, m),
                forall|m: int| i * channels <= m < len ==> data@[m] == d0[m],
            decreases frames - i,
        {
            let sample = if i < available { self.samples[i] } else { silence };
            proof {
                assert((i + 1) * channels <= frames * channels) by (nonlinear_arith)
                    requires i + 1 <= frames, channels > 0;
                assert((i + 1) * channels == i * channels + channels) by (nonlinear_arith);
            }
            let base = i * channels;
            let mut ch: usize = 0;
            while ch < channels
                invariant
                    len == data@.len(),
                    d0.len() == len,
                    q.len() == available,
                    available > 0,
                    channels > 0,
                    frames == len / channels,
                    i < frames,
                    base == i * channels,
                    base + channels <= frames * channels,
                    frames * channels <= len,
                    ch <= channels,
                    sample == (if i < available { q[i as int] } else { silence }),
                    forall|m: int| 0 <= m < base + ch ==> data@[m] == played_sample(d0, q, channels as nat, silence, m),
                    forall|m: int| base + ch <= m < len ==> data@[m] == d0[m],
                decreases channels - ch,
            {
                proof {
                    vstd::arithmetic::div_mod::lemma_fundamental_div_mod_converse(
                        (base + ch) as int, channels as int, i as int, ch as int);
                    assert(base + ch < frames_needed(d0.len(), channels as nat) * channels);
                }
                data[base + ch] = sample;
                ch = ch + 1;
            }
            i = i + 1;
            assert(i * channels == base + channels) by (nonlinear_arith)
                requires base == (i - 1) * channels;
        }
        proof {
            assert forall|m: int| 0 <= m < len implies data@[m] == played_sample(d0, q, channels as nat, silence, m) by {
                if m >= frames * channels {
                    assert(data@[m] == d0[m]);
                }
            }
            assert(data@ == played_out(d0, q, channels as nat, silence));
        }
        let consumed = if frames < available { frames } else { available };
        let mut popped: usize = 0;
        while popped < consumed
            invariant
                popped <= consumed,
                consumed <= q.len(),
                self.samples@ == q.skip(popped as int),
            decreases consumed - popped,
        {
            self.samples.pop_front();
            popped = popped + 1;
        }
    }
}

/// Keeping the newest items after one more arrives is the same as keeping
/// them from the whole history with that item added.
proof fn lemma_keep_newest_push<T>(s: Seq<T>, x: T, limit: nat)
    requires
        limit > 0,
    ensures
        keep_newest(keep_newest(s, limit).push(x), limit) == keep_newest(s.push(x), limit),
{
    let k = keep_newest(s, limit);
    if s.len() > limit {
        assert(keep_newest(k.push(x), limit) =~= keep_newest(s.push(x), limit));
    } else {
        assert(k == s);
    }
}

} // verus!

verus! {

/// A frame queued into an empty buffer is played back whole and in order
/// by an output request of exactly its length in frames: output frame `i`
/// carries sample `i` of the frame on every channel, and the buffer is left
/// empty.
pub proof fn queued_frame_plays_back_in_order<T>(frame: Seq<T>, data: Seq<T>, channels: nat, silence: T)
    requires
        0 < frame.len() <= MAX_BUFFER_SIZE,
        channels > 0,
        data.len() == frame.len() * channels,
    ensures
        ({
            let queued = keep_newest(Seq::<T>::empty() + frame, MAX_BUFFER_SIZE as nat);
            &&& queued == frame
            &&& forall|k: int| 0 <= k < data.len() ==>
                #[trigger] played_out(data, queued, channels, silence)[k] == frame[k / (channels as int)]
            &&& queued.skip(frames_consumed(data.len(), queued.len(), channels) as int) == Seq::<T>::empty()
        }),
{
    let queued = keep_newest(Seq::<T>::empty() + frame, MAX_BUFFER_SIZE as nat);
    assert(Seq::<T>::empty() + frame == frame);
    assert(queued == frame);
    let c = channels as int;
    let n = frame.len() as int;
    assert(frames_needed(data.len(), channels) == n) by {
        vstd::arithmetic::div_mod::lemma_fundamental_div_mod_converse(n * c, c, n, 0);
        assert(n * c == c * n) by (nonlinear_arith);
    }
    assert forall|k: int| 0 <= k < data.len() implies
        #[trigger] played_out(data, queued, channels, silence)[k] == frame[k / c] by {
        assert(k / c < n) by (nonlinear_arith)
            requires 0 <= k < n * c, c > 0;
        assert(k / c >= 0) by (nonlinear_arith)
            requires 0 <= k, c > 0;
    }
    assert(queued.skip(n) == Seq::<T>::empty());
}

} // verus!

verus! {

/// Keeping the newest samples keeps all of them when they fit and exactly
/// `limit` otherwise, and what is kept is the tail of the history, in order.
pub proof fn kept_samples_are_the_newest<T>(s: Seq<T>, limit: nat)
    ensures
        keep_newest(s, limit).len() == (if s.len() <= limit { s.len() } else { limit }),
        forall|i: int| 0 <= i < keep_newest(s, limit).len() ==>
            #[trigger] keep_newest(s, limit)[i] == s[s.len() - keep_newest(s, limit).len() + i],
{
}

/// Serving an output request: nothing waiting gives silence everywhere;
/// otherwise whole frame `i` carries waiting sample `i` on every channel
/// (silence past the waiting samples), positions after the last whole
/// frame are left as they were, and as many samples are used as there were
/// whole frames, or waiting samples if fewer.
pub proof fn output_frames_carry_queued_samples<T>(data: Seq<T>, queued: Seq<T>, channels: nat, silence: T)
    requires
        channels > 0,
    ensures
        played_out(data, queued, channels, silence).len() == data.len(),
        frames_consumed(data.len(), queued.len(), channels) == (if data.len() / channels <= queued.len() {
            data.len() / channels
        } else {
            queued.len()
        }),
        queued.len() == 0 ==> forall|k: int| 0 <= k < data.len() ==> #[trigger] played_out(data, queued, channels, silence)[k] == silence,
        queued.len() > 0 ==> forall|i: int, ch: int| #![trigger played_out(data, queued, channels, silence)[i * channels + ch]]
            0 <= i < data.len() / channels && 0 <= ch < channels ==>
            played_out(data, queued, channels, silence)[i * channels + ch] == (if i < queued.len() { queued[i] } else { silence }),
        queued.len() > 0 ==> forall|k: int| (data.len() / channels) * channels <= k < data.len() ==>
            #[trigger] played_out(data, queued, channels, silence)[k] == data[k],
{
    let c = channels as int;
    let frames = (data.len() / channels) as int;
    assert(frames * c <= data.len()) by {
        vstd::arithmetic::div_mod::lemma_fundamental_div_mod(data.len() as int, c);
        assert(frames * c <= data.len()) by (nonlinear_arith)
            requires data.len() == c * (data.len() as int / c) + data.len() as int % c, data.len() as int % c >= 0,
                frames == data.len() as int / c;
    }
    if queued.len() > 0 {
        assert forall|i: int, ch: int| #![trigger played_out(data, queued, channels, silence)[i * channels + ch]]
            0 <= i < data.len() / channels && 0 <= ch < channels implies
            played_out(data, queued, channels, silence)[i * channels + ch] == (if i < queued.len() { queued[i] } else { silence }) by {
            vstd::arithmetic::div_mod::lemma_fundamental_div_mod_converse(i * c + ch, c, i, ch);
            assert(i * c + ch < frames * c) by (nonlinear_arith) requires i + 1 <= frames, 0 <= ch < c;
            assert(i * c + ch >= 0) by (nonlinear_arith) requires i >= 0, ch >= 0, c > 0;
        }
    }
}

} // verus!
