//! The spatialization adapter: downmixes input channels to mono,
//! accumulates fixed-size blocks for an external binaural renderer, and
//! drains the rendered stereo pairs into the host's output callback.
//!
//! The renderer itself is outside work performed by the host shell: the
//! processor hands out a [`RenderCall`] each time a block fills, and the
//! shell feeds the rendered stereo pairs back through
//! [`SpatialProcessor::queue_rendered`].

use crate::math::{div_trunc, tdiv, SCALE, UNIT_NORM_SQ_MAX, UNIT_NORM_SQ_MIN};
use crate::vec3::{lemma_normalize_spec_near_unit, normalize_spec, rotate90_spec, FxVec3};
use vstd::arithmetic::div_mod::{lemma_div_by_multiple, lemma_fundamental_div_mod_converse_div};
use vstd::prelude::*;

verus! {

/// Largest sample magnitude the downmixer accepts (1000 units).
pub const MAX_SAMPLE: i64 = 1_000_000_000;

/// Largest number of input channels the downmixer accepts.
pub const MAX_CHANNELS: usize = 1024;

/// One stereo output frame.
#[derive(Clone, Copy, Debug, PartialEq, Eq, Structural)]
pub struct StereoFrame {
    pub left: i64,
    pub right: i64,
}

/// One request to the external renderer: a full mono block together with
/// the direction as of the previous block, the latest direction, and unity
/// distance gain on both ends (no distance attenuation crossfade).
pub struct RenderCall {
    /// The accumulated mono block.
    pub samples: Vec<i64>,
    /// Direction as of the last completed block.
    pub prev_direction: FxVec3,
    /// Latest direction written by the direction tracker.
    pub new_direction: FxVec3,
    /// Distance gain for the previous direction; always unity.
    pub prev_distance_gain: i64,
    /// Distance gain for the new direction; always unity.
    pub new_distance_gain: i64,
}

/// Sum of a sequence of samples.
pub open spec fn sum_seq(s: Seq<i64>) -> int
    decreases s.len(),
{
    if s.len() == 0 {
        0
    } else {
        sum_seq(s.drop_last()) + s.last()
    }
}

/// Mono downmix of one frame: the arithmetic mean of the channels'
/// samples, truncated toward zero.
pub open spec fn downmix_spec(channels: Seq<i64>) -> int {
    tdiv(sum_seq(channels), channels.len() as int)
}

/// One frame of per-channel samples the downmixer accepts.
pub open spec fn channels_ok(s: Seq<i64>) -> bool {
    &&& 1 <= s.len() <= MAX_CHANNELS
    &&& forall|i: int| 0 <= i < s.len() ==> -MAX_SAMPLE <= #[trigger] s[i] <= MAX_SAMPLE
}

/// Downmix one frame of per-channel samples to a mono sample.
pub fn downmix(channels: &Vec<i64>) -> (r: i64)
    requires
        channels_ok(channels@),
    ensures
        r == downmix_spec(channels@),
        -MAX_SAMPLE <= r <= MAX_SAMPLE,
{
    let n: usize = channels.len();
    let mut sum: i64 = 0;
    let mut k: usize = 0;
    while k < n
        invariant
            0 <= k <= n,
            n == channels@.len(),
            channels_ok(channels@),
            sum == sum_seq(channels@.take(k as int)),
            -(k as int) * (MAX_SAMPLE as int) <= sum <= (k as int) * (MAX_SAMPLE as int),
        decreases n - k,
    {
        proof {
            assert(channels@.take(k as int + 1).drop_last() =~= channels@.take(k as int));
            assert(channels@.take(k as int + 1).last() == channels@[k as int]);
        }
        sum = sum + channels[k];
        k = k + 1;
    }
    proof {
        assert(channels@.take(n as int) =~= channels@);
        crate::math::lemma_tdiv_magnitude(sum as int, n as int, MAX_SAMPLE as int);
    }
    div_trunc(sum, n as i64)
}

/// The mean of identical samples is that sample: downmixing `N` channels
/// that all hold `x` yields exactly `x`.
pub proof fn lemma_downmix_identical(s: Seq<i64>, x: i64)
    requires
        s.len() >= 1,
        forall|i: int| 0 <= i < s.len() ==> #[trigger] s[i] == x,
    ensures
        downmix_spec(s) == x,
{
    let n = s.len() as int;
    lemma_sum_seq_identical(s, x);
    assert(n * x == x * n) by (nonlinear_arith);
    if x >= 0 {
        assert(n * x >= 0) by (nonlinear_arith)
            requires
                n > 0,
                x >= 0,
        ;
        lemma_div_by_multiple(x as int, n);
        assert(tdiv(sum_seq(s), n) == x);
    } else {
        assert(n * x < 0) by (nonlinear_arith)
            requires
                n > 0,
                x < 0,
        ;
        assert(-(n * x) == (-x) * n) by (nonlinear_arith);
        lemma_div_by_multiple(-(x as int), n);
        assert(tdiv(sum_seq(s), n) == x);
    }
}

/// Sum of a constant sequence.
proof fn lemma_sum_seq_identical(s: Seq<i64>, x: i64)
    requires
        forall|i: int| 0 <= i < s.len() ==> #[trigger] s[i] == x,
    ensures
        sum_seq(s) == s.len() * x,
    decreases s.len(),
{
    if s.len() == 0 {
    } else {
        assert forall|i: int| 0 <= i < s.drop_last().len() implies #[trigger] s.drop_last()[i]
            == x by {
            assert(s.drop_last()[i] == s[i]);
        }
        lemma_sum_seq_identical(s.drop_last(), x);
        assert(s.last() == s[s.len() - 1]);
        assert((s.len() - 1) * x + x == s.len() * x) by (nonlinear_arith);
    }
}

/// The input of one callback: channel-major sample buffers, each channel
/// holding exactly `frames` bounded samples.
pub open spec fn inputs_ok(inputs: Seq<Vec<i64>>, frames: int) -> bool {
    &&& 1 <= inputs.len() <= MAX_CHANNELS
    &&& forall|c: int| 0 <= c < inputs.len() ==> (#[trigger] inputs[c])@.len() == frames
    &&& forall|c: int, f: int|
        0 <= c < inputs.len() && 0 <= f < frames ==> -MAX_SAMPLE <= #[trigger] inputs[c]@[f]
            <= MAX_SAMPLE
}

/// The per-channel samples of frame `f`, as one column.
pub open spec fn frame_column(inputs: Seq<Vec<i64>>, f: int) -> Seq<i64> {
    Seq::new(inputs.len(), |c: int| inputs[c]@[f])
}

/// The callback's input downmixed to mono, frame by frame.
pub open spec fn downmixed_stream(inputs: Seq<Vec<i64>>, frames: int) -> Seq<i64> {
    Seq::new(frames as nat, |f: int| downmix_spec(frame_column(inputs, f)) as i64)
}

/// The direction actually handed to the renderer for a raw tracker vector:
/// normalized to unit length (or zero), and, for a renderer with an
/// azimuth/elevation convention, rotated by 90 degrees about the negative
/// z axis to compensate for the axis mismatch.
pub open spec fn renderer_direction(raw: FxVec3, rotate: bool) -> FxVec3 {
    if rotate {
        rotate90_spec(normalize_spec(raw), FxVec3 { x: 0, y: 0, z: (-SCALE) as i64 })
    } else {
        normalize_spec(raw)
    }
}

/// Per-emitter spatialization state: the partially filled mono block, the
/// queue of rendered stereo pairs not yet emitted, and the direction pair
/// for the next render call.
pub struct SpatialProcessor {
    capacity: usize,
    rotate_convention: bool,
    block: Vec<i64>,
    queue: Vec<StereoFrame>,
    current_direction: FxVec3,
    previous_direction: FxVec3,
}

impl SpatialProcessor {
    /// Fixed block length handed to the renderer.
    pub closed spec fn cap_spec(self) -> int {
        self.capacity as int
    }

    /// Whether directions are rotated into the renderer's convention.
    pub closed spec fn rotates_spec(self) -> bool {
        self.rotate_convention
    }

    /// The mono samples accumulated so far toward the next block.
    pub closed spec fn block_spec(self) -> Seq<i64> {
        self.block@
    }

    /// The rendered stereo pairs awaiting output, oldest first.
    pub closed spec fn queue_spec(self) -> Seq<StereoFrame> {
        self.queue@
    }

    /// The latest direction, already in the renderer's convention.
    pub closed spec fn current_dir_spec(self) -> FxVec3 {
        self.current_direction
    }

    /// The direction as of the last completed block.
    pub closed spec fn prev_dir_spec(self) -> FxVec3 {
        self.previous_direction
    }

    /// Well-formedness: the block length is positive and the accumulator
    /// never holds a full block (a full block is flushed at once).
    pub open spec fn wf(self) -> bool {
        &&& self.cap_spec() >= 1
        &&& self.block_spec().len() < self.cap_spec()
    }

    /// A processor with an empty block, an empty queue, and both
    /// directions zero.
    pub fn new(capacity: usize, rotate_convention: bool) -> (r: SpatialProcessor)
        requires
            capacity >= 1,
        ensures
            r.wf(),
            r.cap_spec() == capacity,
            r.rotates_spec() == rotate_convention,
            r.block_spec().len() == 0,
            r.queue_spec().len() == 0,
            r.current_dir_spec().is_zero(),
            r.prev_dir_spec().is_zero(),
    {
        SpatialProcessor {
            capacity,
            rotate_convention,
            block: Vec::new(),
            queue: Vec::new(),
            current_direction: FxVec3::zero(),
            previous_direction: FxVec3::zero(),
        }
    }

    /// Apply a direction patch from the tracker: normalize it (the zero
    /// vector stays zero) and rotate it into the renderer's convention if
    /// the variant asks for it. Takes effect with the next completed
    /// block; the buffered state is untouched. The stored direction is
    /// thus the zero vector or unit length within the stated tolerance —
    /// before the optional rotation, which reorients it.
    pub fn set_direction(&mut self, raw: FxVec3)
        requires
            old(self).wf(),
            raw.dir_bounds(),
        ensures
            final(self).wf(),
            final(self).current_dir_spec() == renderer_direction(raw, old(self).rotates_spec()),
            !old(self).rotates_spec() && raw.norm_sq_spec() == 0
                ==> final(self).current_dir_spec().is_zero(),
            !old(self).rotates_spec() && raw.norm_sq_spec() != 0
                ==> UNIT_NORM_SQ_MIN <= final(self).current_dir_spec().norm_sq_spec()
                <= UNIT_NORM_SQ_MAX,
            final(self).cap_spec() == old(self).cap_spec(),
            final(self).rotates_spec() == old(self).rotates_spec(),
            final(self).block_spec() == old(self).block_spec(),
            final(self).queue_spec() == old(self).queue_spec(),
            final(self).prev_dir_spec() == old(self).prev_dir_spec(),
    {
        let normalized: FxVec3 = raw.normalize_or_zero();
        if self.rotate_convention {
            let axis: FxVec3 = FxVec3 { x: 0, y: 0, z: -SCALE };
            self.current_direction = normalized.rotate_90(axis);
        } else {
            proof {
                if raw.norm_sq_spec() != 0 {
                    lemma_normalize_spec_near_unit(raw);
                }
            }
            self.current_direction = normalized;
        }
    }

    /// Feed one frame of per-channel input samples: the frame is downmixed
    /// to mono and appended to the block. When that fills the block, the
    /// call to hand to the renderer is returned, the block is cleared, and
    /// the previous direction advances to the current one. The output
    /// queue never changes here; it only grows by what the renderer
    /// returns (see [`Self::queue_rendered`]).
    pub fn push_frame(&mut self, channels: &Vec<i64>) -> (r: Option<RenderCall>)
        requires
            old(self).wf(),
            channels_ok(channels@),
        ensures
            final(self).wf(),
            final(self).cap_spec() == old(self).cap_spec(),
            final(self).rotates_spec() == old(self).rotates_spec(),
            final(self).queue_spec() == old(self).queue_spec(),
            final(self).current_dir_spec() == old(self).current_dir_spec(),
            old(self).block_spec().len() + 1 < old(self).cap_spec() ==> {
                &&& r is None
                &&& final(self).block_spec() == old(self).block_spec().push(
                    downmix_spec(channels@) as i64,
                )
                &&& final(self).prev_dir_spec() == old(self).prev_dir_spec()
            },
            old(self).block_spec().len() + 1 == old(self).cap_spec() ==> {
                &&& r matches Some(c) && c.samples@ == old(self).block_spec().push(
                    downmix_spec(channels@) as i64,
                ) && c.prev_direction == old(self).prev_dir_spec() && c.new_direction == old(
                    self,
                ).current_dir_spec() && c.prev_distance_gain == SCALE && c.new_distance_gain
                    == SCALE
                &&& final(self).block_spec().len() == 0
                &&& final(self).prev_dir_spec() == old(self).current_dir_spec()
            },
    {
        let mono: i64 = downmix(channels);
        self.block.push(mono);
        if self.block.len() == self.capacity {
            let samples: Vec<i64> = self.block.split_off(0);
            proof {
                assert(samples@ =~= old(self).block_spec().push(mono));
                assert(self.block@ =~= Seq::<i64>::empty());
            }
            let call: RenderCall = RenderCall {
                samples,
                prev_direction: self.previous_direction,
                new_direction: self.current_direction,
                prev_distance_gain: SCALE,
                new_distance_gain: SCALE,
            };
            self.previous_direction = self.current_direction;
            Some(call)
        } else {
            None
        }
    }

    /// Append the stereo pairs one render call produced to the output
    /// queue, in order.
    pub fn queue_rendered(&mut self, rendered: &Vec<StereoFrame>)
        requires
            old(self).wf(),
        ensures
            final(self).wf(),
            final(self).queue_spec() == old(self).queue_spec() + rendered@,
            final(self).cap_spec() == old(self).cap_spec(),
            final(self).rotates_spec() == old(self).rotates_spec(),
            final(self).block_spec() == old(self).block_spec(),
            final(self).current_dir_spec() == old(self).current_dir_spec(),
            final(self).prev_dir_spec() == old(self).prev_dir_spec(),
    {
        let mut k: usize = 0;
        while k < rendered.len()
            invariant
                0 <= k <= rendered@.len(),
                self.queue@ == old(self).queue_spec() + rendered@.take(k as int),
                self.capacity == old(self).capacity,
                self.rotate_convention == old(self).rotate_convention,
                self.block@ == old(self).block@,
                self.current_direction == old(self).current_direction,
                self.previous_direction == old(self).previous_direction,
            decreases rendered@.len() - k,
        {
            proof {
                assert((old(self).queue_spec() + rendered@.take(k as int)).push(
                    rendered@[k as int],
                ) =~= old(self).queue_spec() + rendered@.take(k as int + 1));
            }
            self.queue.push(rendered[k]);
            k = k + 1;
        }
        proof {
            assert(rendered@.take(rendered@.len() as int) =~= rendered@);
        }
    }

    /// Emit exactly `frames` stereo frames: the oldest queued pairs first,
    /// then silence for any shortfall. Starvation — fewer queued pairs
    /// than requested frames — is thus answered with silence rather than
    /// an out-of-bounds read; the emitted pairs leave the queue.
    pub fn drain_output(&mut self, frames: usize) -> (out: Vec<StereoFrame>)
        requires
            old(self).wf(),
        ensures
            final(self).wf(),
            out@.len() == frames,
            final(self).cap_spec() == old(self).cap_spec(),
            final(self).rotates_spec() == old(self).rotates_spec(),
            final(self).block_spec() == old(self).block_spec(),
            final(self).current_dir_spec() == old(self).current_dir_spec(),
            final(self).prev_dir_spec() == old(self).prev_dir_spec(),
            ({
                let taken = if frames <= old(self).queue_spec().len() {
                    frames as int
                } else {
                    old(self).queue_spec().len() as int
                };
                &&& forall|i: int| 0 <= i < taken ==> out@[i] == old(self).queue_spec()[i]
                &&& forall|i: int|
                    taken <= i < frames ==> out@[i] == (StereoFrame { left: 0, right: 0 })
                &&& final(self).queue_spec() == old(self).queue_spec().skip(taken)
            }),
    {
        let take_n: usize = if frames <= self.queue.len() {
            frames
        } else {
            self.queue.len()
        };
        let mut out: Vec<StereoFrame> = Vec::new();
        let mut k: usize = 0;
        while k < take_n
            invariant
                0 <= k <= take_n <= self.queue@.len(),
                out@.len() == k,
                forall|i: int| 0 <= i < k ==> out@[i] == self.queue@[i],
                self.capacity == old(self).capacity,
                self.rotate_convention == old(self).rotate_convention,
                self.block@ == old(self).block@,
                self.queue@ == old(self).queue@,
                self.current_direction == old(self).current_direction,
                self.previous_direction == old(self).previous_direction,
            decreases take_n - k,
        {
            out.push(self.queue[k]);
            k = k + 1;
        }
        let rest: Vec<StereoFrame> = self.queue.split_off(take_n);
        self.queue = rest;
        proof {
            assert(self.queue@ =~= old(self).queue_spec().skip(take_n as int));
        }
        while out.len() < frames
            invariant
                take_n <= out@.len() <= frames,
                forall|i: int| 0 <= i < take_n ==> out@[i] == old(self).queue_spec()[i],
                forall|i: int|
                    take_n <= i < out@.len() ==> out@[i] == (StereoFrame { left: 0, right: 0 }),
                self.queue@ == old(self).queue_spec().skip(take_n as int),
                self.capacity == old(self).capacity,
                self.rotate_convention == old(self).rotate_convention,
                self.block@ == old(self).block@,
                self.current_direction == old(self).current_direction,
                self.previous_direction == old(self).previous_direction,
            decreases frames - out@.len(),
        {
            out.push(StereoFrame { left: 0, right: 0 });
        }
        out
    }

    /// Feed one whole callback of channel-major input: every frame is
    /// downmixed and accumulated, and every block completed along the way
    /// is returned as a render call, oldest first. All calls of one
    /// callback carry the same latest direction; only the first still
    /// interpolates from the direction of the last completed block.
    pub fn accumulate(&mut self, inputs: &Vec<Vec<i64>>, frames: usize) -> (calls: Vec<
        RenderCall,
    >)
        requires
            old(self).wf(),
            inputs_ok(inputs@, frames as int),
        ensures
            final(self).wf(),
            final(self).cap_spec() == old(self).cap_spec(),
            final(self).rotates_spec() == old(self).rotates_spec(),
            final(self).queue_spec() == old(self).queue_spec(),
            final(self).current_dir_spec() == old(self).current_dir_spec(),
            ({
                let stream = old(self).block_spec() + downmixed_stream(inputs@, frames as int);
                let cap = old(self).cap_spec();
                let k = calls@.len() as int;
                &&& k == stream.len() as int / cap
                &&& final(self).block_spec() == stream.skip(k * cap)
                &&& forall|j: int|
                    0 <= j < k ==> (#[trigger] calls@[j]).samples@ == stream.subrange(
                        j * cap,
                        (j + 1) * cap,
                    )
                &&& forall|j: int|
                    0 <= j < k ==> (#[trigger] calls@[j]).new_direction == old(
                        self,
                    ).current_dir_spec() && calls@[j].prev_direction == (if j == 0 {
                        old(self).prev_dir_spec()
                    } else {
                        old(self).current_dir_spec()
                    }) && calls@[j].prev_distance_gain == SCALE && calls@[j].new_distance_gain
                        == SCALE
                &&& final(self).prev_dir_spec() == (if k > 0 {
                    old(self).current_dir_spec()
                } else {
                    old(self).prev_dir_spec()
                })
            }),
    {
        let ghost stream = old(self).block_spec() + downmixed_stream(inputs@, frames as int);
        let ghost old_len = old(self).block_spec().len() as int;
        let mut calls: Vec<RenderCall> = Vec::new();
        let n_ch: usize = inputs.len();
        let mut f: usize = 0;
        proof {
            assert(calls@.len() == 0);
            assert(calls@.len() * self.cap_spec() == 0) by (nonlinear_arith)
                requires
                    calls@.len() == 0,
            ;
            assert(stream.len() == old_len + frames);
            assert forall|i: int| 0 <= i < old_len implies stream[i] == old(
                self,
            ).block_spec()[i] by {
                assert((old(self).block_spec() + downmixed_stream(inputs@, frames as int))[i]
                    == old(self).block_spec()[i]);
            }
            assert(self.block@ =~= stream.subrange(0, old_len));
        }
        while f < frames
            invariant
                self.wf(),
                inputs_ok(inputs@, frames as int),
                0 <= f <= frames,
                n_ch == inputs@.len(),
                stream == old(self).block_spec() + downmixed_stream(inputs@, frames as int),
                stream.len() == old_len + frames,
                old_len == old(self).block_spec().len(),
                self.cap_spec() == old(self).cap_spec(),
                self.rotates_spec() == old(self).rotates_spec(),
                self.queue_spec() == old(self).queue_spec(),
                self.current_dir_spec() == old(self).current_dir_spec(),
                0 <= calls@.len() * self.cap_spec() <= old_len + f,
                self.block_spec() == stream.subrange(
                    calls@.len() * self.cap_spec(),
                    old_len + f,
                ),
                forall|j: int|
                    0 <= j < calls@.len() ==> (#[trigger] calls@[j]).samples@ == stream.subrange(
                        j * self.cap_spec(),
                        (j + 1) * self.cap_spec(),
                    ),
                forall|j: int|
                    0 <= j < calls@.len() ==> (#[trigger] calls@[j]).new_direction == old(
                        self,
                    ).current_dir_spec() && calls@[j].prev_direction == (if j == 0 {
                        old(self).prev_dir_spec()
                    } else {
                        old(self).current_dir_spec()
                    }) && calls@[j].prev_distance_gain == SCALE && calls@[j].new_distance_gain
                        == SCALE,
                self.prev_dir_spec() == (if calls@.len() > 0 {
                    old(self).current_dir_spec()
                } else {
                    old(self).prev_dir_spec()
                }),
            decreases frames - f,
        {
            let mut col: Vec<i64> = Vec::new();
            let mut c: usize = 0;
            while c < n_ch
                invariant
                    0 <= c <= n_ch,
                    n_ch == inputs@.len(),
                    inputs_ok(inputs@, frames as int),
                    0 <= f < frames,
                    col@.len() == c,
                    forall|i: int| 0 <= i < c ==> #[trigger] col@[i] == inputs@[i]@[f as int],
                decreases n_ch - c,
            {
                let ch: &Vec<i64> = &inputs[c];
                col.push(ch[f]);
                c = c + 1;
            }
            proof {
                assert(col@ =~= frame_column(inputs@, f as int));
                assert forall|i: int|
                    0 <= i < col@.len() implies -MAX_SAMPLE <= #[trigger] col@[i]
                    <= MAX_SAMPLE by {
                    assert(-MAX_SAMPLE <= inputs@[i]@[f as int] <= MAX_SAMPLE);
                }
                assert(channels_ok(col@));
            }
            let ghost k_old = calls@.len() as int;
            let ghost p = old_len + f as int;
            let ghost cap = self.cap_spec();
            proof {
                assert(stream[p] == downmix_spec(frame_column(inputs@, f as int)) as i64);
            }
            let r: Option<RenderCall> = self.push_frame(&col);
            match r {
                None => {
                    proof {
                        assert(self.block@ =~= stream.subrange(k_old * cap, p + 1));
                    }
                },
                Some(call) => {
                    proof {
                        assert((k_old + 1) * cap == k_old * cap + cap) by (nonlinear_arith);
                        assert(call.samples@ =~= stream.subrange(k_old * cap, (k_old + 1) * cap));
                        assert(self.block@ =~= stream.subrange((k_old + 1) * cap, p + 1));
                    }
                    calls.push(call);
                },
            }
            f = f + 1;
        }
        proof {
            let k = calls@.len() as int;
            let cap = old(self).cap_spec();
            lemma_fundamental_div_mod_converse_div(
                stream.len() as int,
                cap,
                k,
                stream.len() - k * cap,
            );
            assert(self.block_spec() =~= stream.skip(k * cap));
        }
        calls
    }

    /// The fixed block length.
    pub fn capacity(&self) -> (r: usize)
        ensures
            r == self.cap_spec(),
    {
        self.capacity
    }

    /// How many mono samples the accumulator currently holds.
    pub fn block_len(&self) -> (r: usize)
        ensures
            r == self.block_spec().len(),
    {
        self.block.len()
    }

    /// How many rendered stereo pairs await output.
    pub fn queue_len(&self) -> (r: usize)
        ensures
            r == self.queue_spec().len(),
    {
        self.queue.len()
    }

    /// The latest direction, in the renderer's convention.
    pub fn current_direction(&self) -> (r: FxVec3)
        ensures
            r == self.current_dir_spec(),
    {
        self.current_direction
    }

    /// The direction as of the last completed block.
    pub fn previous_direction(&self) -> (r: FxVec3)
        ensures
            r == self.prev_dir_spec(),
    {
        self.previous_direction
    }

    /// The silence fast path of one callback: with every input channel
    /// silent for the whole call, the output is pure silence and — the
    /// receiver being shared — the buffered block, the queue and the
    /// direction pair are untouched; silence is never accumulated.
    pub fn silent_callback(&self, frames: usize) -> (out: Vec<StereoFrame>)
        ensures
            out@.len() == frames,
            forall|i: int| 0 <= i < frames ==> out@[i] == (StereoFrame { left: 0, right: 0 }),
    {
        let mut out: Vec<StereoFrame> = Vec::new();
        while out.len() < frames
            invariant
                out@.len() <= frames,
                forall|i: int|
                    0 <= i < out@.len() ==> out@[i] == (StereoFrame { left: 0, right: 0 }),
            decreases frames - out@.len(),
        {
            out.push(StereoFrame { left: 0, right: 0 });
        }
        out
    }
}

} // verus!
