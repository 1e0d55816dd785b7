//! Source separation: how a stereo signal is cut, padded, weighted and put
//! together again around the two Roformer models.
//!
//! The samples themselves live in arrays of the inference backend. What is
//! computed here is every number that those arrays are addressed with: index
//! tables, strided views, part boundaries, batch boundaries and window
//! weights.

use vstd::prelude::*;

use crate::db::{OutputFile, OutputFileView};
use crate::text::joined;

verus! {

/// Separation always works on stereo.
pub const AUDIO_CHANNELS: i32 = 2;

/// The sample rate the separation models were trained at.
pub const MODEL_SAMPLE_RATE: u32 = 44_100;

/// How many steps of size `step` start below `total`.
pub open spec fn steps_below(total: int, step: int) -> int {
    (total + step - 1) / step
}

/// `n` is the number of steps below `total` once `n` steps reach it and
/// `n - 1` do not.
proof fn lemma_steps_below(total: int, step: int, n: int)
    requires
        step > 0,
        n * step >= total,
        (n - 1) * step < total,
    ensures
        steps_below(total, step) == n,
{
    let r = total + step - 1 - n * step;
    assert((n - 1) * step == n * step - step) by (nonlinear_arith);
    vstd::arithmetic::div_mod::lemma_fundamental_div_mod_converse(total + step - 1, step, n, r);
}

/// Step `i` starts below `total` exactly when it is among the first
/// `steps_below(total, step)`.
proof fn lemma_step_starts_below(total: int, step: int, i: int)
    requires
        step > 0,
        total >= 0,
        i >= 0,
    ensures
        i < steps_below(total, step) <==> i * step < total,
{
    let n = steps_below(total, step);
    vstd::arithmetic::div_mod::lemma_fundamental_div_mod(total + step - 1, step);
    let r = (total + step - 1) % step;
    assert(step * n + r == total + step - 1 && 0 <= r < step);
    if i < n {
        assert(i * step <= (n - 1) * step) by (nonlinear_arith)
            requires
                i <= n - 1,
                step > 0,
        ;
        assert((n - 1) * step == step * n - step) by (nonlinear_arith);
    } else {
        assert(i * step >= n * step) by (nonlinear_arith)
            requires
                i >= n,
                step > 0,
        ;
        assert(n * step == step * n) by (nonlinear_arith);
    }
}

// ---------- reflection padding ----------

/// The sample of a signal of length `len` that stands at `pos` once `border`
/// mirrored samples are put on either side. The edge samples are not repeated.
pub open spec fn reflect_index(len: int, border: int, pos: int) -> int {
    if pos >= len + border {
        2 * len + border - 2 - pos
    } else if pos < border {
        border - pos
    } else {
        pos - border
    }
}

/// The index table that pads a signal of `audio_len` samples by `border`
/// mirrored samples on either side.
pub fn reflect_pad_for_overlap(audio_len: i32, border: i32) -> (indices: Vec<i32>)
    requires
        0 <= audio_len,
        0 <= border,
        audio_len + border * 2 <= i32::MAX,
        2 * audio_len + border <= i32::MAX,
    ensures
        indices@.len() == audio_len + border * 2,
        forall|pos: int|
            0 <= pos < indices@.len() ==> #[trigger] indices@[pos] == reflect_index(
                audio_len as int,
                border as int,
                pos,
            ),
{
    let padded_len: i32 = audio_len + border * 2;
    let mut indices: Vec<i32> = Vec::new();
    let mut pos: i32 = 0;
    while pos < padded_len
        invariant
            0 <= audio_len,
            0 <= border,
            padded_len == audio_len + border * 2,
            2 * audio_len + border <= i32::MAX,
            0 <= pos <= padded_len,
            indices@.len() == pos,
            forall|p: int|
                0 <= p < pos ==> #[trigger] indices@[p] == reflect_index(
                    audio_len as int,
                    border as int,
                    p,
                ),
        decreases padded_len - pos,
    {
        let source: i32 = if pos >= audio_len + border {
            2 * audio_len + border - 2 - pos
        } else if pos < border {
            border - pos
        } else {
            pos - border
        };
        indices.push(source);
        pos = pos + 1;
    }
    indices
}

/// Reflection padding reads inside the signal as long as the border is shorter
/// than the signal, and cutting the border off again gives the signal back.
pub proof fn law_reflect_pad_then_crop(len: int, border: int)
    requires
        0 <= border < len,
    ensures
        forall|pos: int|
            0 <= pos < len + border * 2 ==> 0 <= #[trigger] reflect_index(len, border, pos) < len,
        forall|i: int| 0 <= i < len ==> #[trigger] reflect_index(len, border, border + i) == i,
{
}

/// Reflection padding mirrors about the first and the last sample.
pub proof fn law_reflect_pad_mirrors(len: int, border: int, d: int)
    requires
        0 <= border < len,
        0 <= d <= border,
    ensures
        reflect_index(len, border, border - d) == reflect_index(len, border, border + d),
        reflect_index(len, border, border + len - 1 - d) == reflect_index(
            len,
            border,
            border + len - 1 + d,
        ),
{
}

// ---------- padding one part to the model's input size ----------

/// How a part is brought to the model's input size.
pub enum PartPadding {
    /// The part already has that size.
    Whole,
    /// The part is read through this index table.
    Reflect(Vec<i32>),
    /// This many zero samples follow the part.
    Zeros(i32),
}

/// The sample of a part of `length` samples that stands at `pos` when its end
/// is mirrored.
pub open spec fn part_reflect_index(length: int, pos: int) -> int {
    if pos < length {
        pos
    } else {
        2 * length - 2 - pos
    }
}

/// How a part of `length` samples is brought to `chunk` samples: not at all when
/// it has that size, by mirroring its end when it is longer than half of it and
/// one, else by zeros.
pub open spec fn is_part_padding(padding: PartPadding, length: int, chunk: int) -> bool {
    if length == chunk {
        padding is Whole
    } else if length > chunk / 2 + 1 {
        &&& padding matches PartPadding::Reflect(indices)
        &&& indices@.len() == chunk
        &&& forall|pos: int|
            0 <= pos < chunk ==> #[trigger] indices@[pos] == part_reflect_index(length, pos)
    } else {
        padding == PartPadding::Zeros((chunk - length) as i32)
    }
}

/// The sample at `pos` of a part of `length` samples after padding.
pub open spec fn padded_sample(
    padding: PartPadding,
    samples: spec_fn(int) -> int,
    length: int,
    pos: int,
) -> int {
    match padding {
        PartPadding::Whole => samples(pos),
        PartPadding::Reflect(indices) => samples(indices@[pos] as int),
        PartPadding::Zeros(_) => if pos < length {
            samples(pos)
        } else {
            0
        },
    }
}

/// How a part of `length` samples is brought to `chunk_size_samples`: not at
/// all when it has that size, by mirroring its end when it is longer than half
/// of it and one, else by zeros.
pub fn pad_chunk_to_model_size(length: i32, chunk_size_samples: i32) -> (padding: PartPadding)
    requires
        0 <= length <= chunk_size_samples,
        length != chunk_size_samples && length > chunk_size_samples / 2 + 1 ==> 2 * length
            <= i32::MAX,
    ensures
        is_part_padding(padding, length as int, chunk_size_samples as int),
{
    if length == chunk_size_samples {
        return PartPadding::Whole;
    }
    if length > chunk_size_samples / 2 + 1 {
        let mut indices: Vec<i32> = Vec::new();
        let mut pos: i32 = 0;
        while pos < chunk_size_samples
            invariant
                0 < length < chunk_size_samples,
                2 * length <= i32::MAX,
                0 <= pos <= chunk_size_samples,
                indices@.len() == pos,
                forall|p: int|
                    0 <= p < pos ==> #[trigger] indices@[p] == part_reflect_index(
                        length as int,
                        p,
                    ),
            decreases chunk_size_samples - pos,
        {
            let source: i32 = if pos < length {
                pos
            } else {
                2 * length - 2 - pos
            };
            indices.push(source);
            pos = pos + 1;
        }
        PartPadding::Reflect(indices)
    } else {
        PartPadding::Zeros(chunk_size_samples - length)
    }
}

/// Where a part is mirrored, the index table reads inside the part, and its
/// first `length` entries leave the part as it is.
pub proof fn law_part_padding_keeps_the_part(length: int, chunk: int)
    requires
        0 < length < chunk,
        length > chunk / 2 + 1,
    ensures
        forall|pos: int|
            0 <= pos < chunk ==> 0 <= #[trigger] part_reflect_index(length, pos) < length,
        forall|pos: int| 0 <= pos < length ==> #[trigger] part_reflect_index(length, pos) == pos,
{
}

// ---------- overlap-add addresses ----------

/// The flat address of sample `t` of channel `c` among `AUDIO_CHANNELS` rows
/// of `total_length` samples.
pub open spec fn flat_address(total_length: int, c: int, t: int) -> int {
    c * total_length + t
}

/// The flat addresses that a part of `length` samples starting at `start` is
/// added to, channel by channel.
pub fn scatter_add_overlap(start: i32, length: i32, total_length: i32) -> (indices: Vec<i64>)
    requires
        0 <= start,
        0 <= length,
        0 <= total_length,
        start + length <= i32::MAX,
        AUDIO_CHANNELS * length <= i32::MAX,
        AUDIO_CHANNELS * total_length <= i32::MAX,
    ensures
        indices@.len() == AUDIO_CHANNELS * length,
        forall|c: int, t: int|
            #![trigger flat_address(length as int, c, t)]
            0 <= c < AUDIO_CHANNELS && 0 <= t < length ==> indices@[flat_address(
                length as int,
                c,
                t,
            )] == flat_address(total_length as int, c, start + t),
{
    let mut indices: Vec<i64> = Vec::new();
    let mut t: i32 = 0;
    while t < length
        invariant
            0 <= start,
            0 <= t <= length,
            start + length <= i32::MAX,
            indices@.len() == t,
            forall|p: int| 0 <= p < t ==> #[trigger] indices@[p] == start + p,
        decreases length - t,
    {
        indices.push((start + t) as i64);
        t = t + 1;
    }
    let mut u: i32 = 0;
    while u < length
        invariant
            0 <= start,
            0 <= u <= length,
            0 <= total_length,
            start + length <= i32::MAX,
            AUDIO_CHANNELS * length <= i32::MAX,
            AUDIO_CHANNELS * total_length <= i32::MAX,
            indices@.len() == length + u,
            forall|p: int| 0 <= p < length ==> #[trigger] indices@[p] == start + p,
            forall|p: int|
                length <= p < length + u ==> #[trigger] indices@[p] == total_length + start + (p
                    - length),
        decreases length - u,
    {
        indices.push(total_length as i64 + (start + u) as i64);
        u = u + 1;
    }
    assert forall|c: int, t: int|
        #![trigger flat_address(length as int, c, t)]
        0 <= c < AUDIO_CHANNELS && 0 <= t < length implies indices@[flat_address(
        length as int,
        c,
        t,
    )] == flat_address(total_length as int, c, start + t) by {
        assert(c == 0 || c == 1);
    }
    indices
}

/// Overlap-add never leaves the accumulator and never adds two samples of one
/// part to the same place.
pub proof fn law_scatter_addresses(start: int, length: int, total: int, c: int, t: int, d: int, u: int)
    requires
        0 <= start,
        0 <= length,
        start + length <= total,
        0 <= c < AUDIO_CHANNELS,
        0 <= d < AUDIO_CHANNELS,
        0 <= t < length,
        0 <= u < length,
    ensures
        0 <= flat_address(total, c, start + t) < AUDIO_CHANNELS * total,
        flat_address(total, c, start + t) == flat_address(total, d, start + u) ==> c == d && t == u,
{
    assert(c == 0 || c == 1);
    assert(d == 0 || d == 1);
}

// ---------- windows ----------

/// The weight of one sample of a part in the overlap-add.
#[derive(Clone, Copy, PartialEq, Eq, Debug, Structural)]
pub enum Weight {
    /// Weight one.
    One,
    /// This numerator over the window's denominator.
    Fade(i32),
}

/// Weights, and the denominator of those that fade.
pub struct Window {
    pub weights: Vec<Weight>,
    pub denominator: i32,
}

/// Where a part stands in the signal.
#[derive(Clone, Copy, PartialEq, Eq, Debug, Structural)]
pub enum WindowKind {
    First,
    Last,
    Middle,
}

/// A window's fade takes a tenth of it at either end.
pub open spec fn fade_size(chunk: int) -> int {
    chunk / 10
}

/// The weight at `pos` of the plain window: it fades in over the first tenth,
/// fades out over the last tenth and is one between them.
pub open spec fn base_weight(chunk: int, pos: int) -> Weight {
    if pos >= chunk - fade_size(chunk) {
        Weight::Fade((chunk - 1 - pos) as i32)
    } else if pos < fade_size(chunk) {
        Weight::Fade(pos as i32)
    } else {
        Weight::One
    }
}

/// The weight at `pos` of a part's window: the first part does not fade in,
/// the last ones do not fade out.
pub open spec fn window_weight(kind: WindowKind, chunk: int, pos: int) -> Weight {
    match kind {
        WindowKind::First => if pos < fade_size(chunk) {
            Weight::One
        } else {
            base_weight(chunk, pos)
        },
        WindowKind::Last => if pos >= chunk - fade_size(chunk) {
            Weight::One
        } else {
            base_weight(chunk, pos)
        },
        WindowKind::Middle => base_weight(chunk, pos),
    }
}

/// The first `length` weights of the window of a part of kind `kind`.
pub fn part_window(kind: WindowKind, chunk_size_samples: i32, length: i32) -> (window: Window)
    requires
        0 < chunk_size_samples,
        0 <= length <= chunk_size_samples,
    ensures
        window.denominator == fade_size(chunk_size_samples as int) - 1,
        window.weights@ == Seq::new(
            length as nat,
            |pos: int| window_weight(kind, chunk_size_samples as int, pos),
        ),
{
    let fade: i32 = chunk_size_samples / 10;
    let mut weights: Vec<Weight> = Vec::new();
    let mut pos: i32 = 0;
    while pos < length
        invariant
            0 < chunk_size_samples,
            0 <= pos <= length <= chunk_size_samples,
            fade == fade_size(chunk_size_samples as int),
            weights@.len() == pos,
            forall|p: int|
                0 <= p < pos ==> #[trigger] weights@[p] == window_weight(
                    kind,
                    chunk_size_samples as int,
                    p,
                ),
        decreases length - pos,
    {
        let base: Weight = if pos >= chunk_size_samples - fade {
            Weight::Fade(chunk_size_samples - 1 - pos)
        } else if pos < fade {
            Weight::Fade(pos)
        } else {
            Weight::One
        };
        let weight: Weight = match kind {
            WindowKind::First => if pos < fade {
                Weight::One
            } else {
                base
            },
            WindowKind::Last => if pos >= chunk_size_samples - fade {
                Weight::One
            } else {
                base
            },
            WindowKind::Middle => base,
        };
        weights.push(weight);
        pos = pos + 1;
    }
    Window { weights, denominator: fade - 1 }
}

/// The plain window of `chunk_size_samples` samples.
pub fn windowing_array(chunk_size_samples: i32) -> (window: Window)
    requires
        0 < chunk_size_samples,
    ensures
        window.denominator == fade_size(chunk_size_samples as int) - 1,
        window.weights@ == Seq::new(
            chunk_size_samples as nat,
            |pos: int| base_weight(chunk_size_samples as int, pos),
        ),
{
    part_window(WindowKind::Middle, chunk_size_samples, chunk_size_samples)
}

// ---------- the overlapping parts of a signal ----------

/// One part of a signal that is fed to the model.
#[derive(Clone, Copy, PartialEq, Eq, Debug, Structural)]
pub struct DemixPart {
    pub offset: i32,
    pub length: i32,
    pub window: WindowKind,
}

/// How a signal is demixed part by part.
pub struct DemixPlan {
    pub chunk_size_samples: i32,
    pub step: i32,
    pub border: i32,
    pub original_len: i32,
    /// Whether the signal is padded by `border` on either side first.
    pub padded: bool,
    pub total_length: i32,
    pub parts: Vec<DemixPart>,
}

/// The distance between the starts of two parts.
pub open spec fn demix_step(chunk: int, overlap: int) -> int {
    chunk / overlap
}

/// The samples by which a long signal is padded on either side.
pub open spec fn demix_border(chunk: int, overlap: int) -> int {
    chunk - demix_step(chunk, overlap)
}

/// Whether a signal is long enough to be padded.
pub open spec fn demix_padded(len: int, chunk: int, overlap: int) -> bool {
    len > 2 * demix_border(chunk, overlap) && demix_border(chunk, overlap) > 0
}

/// The length of the signal that is cut into parts.
pub open spec fn demix_total(len: int, chunk: int, overlap: int) -> int {
    if demix_padded(len, chunk, overlap) {
        len + demix_border(chunk, overlap) * 2
    } else {
        len
    }
}

/// Part `k`.
pub open spec fn demix_part(total: int, step: int, chunk: int, k: int) -> DemixPart {
    let offset = k * step;
    DemixPart {
        offset: offset as i32,
        length: (if total - offset < chunk {
            total - offset
        } else {
            chunk
        }) as i32,
        window: if offset == 0 {
            WindowKind::First
        } else if offset + chunk >= total {
            WindowKind::Last
        } else {
            WindowKind::Middle
        },
    }
}

/// All parts, each `step` samples after the one before, as long as they start
/// inside the signal.
pub open spec fn demix_parts(total: int, step: int, chunk: int) -> Seq<DemixPart> {
    Seq::new(steps_below(total, step) as nat, |k: int| demix_part(total, step, chunk, k))
}

/// Where the last part starts.
pub open spec fn last_offset(total: int, step: int) -> int {
    (steps_below(total, step) - 1) * step
}

/// The inputs whose arithmetic stays within 32 bits. Where the last part ends
/// is added up only where there is more than one part.
pub open spec fn demix_fits(len: int, chunk: int, overlap: int) -> bool {
    let total = demix_total(len, chunk, overlap);
    let step = demix_step(chunk, overlap);
    &&& 0 <= len
    &&& 0 < overlap <= chunk
    &&& chunk <= i32::MAX
    &&& total <= i32::MAX
    &&& 2 * demix_border(chunk, overlap) <= i32::MAX
    &&& demix_padded(len, chunk, overlap) ==> 2 * len + demix_border(chunk, overlap) <= i32::MAX
    &&& step < total ==> last_offset(total, step) + chunk <= i32::MAX
}

/// The plan by which a signal of `len` samples is demixed.
pub open spec fn is_demix_plan(plan: DemixPlan, len: int, chunk: int, overlap: int) -> bool {
    &&& plan.chunk_size_samples == chunk
    &&& plan.step == demix_step(chunk, overlap)
    &&& plan.border == demix_border(chunk, overlap)
    &&& plan.original_len == len
    &&& plan.padded == demix_padded(len, chunk, overlap)
    &&& plan.total_length == demix_total(len, chunk, overlap)
    &&& plan.parts@ == demix_parts(
        demix_total(len, chunk, overlap),
        demix_step(chunk, overlap),
        chunk,
    )
}

/// How a signal of `audio_len` samples is demixed with parts of
/// `chunk_size_samples` samples of which `num_overlap` overlap everywhere.
pub fn demix_track(audio_len: i32, num_overlap: i32, chunk_size_samples: i32) -> (plan: DemixPlan)
    requires
        demix_fits(audio_len as int, chunk_size_samples as int, num_overlap as int),
    ensures
        is_demix_plan(plan, audio_len as int, chunk_size_samples as int, num_overlap as int),
{
    proof {
        lemma_demix_step(chunk_size_samples as int, num_overlap as int);
    }
    let step: i32 = chunk_size_samples / num_overlap;
    let border: i32 = chunk_size_samples - step;
    let padded: bool = audio_len > 2 * border && border > 0;
    let total_length: i32 = if padded {
        audio_len + border * 2
    } else {
        audio_len
    };
    let mut parts: Vec<DemixPart> = Vec::new();
    let mut offset: i32 = 0;
    let ghost mut k: int = 0;
    while offset < total_length
        invariant
            0 < step <= chunk_size_samples,
            step < total_length ==> last_offset(total_length as int, step as int)
                + chunk_size_samples <= i32::MAX,
            0 <= k,
            0 <= offset,
            offset == k * step,
            offset < total_length + step,
            0 <= total_length,
            k == 0 || (k - 1) * step < total_length,
            parts@.len() == k,
            forall|i: int|
                0 <= i < k ==> #[trigger] parts@[i] == demix_part(
                    total_length as int,
                    step as int,
                    chunk_size_samples as int,
                    i,
                ),
        decreases total_length + step - offset,
    {
        proof {
            if k > 0 {
                lemma_last_offset(total_length as int, step as int, k);
            } else {
                assert(k * step == 0) by (nonlinear_arith)
                    requires
                        k == 0,
                ;
            }
        }
        let left: i32 = total_length - offset;
        let length: i32 = if left < chunk_size_samples {
            left
        } else {
            chunk_size_samples
        };
        let window: WindowKind = if offset == 0 {
            WindowKind::First
        } else if offset + chunk_size_samples >= total_length {
            WindowKind::Last
        } else {
            WindowKind::Middle
        };
        parts.push(DemixPart { offset, length, window });
        proof {
            assert((k + 1) * step == k * step + step) by (nonlinear_arith);
            k = k + 1;
        }
        offset = offset + step;
    }
    proof {
        if k == 0 {
            lemma_steps_below_zero(total_length as int, step as int);
        } else {
            lemma_steps_below(total_length as int, step as int, k);
        }
        assert(parts@ =~= demix_parts(
            total_length as int,
            step as int,
            chunk_size_samples as int,
        ));
    }
    DemixPlan {
        chunk_size_samples,
        step,
        border,
        original_len: audio_len,
        padded,
        total_length,
        parts,
    }
}

/// No part starts after the last one, and only where there is more than one
/// does a part start after the first step.
proof fn lemma_last_offset(total: int, step: int, k: int)
    requires
        0 < step,
        0 < k,
        k * step < total,
    ensures
        step < total,
        k * step <= last_offset(total, step) < total,
{
    let n = steps_below(total, step);
    vstd::arithmetic::div_mod::lemma_fundamental_div_mod(total + step - 1, step);
    assert(step * n == n * step) by (nonlinear_arith);
    assert(k * step >= step) by (nonlinear_arith)
        requires
            k >= 1,
            step > 0,
    ;
    assert((n - 1) * step == n * step - step) by (nonlinear_arith);
    assert(k <= n - 1) by (nonlinear_arith)
        requires
            k * step < total,
            n * step >= total,
            step > 0,
    ;
    assert(k * step <= (n - 1) * step) by (nonlinear_arith)
        requires
            k <= n - 1,
            step > 0,
    ;
}

proof fn lemma_steps_below_zero(total: int, step: int)
    requires
        total == 0,
        step > 0,
    ensures
        steps_below(total, step) == 0,
{
    vstd::arithmetic::div_mod::lemma_fundamental_div_mod_converse(step - 1, step, 0, step - 1);
}

/// A step is at least one sample and at most a chunk, and at most half a chunk
/// once two parts overlap.
proof fn lemma_demix_step(chunk: int, overlap: int)
    requires
        0 < overlap <= chunk,
    ensures
        1 <= demix_step(chunk, overlap) <= chunk,
        overlap >= 2 ==> demix_step(chunk, overlap) * 2 <= chunk,
{
    let step = demix_step(chunk, overlap);
    vstd::arithmetic::div_mod::lemma_fundamental_div_mod(chunk, overlap);
    let r = chunk % overlap;
    assert(overlap * step + r == chunk && 0 <= r < overlap);
    assert(step >= 1) by (nonlinear_arith)
        requires
            overlap * step + r == chunk,
            r < overlap <= chunk,
            0 < overlap,
    ;
    assert(step <= overlap * step) by (nonlinear_arith)
        requires
            step >= 1,
            overlap >= 1,
    ;
    if overlap >= 2 {
        assert(2 * step <= overlap * step) by (nonlinear_arith)
            requires
                step >= 1,
                overlap >= 2,
        ;
    }
}

/// The part with the latest start at or before sample `t` reaches over it.
proof fn lemma_latest_part(total: int, step: int, chunk: int, t: int)
    requires
        0 < step <= chunk,
        0 <= t < total <= i32::MAX,
        chunk <= i32::MAX,
    ensures
        0 <= t / step < demix_parts(total, step, chunk).len(),
        t == (t / step) * step + t % step,
        0 <= t % step < step,
        ({
            let part = demix_parts(total, step, chunk)[t / step];
            part.offset == (t / step) * step && part.offset <= t < part.offset + part.length
        }),
{
    vstd::arithmetic::div_mod::lemma_fundamental_div_mod(t, step);
    let k = t / step;
    assert(step * k == k * step) by (nonlinear_arith);
    assert(k >= 0) by (nonlinear_arith)
        requires
            k * step + t % step == t,
            0 <= t % step < step,
            0 <= t,
            0 < step,
    ;
    assert(k * step >= 0) by (nonlinear_arith)
        requires
            k >= 0,
            step > 0,
    ;
    lemma_step_starts_below(total, step, k);
}

/// Some part reaches over sample `t`.
pub open spec fn lies_in_a_part(parts: Seq<DemixPart>, t: int) -> bool {
    exists|k: int|
        0 <= k < parts.len() && (#[trigger] parts[k]).offset <= t < parts[k].offset
            + parts[k].length
}

/// Every sample of the signal lies in a part, and no part leaves the signal.
pub proof fn law_parts_cover_the_signal(len: int, chunk: int, overlap: int)
    requires
        demix_fits(len, chunk, overlap),
    ensures
        ({
            let total = demix_total(len, chunk, overlap);
            let parts = demix_parts(total, demix_step(chunk, overlap), chunk);
            &&& forall|t: int| 0 <= t < total ==> #[trigger] lies_in_a_part(parts, t)
            &&& forall|k: int|
                0 <= k < parts.len() ==> 0 <= (#[trigger] parts[k]).offset && 0 < parts[k].length
                    <= chunk && parts[k].offset + parts[k].length <= total
        }),
{
    let total = demix_total(len, chunk, overlap);
    let step = demix_step(chunk, overlap);
    let parts = demix_parts(total, step, chunk);
    lemma_demix_step(chunk, overlap);
    assert forall|t: int| 0 <= t < total implies #[trigger] lies_in_a_part(parts, t) by {
        lemma_latest_part(total, step, chunk, t);
        assert(parts[t / step].offset <= t);
    }
    assert forall|k: int| 0 <= k < parts.len() implies 0 <= (#[trigger] parts[k]).offset && 0
        < parts[k].length <= chunk && parts[k].offset + parts[k].length <= total by {
        lemma_step_starts_below(total, step, k);
        assert(k * step >= 0) by (nonlinear_arith)
            requires
                k >= 0,
                step > 0,
        ;
    }
}

/// The numerator of a weight over the common denominator `fade_size - 1`, or
/// over one where the window has no fade.
pub open spec fn numerator(weight: Weight, chunk: int) -> int {
    match weight {
        Weight::One => if fade_size(chunk) > 1 {
            fade_size(chunk) - 1
        } else {
            1
        },
        Weight::Fade(n) => n as int,
    }
}

/// What a part adds to the normaliser at sample `t`.
pub open spec fn part_weight_at(part: DemixPart, chunk: int, t: int) -> int {
    if part.offset <= t < part.offset + part.length {
        numerator(window_weight(part.window, chunk, t - part.offset), chunk)
    } else {
        0
    }
}

/// The normaliser at sample `t`: the sum of the weights of all parts there.
pub open spec fn weight_sum(parts: Seq<DemixPart>, chunk: int, t: int) -> int
    decreases parts.len(),
{
    if parts.len() == 0 {
        0
    } else {
        weight_sum(parts.drop_last(), chunk, t) + part_weight_at(parts.last(), chunk, t)
    }
}

/// A sum of weights of which none is negative and one is positive is positive.
proof fn lemma_weight_sum_positive(parts: Seq<DemixPart>, chunk: int, t: int, k: int)
    requires
        forall|i: int| 0 <= i < parts.len() ==> part_weight_at(#[trigger] parts[i], chunk, t) >= 0,
        0 <= k < parts.len() ==> part_weight_at(parts[k], chunk, t) > 0,
    ensures
        weight_sum(parts, chunk, t) >= 0,
        0 <= k < parts.len() ==> weight_sum(parts, chunk, t) > 0,
    decreases parts.len(),
{
    if parts.len() > 0 {
        let rest = parts.drop_last();
        assert forall|i: int| 0 <= i < rest.len() implies part_weight_at(
            #[trigger] rest[i],
            chunk,
            t,
        ) >= 0 by {
            assert(rest[i] == parts[i]);
        }
        assert(part_weight_at(parts[parts.len() - 1], chunk, t) >= 0);
        if k < rest.len() {
            lemma_weight_sum_positive(rest, chunk, t, k);
        } else {
            lemma_weight_sum_positive(rest, chunk, t, -1);
        }
    }
}

/// The normaliser is positive everywhere, so that dividing by it is defined,
/// whenever two parts overlap everywhere, or the signal is shorter than one
/// part, or the window has no fade. (With a single layer of parts the fades of
/// a longer signal meet at weight zero, and a fade of one sample has
/// denominator zero.)
pub proof fn law_normaliser_is_positive(len: int, chunk: int, overlap: int, t: int)
    requires
        demix_fits(len, chunk, overlap),
        chunk < 10 || (chunk >= 20 && (overlap >= 2 || demix_total(len, chunk, overlap) < chunk)),
        0 <= t < demix_total(len, chunk, overlap),
    ensures
        weight_sum(
            demix_parts(demix_total(len, chunk, overlap), demix_step(chunk, overlap), chunk),
            chunk,
            t,
        ) > 0,
{
    let total = demix_total(len, chunk, overlap);
    let step = demix_step(chunk, overlap);
    let parts = demix_parts(total, step, chunk);
    lemma_demix_step(chunk, overlap);
    lemma_latest_part(total, step, chunk, t);
    law_parts_cover_the_signal(len, chunk, overlap);
    assert forall|i: int| 0 <= i < parts.len() implies part_weight_at(
        #[trigger] parts[i],
        chunk,
        t,
    ) >= 0 by {
        assert(0 <= parts[i].offset && parts[i].length <= chunk);
    }
    let k = t / step;
    let pos = t % step;
    if overlap == 1 && total < chunk {
        assert(step == chunk);
        if k >= 1 {
            assert(k * step >= step) by (nonlinear_arith)
                requires
                    k >= 1,
                    step > 0,
            ;
        }
        assert(k == 0);
    }
    if chunk < 10 || k == 0 || pos > 0 {
        if k > 0 {
            assert(k * step > 0) by (nonlinear_arith)
                requires
                    k > 0,
                    step > 0,
            ;
        } else {
            assert(k * step == 0) by (nonlinear_arith)
                requires
                    k == 0,
            ;
        }
        assert(parts[k] == demix_part(total, step, chunk, k));
        assert(t - parts[k].offset == pos);
        if chunk >= 20 {
            assert(pos < chunk - 1);
        }
        assert(part_weight_at(parts[k], chunk, t) > 0);
        lemma_weight_sum_positive(parts, chunk, t, k);
    } else {
        // The sample opens part `k`, where that part has weight zero; the part
        // before it has it one step in.
        let j = k - 1;
        assert(j * step == k * step - step) by (nonlinear_arith)
            requires
                j == k - 1,
        ;
        assert(j * step >= 0) by (nonlinear_arith)
            requires
                j >= 0,
                step > 0,
        ;
        assert(overlap >= 2);
        assert(parts[j] == demix_part(total, step, chunk, j));
        assert(t - parts[j].offset == step);
        assert(part_weight_at(parts[j], chunk, t) > 0);
        lemma_weight_sum_positive(parts, chunk, t, j);
    }
}

/// Sample `t` of the signal that is cut into parts: the signal itself, or with
/// mirrored samples on either side.
pub open spec fn mixed_sample(
    signal: spec_fn(int) -> int,
    len: int,
    chunk: int,
    overlap: int,
    t: int,
) -> int {
    if demix_padded(len, chunk, overlap) {
        signal(reflect_index(len, demix_border(chunk, overlap), t))
    } else {
        signal(t)
    }
}

/// Whether `outputs(k, pos)` is for every part `k` what the model is fed at
/// `pos`: the samples of the part, padded to the model's input size.
pub open spec fn is_passed_through(
    outputs: spec_fn(int, int) -> int,
    parts: Seq<DemixPart>,
    mix: spec_fn(int) -> int,
    chunk: int,
) -> bool {
    forall|k: int, pos: int|
        0 <= k < parts.len() && 0 <= pos < chunk ==> exists|padding: PartPadding|
            #![trigger is_part_padding(padding, parts[k].length as int, chunk)]
            is_part_padding(padding, parts[k].length as int, chunk) && #[trigger] outputs(k, pos)
                == padded_sample(
                padding,
                |p: int| mix(parts[k].offset + p),
                parts[k].length as int,
                pos,
            )
}

/// What overlap-add makes of the outputs of the model at sample `t`: the sum
/// over all parts of weight times output.
pub open spec fn overlap_sum(
    parts: Seq<DemixPart>,
    outputs: spec_fn(int, int) -> int,
    chunk: int,
    t: int,
) -> int
    decreases parts.len(),
{
    if parts.len() == 0 {
        0
    } else {
        overlap_sum(parts.drop_last(), outputs, chunk, t) + part_weight_at(parts.last(), chunk, t)
            * outputs(parts.len() - 1, t - parts.last().offset)
    }
}

/// Padding leaves the samples of a part where they are.
pub proof fn law_padding_keeps_the_samples(
    padding: PartPadding,
    samples: spec_fn(int) -> int,
    length: int,
    chunk: int,
    pos: int,
)
    requires
        is_part_padding(padding, length, chunk),
        0 <= pos < length <= chunk,
    ensures
        padded_sample(padding, samples, length, pos) == samples(pos),
{
}

/// A sum of weights times one value is that value times the sum of the weights.
proof fn lemma_overlap_sum(
    parts: Seq<DemixPart>,
    outputs: spec_fn(int, int) -> int,
    chunk: int,
    t: int,
    value: int,
)
    requires
        forall|k: int|
            0 <= k < parts.len() && (#[trigger] parts[k]).offset <= t < parts[k].offset
                + parts[k].length ==> outputs(k, t - parts[k].offset) == value,
    ensures
        overlap_sum(parts, outputs, chunk, t) == value * weight_sum(parts, chunk, t),
    decreases parts.len(),
{
    if parts.len() == 0 {
        assert(value * 0 == 0) by (nonlinear_arith);
    } else {
        let rest = parts.drop_last();
        let last = parts.last();
        assert(parts[parts.len() - 1] == last);
        assert forall|k: int|
            0 <= k < rest.len() && (#[trigger] rest[k]).offset <= t < rest[k].offset
                + rest[k].length implies outputs(k, t - rest[k].offset) == value by {
            assert(rest[k] == parts[k]);
        }
        lemma_overlap_sum(rest, outputs, chunk, t, value);
        let w = part_weight_at(last, chunk, t);
        let o = outputs(parts.len() - 1, t - last.offset);
        let before = weight_sum(rest, chunk, t);
        if last.offset <= t < last.offset + last.length {
            assert(value * before + w * o == value * (before + w)) by (nonlinear_arith)
                requires
                    o == value,
            ;
        } else {
            assert(value * before + w * o == value * (before + w)) by (nonlinear_arith)
                requires
                    w == 0,
            ;
        }
    }
}

/// With a model that passes its input through, overlap-add gives at every
/// sample of the padded signal that sample times the normaliser.
pub proof fn law_overlap_add_keeps_the_signal(
    signal: spec_fn(int) -> int,
    outputs: spec_fn(int, int) -> int,
    len: int,
    chunk: int,
    overlap: int,
    t: int,
)
    requires
        demix_fits(len, chunk, overlap),
        0 <= t < demix_total(len, chunk, overlap),
        is_passed_through(
            outputs,
            demix_parts(demix_total(len, chunk, overlap), demix_step(chunk, overlap), chunk),
            |u: int| mixed_sample(signal, len, chunk, overlap, u),
            chunk,
        ),
    ensures
        ({
            let parts = demix_parts(
                demix_total(len, chunk, overlap),
                demix_step(chunk, overlap),
                chunk,
            );
            overlap_sum(parts, outputs, chunk, t) == mixed_sample(signal, len, chunk, overlap, t)
                * weight_sum(parts, chunk, t)
        }),
{
    let parts = demix_parts(demix_total(len, chunk, overlap), demix_step(chunk, overlap), chunk);
    let mix = |u: int| mixed_sample(signal, len, chunk, overlap, u);
    law_parts_cover_the_signal(len, chunk, overlap);
    assert forall|k: int|
        0 <= k < parts.len() && (#[trigger] parts[k]).offset <= t < parts[k].offset
            + parts[k].length implies outputs(k, t - parts[k].offset) == mix(t) by {
        let pos = t - parts[k].offset;
        let length = parts[k].length as int;
        let samples = |p: int| mix(parts[k].offset + p);
        assert(0 <= pos < chunk);
        let padding = choose|padding: PartPadding|
            #![trigger is_part_padding(padding, length, chunk)]
            is_part_padding(padding, length, chunk) && outputs(k, pos) == padded_sample(
                padding,
                samples,
                length,
                pos,
            );
        law_padding_keeps_the_samples(padding, samples, length, chunk, pos);
    }
    lemma_overlap_sum(parts, outputs, chunk, t, mix(t));
}

/// Where sample `i` of a signal stands in the signal that is cut into parts,
/// and where the crop reads it.
pub open spec fn crop_place(len: int, chunk: int, overlap: int, i: int) -> int {
    if demix_padded(len, chunk, overlap) {
        demix_border(chunk, overlap) + i
    } else {
        i
    }
}

/// A model that passes its input through gives the signal back: at the place
/// from which the crop reads sample `i`, overlap-add has sample `i` times the
/// normaliser, and dividing by the normaliser leaves sample `i` wherever it is
/// positive.
pub proof fn law_a_model_that_changes_nothing_gives_the_signal_back(
    signal: spec_fn(int) -> int,
    outputs: spec_fn(int, int) -> int,
    len: int,
    chunk: int,
    overlap: int,
    i: int,
)
    requires
        demix_fits(len, chunk, overlap),
        0 <= i < len,
        is_passed_through(
            outputs,
            demix_parts(demix_total(len, chunk, overlap), demix_step(chunk, overlap), chunk),
            |u: int| mixed_sample(signal, len, chunk, overlap, u),
            chunk,
        ),
    ensures
        ({
            let parts = demix_parts(
                demix_total(len, chunk, overlap),
                demix_step(chunk, overlap),
                chunk,
            );
            let at = crop_place(len, chunk, overlap, i);
            let normaliser = weight_sum(parts, chunk, at);
            &&& 0 <= at < demix_total(len, chunk, overlap)
            &&& mixed_sample(signal, len, chunk, overlap, at) == signal(i)
            &&& overlap_sum(parts, outputs, chunk, at) == signal(i) * normaliser
            &&& normaliser > 0 ==> overlap_sum(parts, outputs, chunk, at) / normaliser == signal(i)
        }),
{
    let parts = demix_parts(demix_total(len, chunk, overlap), demix_step(chunk, overlap), chunk);
    let at = crop_place(len, chunk, overlap, i);
    let normaliser = weight_sum(parts, chunk, at);
    if demix_padded(len, chunk, overlap) {
        law_reflect_pad_then_crop(len, demix_border(chunk, overlap));
        assert(reflect_index(len, demix_border(chunk, overlap), demix_border(chunk, overlap) + i)
            == i);
    }
    law_overlap_add_keeps_the_signal(signal, outputs, len, chunk, overlap, at);
    if normaliser > 0 {
        vstd::arithmetic::div_mod::lemma_div_multiples_vanish(signal(i), normaliser);
        assert(normaliser * signal(i) == signal(i) * normaliser) by (nonlinear_arith);
    }
}

// ---------- strided views ----------

/// A view of a buffer: the element at `index` is at address `offset` plus the
/// sum of each index times its stride.
pub struct StridedView {
    pub shape: Vec<i32>,
    pub strides: Vec<i64>,
    pub offset: usize,
}

/// The address of element `(a, b)` of a two-dimensional view.
pub open spec fn address2(view: StridedView, a: int, b: int) -> int {
    view.offset + a * view.strides@[0] + b * view.strides@[1]
}

/// The address of element `(a, b, c)` of a three-dimensional view.
pub open spec fn address3(view: StridedView, a: int, b: int, c: int) -> int {
    view.offset + a * view.strides@[0] + b * view.strides@[1] + c * view.strides@[2]
}

/// The address of sample `t` of channel `c` in a plane with the strides `s0`
/// and `s1`.
pub open spec fn plane_address(s0: int, s1: int, c: int, t: int) -> int {
    c * s0 + t * s1
}

/// A view of `length` samples of every channel of a plane, from sample `start`
/// on.
pub fn plane_view(s0: usize, s1: usize, start: i32, length: i32) -> (view: StridedView)
    requires
        0 <= start,
        0 <= length,
        s0 <= i64::MAX,
        s1 <= i64::MAX,
        start * s1 <= usize::MAX,
    ensures
        view.shape@ == seq![AUDIO_CHANNELS, length],
        view.strides@ == seq![s0 as i64, s1 as i64],
        view.offset == start * s1,
        forall|c: int, t: int| #[trigger]
            address2(view, c, t) == plane_address(s0 as int, s1 as int, c, start + t),
{
    let shape: Vec<i32> = vec![AUDIO_CHANNELS, length];
    let strides: Vec<i64> = vec![s0 as i64, s1 as i64];
    let offset: usize = (start as usize) * s1;
    let view = StridedView { shape, strides, offset };
    assert forall|c: int, t: int| #[trigger]
        address2(view, c, t) == plane_address(s0 as int, s1 as int, c, start + t) by {
        assert((start + t) * s1 == start * s1 + t * s1) by (nonlinear_arith);
    }
    view
}

/// The view of a part in the signal that is demixed.
pub fn part_view(s0: usize, s1: usize, part: &DemixPart) -> (view: StridedView)
    requires
        0 <= part.offset,
        0 <= part.length,
        s0 <= i64::MAX,
        s1 <= i64::MAX,
        part.offset * s1 <= usize::MAX,
    ensures
        view.shape@ == seq![AUDIO_CHANNELS, part.length],
        view.strides@ == seq![s0 as i64, s1 as i64],
        view.offset == part.offset * s1,
        forall|c: int, t: int| #[trigger]
            address2(view, c, t) == plane_address(s0 as int, s1 as int, c, part.offset + t),
{
    plane_view(s0, s1, part.offset, part.length)
}

/// The view of the demixed signal without the border that it was padded with;
/// `None` where it was not padded.
pub fn crop_view(s0: usize, s1: usize, plan: &DemixPlan) -> (view: Option<StridedView>)
    requires
        0 <= plan.border,
        0 <= plan.original_len,
        s0 <= i64::MAX,
        s1 <= i64::MAX,
        plan.border * s1 <= usize::MAX,
    ensures
        view is Some <==> plan.padded,
        view matches Some(v) ==> {
            &&& v.shape@ == seq![AUDIO_CHANNELS, plan.original_len]
            &&& v.strides@ == seq![s0 as i64, s1 as i64]
            &&& v.offset == plan.border * s1
            &&& forall|c: int, t: int| #[trigger]
                address2(v, c, t) == plane_address(s0 as int, s1 as int, c, plan.border + t)
        },
{
    if plan.padded {
        Some(plane_view(s0, s1, plan.border, plan.original_len))
    } else {
        None
    }
}

/// The view of the first `length` samples of every channel of a model's
/// output for one part.
pub fn output_view(s0: usize, s1: usize, s2: usize, length: i32) -> (view: StridedView)
    requires
        0 <= length,
        s0 <= i64::MAX,
        s1 <= i64::MAX,
        s2 <= i64::MAX,
    ensures
        view.shape@ == seq![1i32, AUDIO_CHANNELS, length],
        view.strides@ == seq![s0 as i64, s1 as i64, s2 as i64],
        view.offset == 0,
        forall|c: int, t: int| #[trigger]
            address3(view, 0, c, t) == plane_address(s1 as int, s2 as int, c, t),
{
    let shape: Vec<i32> = vec![1i32, AUDIO_CHANNELS, length];
    let strides: Vec<i64> = vec![s0 as i64, s1 as i64, s2 as i64];
    StridedView { shape, strides, offset: 0 }
}

// ---------- equal chunks in batches ----------

/// How a signal is cut into chunks of one size.
#[derive(Clone, Copy, PartialEq, Eq, Debug, Structural)]
pub struct ChunkPlan {
    pub chunk_size_samples: i32,
    pub audio_samples: i32,
    /// The length after padding, a multiple of the chunk size.
    pub full_samples: i32,
    /// The zero samples that follow the signal.
    pub padding: i32,
    pub clips: i32,
}

/// The plan by which a signal of `len` samples is cut into chunks.
pub open spec fn is_chunk_plan(plan: ChunkPlan, len: int, chunk: int) -> bool {
    &&& plan.chunk_size_samples == chunk
    &&& plan.audio_samples == len
    &&& plan.clips == steps_below(len, chunk)
    &&& plan.full_samples == plan.clips * chunk
    &&& plan.padding == plan.full_samples - len
    &&& 0 <= plan.padding < chunk
}

/// How `audio_samples` samples are cut into chunks of `chunk_size_samples`,
/// the last one filled up with zeros.
pub fn chunk_audio(audio_samples: i32, chunk_size_samples: i32) -> (plan: ChunkPlan)
    requires
        0 <= audio_samples,
        0 < chunk_size_samples,
        audio_samples + chunk_size_samples <= i32::MAX,
    ensures
        is_chunk_plan(plan, audio_samples as int, chunk_size_samples as int),
{
    let ghost n = audio_samples as int;
    let ghost c = chunk_size_samples as int;
    proof {
        vstd::arithmetic::div_mod::lemma_fundamental_div_mod(n + c - 1, c);
        let q = steps_below(n, c);
        assert(c * q == q * c) by (nonlinear_arith);
        vstd::arithmetic::div_mod::lemma_fundamental_div_mod_converse(q * c, c, q, 0);
        assert(q >= 0) by (nonlinear_arith)
            requires
                q * c > n - 1,
                n >= 0,
                c > 0,
        ;
    }
    let count: i32 = (audio_samples + chunk_size_samples - 1) / chunk_size_samples;
    let full_samples: i32 = count * chunk_size_samples;
    let clips: i32 = full_samples / chunk_size_samples;
    ChunkPlan {
        chunk_size_samples,
        audio_samples,
        full_samples,
        padding: full_samples - audio_samples,
        clips,
    }
}

/// The view of a padded signal as channels of chunks.
pub fn chunk_view(s0: usize, s1: usize, plan: &ChunkPlan) -> (view: StridedView)
    requires
        0 <= plan.chunk_size_samples,
        s0 <= i64::MAX,
        s1 <= i64::MAX,
        plan.chunk_size_samples * s1 <= i64::MAX,
        plan.chunk_size_samples * s1 <= usize::MAX,
    ensures
        view.shape@ == seq![AUDIO_CHANNELS, plan.clips, plan.chunk_size_samples],
        view.strides@ == seq![s0 as i64, (plan.chunk_size_samples * s1) as i64, s1 as i64],
        view.offset == 0,
        forall|c: int, k: int, p: int| #[trigger]
            address3(view, c, k, p) == plane_address(
                s0 as int,
                s1 as int,
                c,
                k * plan.chunk_size_samples + p,
            ),
{
    let shape: Vec<i32> = vec![AUDIO_CHANNELS, plan.clips, plan.chunk_size_samples];
    let chunk_stride: usize = (plan.chunk_size_samples as usize) * s1;
    let strides: Vec<i64> = vec![s0 as i64, chunk_stride as i64, s1 as i64];
    let view = StridedView { shape, strides, offset: 0 };
    assert forall|c: int, k: int, p: int| #[trigger]
        address3(view, c, k, p) == plane_address(
            s0 as int,
            s1 as int,
            c,
            k * plan.chunk_size_samples + p,
        ) by {
        let m = plan.chunk_size_samples as int;
        assert((k * m + p) * s1 == k * (m * s1) + p * s1) by (nonlinear_arith);
    }
    view
}

/// A run of clips that is fed to the model at once.
#[derive(Clone, Copy, PartialEq, Eq, Debug, Structural)]
pub struct Batch {
    pub pointer: i32,
    pub size: i32,
}

/// Batch `i` of `clips` clips.
pub open spec fn batch_at(clips: int, batch_size: int, i: int) -> Batch {
    let pointer = i * batch_size;
    Batch {
        pointer: pointer as i32,
        size: (if clips - pointer < batch_size {
            clips - pointer
        } else {
            batch_size
        }) as i32,
    }
}

/// The batches in which `clips` clips are fed to the model.
pub open spec fn batches_of(clips: int, batch_size: int) -> Seq<Batch> {
    Seq::new(
        steps_below(clips, batch_size) as nat,
        |i: int| batch_at(clips, batch_size, i),
    )
}

/// The batches in which `clips` clips are fed to the model.
pub fn infer_chunks(clips: i32, batch_size: i32) -> (batches: Vec<Batch>)
    requires
        0 <= clips,
        0 < batch_size,
    ensures
        batches@ == batches_of(clips as int, batch_size as int),
{
    let mut batches: Vec<Batch> = Vec::new();
    let mut pointer: i32 = 0;
    let ghost mut k: int = 0;
    while pointer < clips
        invariant
            0 < batch_size,
            0 <= pointer <= clips,
            0 <= k,
            pointer < clips ==> pointer == k * batch_size,
            clips <= k * batch_size || pointer == k * batch_size,
            k == 0 || (k - 1) * batch_size < clips,
            k == 0 ==> pointer == 0,
            batches@.len() == k,
            forall|i: int|
                0 <= i < k ==> #[trigger] batches@[i] == batch_at(
                    clips as int,
                    batch_size as int,
                    i,
                ),
        decreases clips - pointer,
    {
        let left: i32 = clips - pointer;
        let size: i32 = if left < batch_size {
            left
        } else {
            batch_size
        };
        batches.push(Batch { pointer, size });
        proof {
            assert((k + 1) * batch_size == k * batch_size + batch_size) by (nonlinear_arith);
            k = k + 1;
        }
        pointer = pointer + size;
    }
    proof {
        if k == 0 {
            lemma_steps_below_zero(clips as int, batch_size as int);
        } else {
            lemma_steps_below(clips as int, batch_size as int, k);
        }
        assert(batches@ =~= batches_of(clips as int, batch_size as int));
    }
    batches
}

/// The view of a batch among the clips.
pub fn batch_view(s0: usize, s1: usize, s2: usize, channels: i32, chunk_size_samples: i32, batch: &Batch) -> (view:
    StridedView)
    requires
        0 <= batch.pointer,
        s0 <= i64::MAX,
        s1 <= i64::MAX,
        s2 <= i64::MAX,
        batch.pointer * s0 <= usize::MAX,
    ensures
        view.shape@ == seq![batch.size, channels, chunk_size_samples],
        view.strides@ == seq![s0 as i64, s1 as i64, s2 as i64],
        view.offset == batch.pointer * s0,
        forall|k: int, c: int, p: int| #[trigger]
            address3(view, k, c, p) == (batch.pointer + k) * s0 + c * s1 + p * s2,
{
    let shape: Vec<i32> = vec![batch.size, channels, chunk_size_samples];
    let strides: Vec<i64> = vec![s0 as i64, s1 as i64, s2 as i64];
    let offset: usize = (batch.pointer as usize) * s0;
    let view = StridedView { shape, strides, offset };
    assert forall|k: int, c: int, p: int| #[trigger]
        address3(view, k, c, p) == (batch.pointer + k) * s0 + c * s1 + p * s2 by {
        assert((batch.pointer + k) * s0 == batch.pointer * s0 + k * s0) by (nonlinear_arith);
    }
    view
}

/// The rows and columns of the joined-up chunks of a restored signal.
pub fn restored_shape(clips: i32, channels: i32, chunk_size_samples: i32) -> (shape: Vec<i32>)
    requires
        0 <= clips,
        0 <= chunk_size_samples,
        clips * chunk_size_samples <= i32::MAX,
    ensures
        shape@ == seq![channels, (clips * chunk_size_samples) as i32],
{
    proof {
        assert(0 <= clips * chunk_size_samples) by (nonlinear_arith)
            requires
                0 <= clips,
                0 <= chunk_size_samples,
        ;
    }
    vec![channels, clips * chunk_size_samples]
}

/// The view of the joined-up chunks without the zeros that the signal was
/// filled up with.
pub fn restore_audio(s0: usize, s1: usize, channels: i32, audio_samples: i32) -> (view: StridedView)
    requires
        s0 <= i64::MAX,
        s1 <= i64::MAX,
    ensures
        view.shape@ == seq![channels, audio_samples],
        view.strides@ == seq![s0 as i64, s1 as i64],
        view.offset == 0,
        forall|c: int, t: int| #[trigger]
            address2(view, c, t) == plane_address(s0 as int, s1 as int, c, t),
{
    let shape: Vec<i32> = vec![channels, audio_samples];
    let strides: Vec<i64> = vec![s0 as i64, s1 as i64];
    StridedView { shape, strides, offset: 0 }
}

/// Every sample of a signal stands in exactly one place of one chunk, and
/// joining the chunks up puts it back where it was.
pub proof fn law_chunks_restore_the_signal(audio_samples: int, chunk: int, t: int)
    requires
        0 < chunk,
        0 <= t < audio_samples,
    ensures
        0 <= t / chunk < steps_below(audio_samples, chunk),
        0 <= t % chunk < chunk,
        (t / chunk) * chunk + t % chunk == t,
        forall|k: int, p: int|
            #![trigger k * chunk + p]
            0 <= p < chunk && k * chunk + p == t ==> k == t / chunk && p == t % chunk,
{
    vstd::arithmetic::div_mod::lemma_fundamental_div_mod(t, chunk);
    assert(chunk * (t / chunk) == (t / chunk) * chunk) by (nonlinear_arith);
    assert(t / chunk >= 0) by (nonlinear_arith)
        requires
            (t / chunk) * chunk + t % chunk == t,
            t % chunk < chunk,
            t >= 0,
            chunk > 0,
    ;
    lemma_step_starts_below(audio_samples, chunk, t / chunk);
    assert forall|k: int, p: int|
        #![trigger k * chunk + p]
        0 <= p < chunk && k * chunk + p == t implies k == t / chunk && p == t % chunk by {
        vstd::arithmetic::div_mod::lemma_fundamental_div_mod_converse(t, chunk, k, p);
    }
}

/// Sample `p` of channel `c` of chunk `k` of a signal of `len` samples, which
/// zeros follow.
pub open spec fn chunk_sample(
    signal: spec_fn(int, int) -> int,
    len: int,
    chunk: int,
    k: int,
    c: int,
    p: int,
) -> int {
    if k * chunk + p < len {
        signal(c, k * chunk + p)
    } else {
        0
    }
}

/// Sample `t` of channel `c` after chunks are joined end to end.
pub open spec fn joined_sample(
    chunks: spec_fn(int, int, int) -> int,
    chunk: int,
    c: int,
    t: int,
) -> int {
    chunks(t / chunk, c, t % chunk)
}

/// Cutting a signal into chunks and joining them gives back every sample in its
/// place; what the crop drops is zeros alone, and no more than fill up a chunk.
pub proof fn law_cutting_and_joining_gives_the_signal_back(
    signal: spec_fn(int, int) -> int,
    plan: ChunkPlan,
    len: int,
    chunk: int,
    c: int,
    t: int,
)
    requires
        0 < chunk,
        is_chunk_plan(plan, len, chunk),
        0 <= t < plan.full_samples,
    ensures
        ({
            let chunks = |k: int, d: int, p: int| chunk_sample(signal, len, chunk, k, d, p);
            &&& 0 <= t / chunk < plan.clips
            &&& 0 <= t % chunk < chunk
            &&& t < len ==> joined_sample(chunks, chunk, c, t) == signal(c, t)
            &&& t >= len ==> joined_sample(chunks, chunk, c, t) == 0
            &&& len <= plan.full_samples < len + chunk
        }),
{
    vstd::arithmetic::div_mod::lemma_fundamental_div_mod(t, chunk);
    let q = t / chunk;
    let n = plan.clips as int;
    assert(chunk * q == q * chunk) by (nonlinear_arith);
    assert(0 <= q < n) by (nonlinear_arith)
        requires
            q * chunk + t % chunk == t,
            0 <= t % chunk < chunk,
            0 <= t < n * chunk,
            0 < chunk,
    ;
}

/// The batches hold every clip once, in order, and nothing else.
pub proof fn law_batches_partition_the_clips(clips: int, batch_size: int, clip: int)
    requires
        0 <= clips <= i32::MAX,
        0 < batch_size <= i32::MAX,
        0 <= clip < clips,
    ensures
        ({
            let i = clip / batch_size;
            let batch = batch_at(clips, batch_size, i);
            &&& 0 <= i < steps_below(clips, batch_size)
            &&& batch.pointer <= clip < batch.pointer + batch.size
            &&& batch.size <= batch_size
            &&& batch.pointer + batch.size <= clips
        }),
        forall|j: int|
            0 <= j < steps_below(clips, batch_size) && j != clip / batch_size ==> !((
            #[trigger] batch_at(clips, batch_size, j)).pointer <= clip < batch_at(
                clips,
                batch_size,
                j,
            ).pointer + batch_at(clips, batch_size, j).size),
{
    let i = clip / batch_size;
    vstd::arithmetic::div_mod::lemma_fundamental_div_mod(clip, batch_size);
    assert(batch_size * i == i * batch_size) by (nonlinear_arith);
    assert(i >= 0) by (nonlinear_arith)
        requires
            i * batch_size + clip % batch_size == clip,
            clip % batch_size < batch_size,
            clip >= 0,
            batch_size > 0,
    ;
    assert(i * batch_size >= 0) by (nonlinear_arith)
        requires
            i >= 0,
            batch_size > 0,
    ;
    lemma_step_starts_below(clips, batch_size, i);
    assert forall|j: int|
        0 <= j < steps_below(clips, batch_size) && j != clip / batch_size implies !((
    #[trigger] batch_at(clips, batch_size, j)).pointer <= clip < batch_at(
        clips,
        batch_size,
        j,
    ).pointer + batch_at(clips, batch_size, j).size) by {
        lemma_step_starts_below(clips, batch_size, j);
        assert(j * batch_size >= 0) by (nonlinear_arith)
            requires
                j >= 0,
                batch_size > 0,
        ;
        if j < i {
            assert(j * batch_size + batch_size <= i * batch_size) by (nonlinear_arith)
                requires
                    j + 1 <= i,
                    batch_size > 0,
            ;
        } else {
            assert(i * batch_size + batch_size <= j * batch_size) by (nonlinear_arith)
                requires
                    i + 1 <= j,
                    batch_size > 0,
            ;
        }
    }
}

// ---------- channels ----------

/// How the decoded channels become a stereo signal.
#[derive(Clone, Copy, PartialEq, Eq, Debug, Structural)]
pub enum ChannelPlan {
    /// The one channel is used twice.
    Repeat,
    /// There are two channels.
    Keep,
    /// The first two of more channels are used.
    FirstTwo,
}

/// The decoded channel that becomes output channel `out`.
pub open spec fn source_channel(plan: ChannelPlan, out: int) -> int {
    match plan {
        ChannelPlan::Repeat => 0,
        ChannelPlan::Keep => out,
        ChannelPlan::FirstTwo => out,
    }
}

/// Why a decoded file cannot be separated.
pub open spec fn load_error(num_frames: int, num_channels: int) -> Option<Seq<char>> {
    if num_frames == 0 {
        Some("input audio contains no decoded frames"@)
    } else if num_channels == 0 {
        Some("input audio contains no decoded channels"@)
    } else {
        None
    }
}

/// How a decoded file becomes stereo.
pub open spec fn channel_plan(num_channels: int) -> ChannelPlan {
    if num_channels == 1 {
        ChannelPlan::Repeat
    } else if num_channels == 2 {
        ChannelPlan::Keep
    } else {
        ChannelPlan::FirstTwo
    }
}

/// How a decoded file of `num_frames` frames and `num_channels` channels
/// becomes stereo; a file without frames or channels is refused.
pub fn load_audio(num_frames: usize, num_channels: u16) -> (r: Result<ChannelPlan, String>)
    ensures
        match r {
            Ok(plan) => load_error(num_frames as int, num_channels as int) is None && plan
                == channel_plan(num_channels as int),
            Err(message) => load_error(num_frames as int, num_channels as int) == Some(message@),
        },
{
    if num_frames == 0 {
        return Err("input audio contains no decoded frames".to_owned());
    }
    if num_channels == 0 {
        return Err("input audio contains no decoded channels".to_owned());
    }
    if num_channels == 1 {
        Ok(ChannelPlan::Repeat)
    } else if num_channels == 2 {
        Ok(ChannelPlan::Keep)
    } else {
        Ok(ChannelPlan::FirstTwo)
    }
}

/// Stereo is always made of channels that the file has, the left one from its
/// first.
pub proof fn law_stereo_comes_from_the_file(num_frames: int, num_channels: int, out: int)
    requires
        num_frames >= 0,
        num_channels >= 0,
        load_error(num_frames, num_channels) is None,
        0 <= out < AUDIO_CHANNELS,
    ensures
        0 <= source_channel(channel_plan(num_channels), out) < num_channels,
        source_channel(channel_plan(num_channels), 0) == 0,
{
}

// ---------- the two pipelines ----------

/// The names and kinds of the two stems of `stem`.
pub open spec fn stem_outputs(stem: Seq<char>) -> Seq<OutputFileView> {
    seq![
        OutputFileView { name: stem + "_vocal.wav"@, kind: "audio"@, label: "Vocal"@ },
        OutputFileView {
            name: stem + "_instrumental.wav"@,
            kind: "audio"@,
            label: "Instrumental"@,
        },
    ]
}

/// The two files that separating `stem` writes: the vocal, then what is left
/// of the mix without it.
pub fn write_stems(stem: &str) -> (r: Vec<OutputFile>)
    ensures
        crate::db::outputs_view(r@) == stem_outputs(stem@),
{
    let vocal: OutputFile = OutputFile::new(joined(stem, "_vocal.wav"), "audio", "Vocal");
    let instrumental: OutputFile = OutputFile::new(
        joined(stem, "_instrumental.wav"),
        "audio",
        "Instrumental",
    );
    let r: Vec<OutputFile> = vec![vocal, instrumental];
    assert(crate::db::outputs_view(r@) =~= stem_outputs(stem@));
    r
}

/// What is wrong with a chunk size in seconds and a second count.
pub open spec fn argument_error(chunk_size_sec: int, count: int, complaint: Seq<char>) -> Option<
    Seq<char>,
> {
    if chunk_size_sec <= 0 {
        Some("chunk-size must be positive"@)
    } else if count <= 0 {
        Some(complaint)
    } else {
        None
    }
}

/// The samples in `chunk_size_sec` seconds.
pub open spec fn samples_in(chunk_size_sec: int) -> int {
    chunk_size_sec * MODEL_SAMPLE_RATE
}

/// The chunk size in samples for the overlapping pipeline.
pub fn full_chunk_samples(chunk_size_sec: i32, overlap: i32) -> (r: Result<i32, String>)
    requires
        chunk_size_sec > 0 && overlap > 0 ==> samples_in(chunk_size_sec as int) <= i32::MAX,
    ensures
        match r {
            Ok(samples) => argument_error(
                chunk_size_sec as int,
                overlap as int,
                "overlap must be positive"@,
            ) is None && samples == samples_in(chunk_size_sec as int),
            Err(message) => argument_error(
                chunk_size_sec as int,
                overlap as int,
                "overlap must be positive"@,
            ) == Some(message@),
        },
{
    if chunk_size_sec <= 0 {
        return Err("chunk-size must be positive".to_owned());
    }
    if overlap <= 0 {
        return Err("overlap must be positive".to_owned());
    }
    Ok(chunk_size_sec * MODEL_SAMPLE_RATE as i32)
}

/// The chunk size in samples for the batched pipeline.
pub fn wsa_chunk_samples(chunk_size_sec: i32, batch_size: i32) -> (r: Result<i32, String>)
    requires
        chunk_size_sec > 0 && batch_size > 0 ==> samples_in(chunk_size_sec as int) <= i32::MAX,
    ensures
        match r {
            Ok(samples) => argument_error(
                chunk_size_sec as int,
                batch_size as int,
                "batch-size must be positive"@,
            ) is None && samples == samples_in(chunk_size_sec as int),
            Err(message) => argument_error(
                chunk_size_sec as int,
                batch_size as int,
                "batch-size must be positive"@,
            ) == Some(message@),
        },
{
    if chunk_size_sec <= 0 {
        return Err("chunk-size must be positive".to_owned());
    }
    if batch_size <= 0 {
        return Err("batch-size must be positive".to_owned());
    }
    Ok(chunk_size_sec * MODEL_SAMPLE_RATE as i32)
}

/// The inputs of the overlapping pipeline that it can count in 32 bits: the
/// samples of a part, and those of both channels together. Where an argument is
/// refused or the file holds no audio, nothing more is counted.
pub open spec fn full_run_in_range(
    num_frames: int,
    num_channels: int,
    chunk_size_sec: int,
    overlap: int,
) -> bool {
    let chunk = samples_in(chunk_size_sec);
    chunk_size_sec > 0 && overlap > 0 ==> {
        &&& chunk <= i32::MAX
        &&& load_error(num_frames, num_channels) is None ==> demix_fits(num_frames, chunk, overlap)
            && AUDIO_CHANNELS * demix_total(num_frames, chunk, overlap) <= i32::MAX
    }
}

/// The samples in `chunk_size_sec` seconds, counted in 128 bits.
fn wide_samples(chunk_size_sec: i32) -> (r: i128)
    requires
        0 < chunk_size_sec,
    ensures
        r == samples_in(chunk_size_sec as int),
{
    let rate: i128 = MODEL_SAMPLE_RATE as i128;
    proof {
        assert(0 <= chunk_size_sec * rate <= 0x8000_0000 * 44_100) by (nonlinear_arith)
            requires
                0 < chunk_size_sec <= 0x8000_0000,
                rate == 44_100,
        ;
    }
    chunk_size_sec as i128 * rate
}

/// Whether the overlapping pipeline can count its samples in 32 bits.
pub fn full_run_fits(
    num_frames: usize,
    num_channels: u16,
    chunk_size_sec: i32,
    overlap: i32,
) -> (r: bool)
    ensures
        r == full_run_in_range(
            num_frames as int,
            num_channels as int,
            chunk_size_sec as int,
            overlap as int,
        ),
{
    if chunk_size_sec <= 0 || overlap <= 0 {
        return true;
    }
    let limit: i128 = i32::MAX as i128;
    let chunk: i128 = wide_samples(chunk_size_sec);
    if chunk > limit {
        return false;
    }
    if num_frames == 0 || num_channels == 0 {
        return true;
    }
    if overlap as i128 > chunk {
        return false;
    }
    let len: i128 = num_frames as i128;
    proof {
        lemma_demix_step(chunk as int, overlap as int);
    }
    let step: i128 = chunk / (overlap as i128);
    let border: i128 = chunk - step;
    let padded: bool = len > 2 * border && border > 0;
    let total: i128 = if padded {
        len + border * 2
    } else {
        len
    };
    if 2 * total > limit || 2 * border > limit || (padded && 2 * len + border > limit) {
        return false;
    }
    if step >= total {
        return true;
    }
    proof {
        assert(1 * step < total) by (nonlinear_arith)
            requires
                step < total,
        ;
        lemma_last_offset(total as int, step as int, 1);
    }
    let parts: i128 = (total + step - 1) / step;
    proof {
        let n = parts as int;
        assert((n - 1) * step == last_offset(total as int, step as int));
    }
    (parts - 1) * step + chunk <= limit
}

/// The inputs of the batched pipeline that it can count in 32 bits. Where an
/// argument is refused or the file holds no audio, nothing more is counted.
pub open spec fn wsa_run_in_range(
    num_frames: int,
    num_channels: int,
    chunk_size_sec: int,
    batch_size: int,
) -> bool {
    chunk_size_sec > 0 && batch_size > 0 ==> {
        &&& samples_in(chunk_size_sec) <= i32::MAX
        &&& load_error(num_frames, num_channels) is None ==> num_frames + samples_in(chunk_size_sec)
            <= i32::MAX
    }
}

/// Whether the batched pipeline can count its samples in 32 bits.
pub fn wsa_run_fits(
    num_frames: usize,
    num_channels: u16,
    chunk_size_sec: i32,
    batch_size: i32,
) -> (r: bool)
    ensures
        r == wsa_run_in_range(
            num_frames as int,
            num_channels as int,
            chunk_size_sec as int,
            batch_size as int,
        ),
{
    if chunk_size_sec <= 0 || batch_size <= 0 {
        return true;
    }
    let chunk: i128 = wide_samples(chunk_size_sec);
    chunk <= i32::MAX as i128 && (num_frames == 0 || num_channels == 0 || num_frames as i128 + chunk
        <= i32::MAX as i128)
}

/// Everything that the overlapping pipeline does around the model.
pub struct FullRun {
    pub channels: ChannelPlan,
    pub plan: DemixPlan,
    pub outputs: Vec<OutputFile>,
}

/// The plan of one run of the overlapping pipeline on a decoded file.
pub fn run_full(
    num_frames: usize,
    num_channels: u16,
    chunk_size_sec: i32,
    overlap: i32,
    stem: &str,
) -> (r: Result<FullRun, String>)
    requires
        full_run_in_range(
            num_frames as int,
            num_channels as int,
            chunk_size_sec as int,
            overlap as int,
        ),
    ensures
        match r {
            Err(message) => Some(message@) == (match argument_error(
                chunk_size_sec as int,
                overlap as int,
                "overlap must be positive"@,
            ) {
                Some(m) => Some(m),
                None => load_error(num_frames as int, num_channels as int),
            }),
            Ok(run) => {
                &&& argument_error(
                    chunk_size_sec as int,
                    overlap as int,
                    "overlap must be positive"@,
                ) is None
                &&& load_error(num_frames as int, num_channels as int) is None
                &&& run.channels == channel_plan(num_channels as int)
                &&& is_demix_plan(
                    run.plan,
                    num_frames as int,
                    samples_in(chunk_size_sec as int),
                    overlap as int,
                )
                &&& crate::db::outputs_view(run.outputs@) == stem_outputs(stem@)
            },
        },
{
    let chunk_size_samples: i32 = match full_chunk_samples(chunk_size_sec, overlap) {
        Ok(samples) => samples,
        Err(message) => return Err(message),
    };
    let channels: ChannelPlan = match load_audio(num_frames, num_channels) {
        Ok(channels) => channels,
        Err(message) => return Err(message),
    };
    proof {
        lemma_demix_total_at_least(
            num_frames as int,
            chunk_size_samples as int,
            overlap as int,
        );
    }
    let plan: DemixPlan = demix_track(num_frames as i32, overlap, chunk_size_samples);
    Ok(FullRun { channels, plan, outputs: write_stems(stem) })
}

/// Padding never shortens a signal.
proof fn lemma_demix_total_at_least(len: int, chunk: int, overlap: int)
    requires
        0 < overlap <= chunk,
        0 <= len,
    ensures
        len <= demix_total(len, chunk, overlap),
{
    lemma_demix_step(chunk, overlap);
}

/// Everything that the batched pipeline does around the model.
pub struct WsaRun {
    pub channels: ChannelPlan,
    pub plan: ChunkPlan,
    pub batches: Vec<Batch>,
    pub outputs: Vec<OutputFile>,
}

/// The plan of one run of the batched pipeline on a decoded file.
pub fn run_wsa(
    num_frames: usize,
    num_channels: u16,
    chunk_size_sec: i32,
    batch_size: i32,
    stem: &str,
) -> (r: Result<WsaRun, String>)
    requires
        wsa_run_in_range(
            num_frames as int,
            num_channels as int,
            chunk_size_sec as int,
            batch_size as int,
        ),
    ensures
        match r {
            Err(message) => Some(message@) == (match argument_error(
                chunk_size_sec as int,
                batch_size as int,
                "batch-size must be positive"@,
            ) {
                Some(m) => Some(m),
                None => load_error(num_frames as int, num_channels as int),
            }),
            Ok(run) => {
                &&& argument_error(
                    chunk_size_sec as int,
                    batch_size as int,
                    "batch-size must be positive"@,
                ) is None
                &&& load_error(num_frames as int, num_channels as int) is None
                &&& run.channels == channel_plan(num_channels as int)
                &&& is_chunk_plan(run.plan, num_frames as int, samples_in(chunk_size_sec as int))
                &&& run.batches@ == batches_of(run.plan.clips as int, batch_size as int)
                &&& crate::db::outputs_view(run.outputs@) == stem_outputs(stem@)
            },
        },
{
    let chunk_size_samples: i32 = match wsa_chunk_samples(chunk_size_sec, batch_size) {
        Ok(samples) => samples,
        Err(message) => return Err(message),
    };
    let channels: ChannelPlan = match load_audio(num_frames, num_channels) {
        Ok(channels) => channels,
        Err(message) => return Err(message),
    };
    let plan: ChunkPlan = chunk_audio(num_frames as i32, chunk_size_samples);
    proof {
        assert(plan.clips >= 0) by (nonlinear_arith)
            requires
                plan.clips * chunk_size_samples >= num_frames,
                num_frames >= 0,
                chunk_size_samples > 0,
        ;
    }
    let batches: Vec<Batch> = infer_chunks(plan.clips, batch_size);
    Ok(WsaRun { channels, plan, batches, outputs: write_stems(stem) })
}

// ---------- what the numbers mean ----------

/// A window fades in a straight line. With a fade of a tenth of the window,
/// the weight at `p` inside the fade is `p` over the fade less one, at either
/// end: it is zero at the very edge, grows by the same amount from each sample
/// to the next, and reaches one at the end of the fade.
pub proof fn law_windows_fade_in_a_straight_line(chunk: int, p: int)
    requires
        0 < chunk <= i32::MAX,
        0 <= p < chunk / 10,
    ensures
        fade_size(chunk) == chunk / 10,
        base_weight(chunk, p) matches Weight::Fade(n) && n == p,
        base_weight(chunk, chunk - 1 - p) matches Weight::Fade(n) && n == p,
        window_weight(WindowKind::Middle, chunk, p) matches Weight::Fade(n) && n == p,
        window_weight(WindowKind::Middle, chunk, chunk - 1 - p) matches Weight::Fade(n) && n == p,
        chunk >= 20 ==> numerator(base_weight(chunk, 0), chunk) == 0,
        chunk >= 20 && p + 1 < chunk / 10 ==> numerator(base_weight(chunk, p + 1), chunk)
            == numerator(base_weight(chunk, p), chunk) + 1,
        chunk >= 20 ==> numerator(base_weight(chunk, chunk / 10 - 1), chunk) == numerator(
            Weight::One,
            chunk,
        ),
        chunk >= 20 ==> numerator(Weight::One, chunk) == chunk / 10 - 1,
{
}

/// Between its fades a window has weight one, wherever its part stands.
pub proof fn law_windows_are_flat_between_the_fades(kind: WindowKind, chunk: int, pos: int)
    requires
        0 < chunk <= i32::MAX,
        chunk / 10 <= pos < chunk - chunk / 10,
    ensures
        base_weight(chunk, pos) == Weight::One,
        window_weight(kind, chunk, pos) == Weight::One,
{
}

/// The first part does not fade in and the last one does not fade out: where
/// nothing lies before or after, the weight is one. Their other ends fade as
/// those of every part.
pub proof fn law_the_ends_of_a_signal_do_not_fade(chunk: int, p: int)
    requires
        0 < chunk <= i32::MAX,
        0 <= p < chunk / 10,
    ensures
        window_weight(WindowKind::First, chunk, p) == Weight::One,
        window_weight(WindowKind::First, chunk, chunk - 1 - p) matches Weight::Fade(n) && n == p,
        window_weight(WindowKind::Last, chunk, chunk - 1 - p) == Weight::One,
        window_weight(WindowKind::Last, chunk, p) matches Weight::Fade(n) && n == p,
{
}

/// A part counts at a sample with the weight of its window there, and not at
/// all outside of itself.
pub proof fn law_parts_weigh_where_they_lie(part: DemixPart, chunk: int, pos: int, t: int)
    requires
        0 <= pos < part.length,
        t < part.offset || part.offset + part.length <= t,
    ensures
        part_weight_at(part, chunk, part.offset + pos) == numerator(
            window_weight(part.window, chunk, pos),
            chunk,
        ),
        part_weight_at(part, chunk, t) == 0,
{
}

/// The normaliser adds up the parts one by one.
pub proof fn law_weights_add_up(parts: Seq<DemixPart>, part: DemixPart, chunk: int, t: int)
    ensures
        weight_sum(Seq::empty(), chunk, t) == 0,
        weight_sum(parts.push(part), chunk, t) == weight_sum(parts, chunk, t) + part_weight_at(
            part,
            chunk,
            t,
        ),
{
    assert(parts.push(part).drop_last() =~= parts);
}

/// The parts of a signal start one step after another, from its first sample
/// on and as long as there are samples left. Each is as long as a window or
/// reaches to the end. As many steps as parts overlap make up a window, a
/// remainder aside; the border is a window less a step, and a signal longer
/// than both borders is padded by them.
pub proof fn law_parts_follow_in_steps(
    plan: DemixPlan,
    len: int,
    chunk: int,
    overlap: int,
    k: int,
)
    requires
        demix_fits(len, chunk, overlap),
        is_demix_plan(plan, len, chunk, overlap),
        0 <= k < plan.parts@.len(),
    ensures
        plan.step * overlap <= chunk < (plan.step + 1) * overlap,
        plan.border + plan.step == chunk,
        plan.chunk_size_samples == chunk,
        plan.original_len == len,
        plan.padded <==> len > 2 * plan.border && plan.border > 0,
        plan.total_length == if plan.padded {
            len + 2 * plan.border
        } else {
            len
        },
        plan.parts@[0].offset == 0,
        k > 0 ==> plan.parts@[k].offset == plan.parts@[k - 1].offset + plan.step,
        plan.parts@[k].offset < plan.total_length,
        k == plan.parts@.len() - 1 ==> plan.parts@[k].offset + plan.step >= plan.total_length,
        plan.parts@[k].offset + chunk <= plan.total_length ==> plan.parts@[k].length == chunk,
        plan.parts@[k].offset + chunk > plan.total_length ==> plan.parts@[k].offset
            + plan.parts@[k].length == plan.total_length,
        k == 0 ==> plan.parts@[k].window is First,
        k > 0 && plan.parts@[k].offset + chunk >= plan.total_length ==> plan.parts@[k].window is Last,
        k > 0 && plan.parts@[k].offset + chunk < plan.total_length ==> plan.parts@[k].window is Middle,
{
    let total = demix_total(len, chunk, overlap);
    let step = demix_step(chunk, overlap);
    let n = steps_below(total, step);
    lemma_demix_step(chunk, overlap);
    vstd::arithmetic::div_mod::lemma_fundamental_div_mod(chunk, overlap);
    assert(step * overlap == overlap * step) by (nonlinear_arith);
    assert((step + 1) * overlap == step * overlap + overlap) by (nonlinear_arith);
    lemma_step_starts_below(total, step, k);
    assert(0 * step == 0);
    assert(k * step >= 0) by (nonlinear_arith)
        requires
            k >= 0,
            step > 0,
    ;
    if k > 0 {
        assert((k - 1) * step == k * step - step) by (nonlinear_arith);
        assert(k * step >= step) by (nonlinear_arith)
            requires
                k >= 1,
                step > 0,
        ;
    }
    if k == plan.parts@.len() - 1 {
        lemma_step_starts_below(total, step, k + 1);
        assert((k + 1) * step == k * step + step) by (nonlinear_arith);
    }
}

/// A signal of no samples has no parts; any other signal has one.
pub proof fn law_only_silence_has_no_parts(plan: DemixPlan, len: int, chunk: int, overlap: int)
    requires
        demix_fits(len, chunk, overlap),
        is_demix_plan(plan, len, chunk, overlap),
    ensures
        plan.parts@.len() == 0 <==> len == 0,
{
    let total = demix_total(len, chunk, overlap);
    let step = demix_step(chunk, overlap);
    lemma_demix_step(chunk, overlap);
    lemma_demix_total_at_least(len, chunk, overlap);
    lemma_step_starts_below(total, step, 0);
    assert(0 * step == 0);
    if len == 0 {
        lemma_steps_below_zero(total, step);
    }
}

/// A part that is shorter than the model's input is filled up behind its end.
/// Where it is longer than half of that and one, the samples before its last
/// one follow once more, backwards; else zeros follow. A part of the full size
/// is fed as it is.
pub proof fn law_short_parts_are_filled_up(padding: PartPadding, length: int, chunk: int, d: int)
    requires
        0 <= length <= chunk <= i32::MAX,
        is_part_padding(padding, length, chunk),
        1 <= d <= chunk - length,
    ensures
        length > chunk / 2 + 1 ==> padding is Reflect && padding->Reflect_0@.len() == chunk
            && padding->Reflect_0@[length - 1 + d] == length - 1 - d && padding->Reflect_0@[length
            - 1] == length - 1,
        length <= chunk / 2 + 1 ==> padding is Zeros && length + padding->Zeros_0 == chunk,
{
}

/// A part of the full size is fed to the model as it is, and no other is.
pub proof fn law_full_parts_are_not_padded(padding: PartPadding, length: int, chunk: int)
    requires
        0 <= length <= chunk <= i32::MAX,
        is_part_padding(padding, length, chunk),
    ensures
        padding is Whole <==> length == chunk,
{
}

/// Channels lie one after the other, and so do the samples of each.
pub proof fn law_channels_lie_one_after_the_other(total: int, c: int, t: int)
    ensures
        flat_address(total, 0, t) == t,
        flat_address(total, 1, t) == total + t,
        flat_address(total, c, t + 1) == flat_address(total, c, t) + 1,
        flat_address(total, c + 1, t) == flat_address(total, c, t) + total,
{
    assert((c + 1) * total == c * total + total) by (nonlinear_arith);
}

/// Chunks are as many as are needed to hold the signal, and no more; the zeros
/// that fill up the last one are counted.
pub proof fn law_chunks_are_no_more_than_needed(plan: ChunkPlan, len: int, chunk: int)
    requires
        0 < chunk,
        0 <= len,
        is_chunk_plan(plan, len, chunk),
    ensures
        plan.chunk_size_samples == chunk,
        plan.audio_samples == len,
        plan.full_samples == plan.clips * chunk,
        plan.audio_samples + plan.padding == plan.full_samples,
        (plan.clips - 1) * chunk < len <= plan.clips * chunk,
{
    assert((plan.clips - 1) * chunk == plan.clips * chunk - chunk) by (nonlinear_arith);
}

/// Batches follow one another without a gap, from the first clip to the last,
/// and every one but the last is full.
pub proof fn law_batches_are_full_but_the_last(clips: int, batch_size: int, i: int)
    requires
        0 <= clips <= i32::MAX,
        0 < batch_size <= i32::MAX,
        0 <= i < batches_of(clips, batch_size).len(),
    ensures
        ({
            let batches = batches_of(clips, batch_size);
            let next = batches[i].pointer + batches[i].size;
            &&& batches[0].pointer == 0
            &&& 0 < batches[i].size <= batch_size
            &&& i + 1 < batches.len() ==> batches[i].size == batch_size && batches[i + 1].pointer
                == next
            &&& i + 1 == batches.len() ==> next == clips
        }),
{
    let n = steps_below(clips, batch_size);
    let batches = batches_of(clips, batch_size);
    lemma_step_starts_below(clips, batch_size, i);
    lemma_step_starts_below(clips, batch_size, i + 1);
    assert((i + 1) * batch_size == i * batch_size + batch_size) by (nonlinear_arith);
    assert(0 * batch_size == 0);
    assert(i * batch_size >= 0) by (nonlinear_arith)
        requires
            i >= 0,
            batch_size > 0,
    ;
    assert(batches[i] == batch_at(clips, batch_size, i));
    assert(batches[0] == batch_at(clips, batch_size, 0));
    if i + 1 < n {
        assert(batches[i + 1] == batch_at(clips, batch_size, i + 1));
    }
}

/// No clips make no batches, and any clips make one.
pub proof fn law_no_clips_no_batches(clips: int, batch_size: int)
    requires
        0 <= clips,
        0 < batch_size,
    ensures
        batches_of(clips, batch_size).len() == 0 <==> clips == 0,
{
    lemma_step_starts_below(clips, batch_size, 0);
    assert(0 * batch_size == 0);
    if clips == 0 {
        lemma_steps_below_zero(clips, batch_size);
    }
}

/// A mono file is heard on both sides. Of any other file the first channel is
/// heard on the left and the second on the right.
pub proof fn law_left_and_right(num_channels: int)
    requires
        num_channels >= 1,
    ensures
        source_channel(channel_plan(num_channels), 0) == 0,
        num_channels == 1 ==> source_channel(channel_plan(num_channels), 1) == 0,
        num_channels >= 2 ==> source_channel(channel_plan(num_channels), 1) == 1,
        channel_plan(num_channels) is Keep <==> num_channels == 2,
        channel_plan(num_channels) is Repeat <==> num_channels == 1,
{
}

/// A file is refused exactly if it has no frames or no channels, and the
/// complaint is of the frames where it has neither.
pub proof fn law_only_empty_files_are_refused(num_frames: int, num_channels: int)
    requires
        num_frames >= 0,
        num_channels >= 0,
    ensures
        load_error(num_frames, num_channels) is None <==> num_frames > 0 && num_channels > 0,
        load_error(0, num_channels) == Some("input audio contains no decoded frames"@),
        num_frames > 0 ==> load_error(num_frames, 0) == Some(
            "input audio contains no decoded channels"@,
        ),
{
}

/// Positive arguments are accepted and no others, and the complaint is of the
/// chunk size where both are at fault.
pub proof fn law_only_positive_arguments(chunk_size_sec: int, count: int, complaint: Seq<char>)
    ensures
        argument_error(chunk_size_sec, count, complaint) is None <==> chunk_size_sec > 0 && count
            > 0,
        chunk_size_sec <= 0 ==> argument_error(chunk_size_sec, count, complaint) == Some(
            "chunk-size must be positive"@,
        ),
        chunk_size_sec > 0 && count <= 0 ==> argument_error(chunk_size_sec, count, complaint)
            == Some(complaint),
{
}

/// Each second has 44100 samples.
pub proof fn law_samples_per_second(seconds: int)
    ensures
        samples_in(0) == 0,
        samples_in(seconds + 1) == samples_in(seconds) + 44_100,
{
    let rate = MODEL_SAMPLE_RATE as int;
    assert((seconds + 1) * rate == seconds * rate + rate) by (nonlinear_arith);
    assert(0 * rate == 0);
}

/// Separation writes two audio files, the vocal and what is left, named after
/// the stem.
pub proof fn law_two_stems(stem: Seq<char>)
    ensures
        stem_outputs(stem).len() == 2,
        stem_outputs(stem)[0].name == stem + "_vocal.wav"@,
        stem_outputs(stem)[0].label == "Vocal"@,
        stem_outputs(stem)[1].name == stem + "_instrumental.wav"@,
        stem_outputs(stem)[1].label == "Instrumental"@,
        forall|i: int| 0 <= i < 2 ==> (#[trigger] stem_outputs(stem)[i]).kind == "audio"@,
{
}

/// Any signal of up to 268 million frames can be separated in chunks of up to
/// 268 million samples, whatever its channels and however the chunks overlap or
/// are batched.
pub proof fn law_long_signals_are_in_range(
    num_frames: int,
    num_channels: int,
    chunk_size_sec: int,
    count: int,
)
    requires
        0 <= num_frames <= 0x1000_0000,
        num_channels >= 0,
        samples_in(chunk_size_sec) <= 0x1000_0000,
        count <= samples_in(chunk_size_sec),
    ensures
        full_run_in_range(num_frames, num_channels, chunk_size_sec, count),
        wsa_run_in_range(num_frames, num_channels, chunk_size_sec, count),
{
    let chunk = samples_in(chunk_size_sec);
    if chunk_size_sec > 0 && count > 0 {
        lemma_demix_step(chunk, count);
        let total = demix_total(num_frames, chunk, count);
        let step = demix_step(chunk, count);
        if step < total {
            assert(1 * step < total);
            lemma_last_offset(total, step, 1);
        }
    }
}

/// Reflection padding puts before a signal its second sample, before that its
/// third and so on, and behind it likewise from its last sample but one on.
pub proof fn law_reflect_pad_counts_outwards(len: int, border: int, d: int)
    requires
        0 <= len,
        1 <= d <= border,
    ensures
        reflect_index(len, border, border - d) == d,
        reflect_index(len, border, border + len - 1 + d) == len - 1 - d,
{
}

} // verus!
