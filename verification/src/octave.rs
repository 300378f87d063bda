//! Fractal noise: the finer fields that are laid over a base field.
//!
//! Every octave has more and smaller chunks than the one before. By how
//! much is the caller's business, who scales the running layout and hands
//! the scaled layout in. What is decided here is whether the scaled layout
//! still makes a field, how many chunks that field needs to cover the base
//! field, and which seed it gets.

use crate::grid::FieldModel;
use crate::grid::Perlin;
use crate::seeds::draw;
use crate::seeds::seeded;
use crate::seeds::seeded_word;
use crate::seeds::upcoming;
use rand_chacha::ChaCha8Rng;
use vstd::prelude::*;

verus! {

/// A chunk layout: how many chunks along each axis, and how large they are.
#[derive(Clone, Copy, Debug, PartialEq, Eq)]
pub struct Layout {
    /// Chunks along the first axis.
    pub chunks_x: usize,
    /// Chunks along the second axis.
    pub chunks_y: usize,
    /// Pixels along one side of a chunk.
    pub chunk_size: usize,
}

/// How many chunks of side `size` it takes to reach over `extent` pixels.
pub open spec fn chunks_over(extent: nat, size: nat) -> nat
    recommends
        size > 0,
{
    ((extent + size - 1) / (size as int)) as nat
}

/// The chunk count that an octave ends up with: the scaled count `start`,
/// raised as far as it takes for chunks of side `size` to cover `extent`
/// pixels.
pub open spec fn covering(start: nat, size: nat, extent: nat) -> nat
    recommends
        size > 0,
{
    if start < chunks_over(extent, size) {
        chunks_over(extent, size)
    } else {
        start
    }
}

/// `covering` is where counting up from `start`, one chunk at a time, first
/// reaches `extent` pixels: it covers, and no count from `start` up to it
/// does.
pub proof fn lemma_covering_is_least(start: nat, size: nat, extent: nat)
    requires
        size > 0,
    ensures
        covering(start, size, extent) >= start,
        covering(start, size, extent) * size >= extent,
        forall|fewer: nat|
            start <= fewer < covering(start, size, extent) ==> #[trigger] (fewer * size) < extent,
{
    let over = chunks_over(extent, size);
    assert(over * size >= extent && (over > 0 ==> (over - 1) * size < extent))
        by (nonlinear_arith)
        requires
            size > 0,
            over == (extent + size - 1) / (size as int),
    ;
    assert(covering(start, size, extent) * size >= extent) by (nonlinear_arith)
        requires
            covering(start, size, extent) >= over,
            over * size >= extent,
            size > 0,
    ;
    assert forall|fewer: nat| start <= fewer < covering(start, size, extent) implies #[trigger]
        (fewer * size) < extent by {
        assert(fewer * size <= (over - 1) * size) by (nonlinear_arith)
            requires
                fewer <= over - 1,
                size > 0,
        ;
    }
}

/// The scaled chunk count `start`, raised until chunks of side `size` cover
/// `extent` pixels.
pub fn covering_chunks(start: usize, size: usize, extent: usize) -> (chunks: usize)
    requires
        size > 0,
    ensures
        chunks == covering(start as nat, size as nat, extent as nat),
{
    let whole: usize = extent / size;
    let rest: usize = extent % size;
    proof {
        assert(chunks_over(extent as nat, size as nat) == whole + if rest == 0 {
            0int
        } else {
            1int
        }) by (nonlinear_arith)
            requires
                size > 0,
                whole == extent / size,
                rest == extent % size,
                chunks_over(extent as nat, size as nat) == (extent + size - 1) / (size as int),
        ;
        assert(rest != 0 ==> whole < extent) by (nonlinear_arith)
            requires
                size > 0,
                whole == extent / size,
                rest == extent % size,
        ;
    }
    let over: usize = if rest == 0 { whole } else { whole + 1 };
    if start < over {
        over
    } else {
        start
    }
}

/// What a plan of octaves stands for.
pub struct PlanModel {
    /// Width of the field that the octaves are laid over.
    pub base_width: nat,
    /// Height of the field that the octaves are laid over.
    pub base_height: nat,
    /// Chunks along the first axis, as of the latest octave.
    pub chunks_x: nat,
    /// Chunks along the second axis, as of the latest octave.
    pub chunks_y: nat,
    /// Chunk side, as of the latest octave.
    pub chunk_size: nat,
    /// Seeds of the octaves that may still come, the next one first.
    pub seeds: Seq<u64>,
}

/// What a step of a plan stands for.
pub enum StepModel {
    /// The next octave.
    Octave(FieldModel),
    /// No octave, and none will follow.
    Finished,
    /// The next octave would not fit in machine words. None will follow.
    TooLarge,
}

impl PlanModel {
    /// The plan of `count` octaves over `base`, seeded with `seed`.
    pub open spec fn start(base: FieldModel, count: nat, seed: u64) -> PlanModel {
        PlanModel {
            base_width: base.width(),
            base_height: base.height(),
            chunks_x: base.chunks_x,
            chunks_y: base.chunks_y,
            chunk_size: base.chunk_size,
            seeds: Seq::new(count, |i: int| seeded_word(seed, i as nat)),
        }
    }

    /// The layout to scale for the next octave, while one is due.
    pub open spec fn pending(self) -> Option<Layout> {
        if self.seeds.len() > 0 {
            Some(
                Layout {
                    chunks_x: self.chunks_x as usize,
                    chunks_y: self.chunks_y as usize,
                    chunk_size: self.chunk_size as usize,
                },
            )
        } else {
            None
        }
    }

    /// The same plan with no octaves left.
    pub open spec fn stopped(self) -> PlanModel {
        PlanModel { seeds: Seq::empty(), ..self }
    }

    /// The field that a scaled layout leads to under the given seed: the
    /// chunk counts are raised until the field covers the base field.
    pub open spec fn octave_with(self, scaled: Layout, seed: u64) -> FieldModel
        recommends
            scaled.chunk_size > 0,
    {
        FieldModel {
            chunks_x: covering(scaled.chunks_x as nat, scaled.chunk_size as nat, self.base_width),
            chunks_y: covering(scaled.chunks_y as nat, scaled.chunk_size as nat, self.base_height),
            chunk_size: scaled.chunk_size as nat,
            seed,
        }
    }

    /// Whether a scaled layout leads to a field at all: its chunks have a
    /// size, and the field that covers the base field fits in machine words.
    pub open spec fn admits(self, scaled: Layout) -> bool {
        scaled.chunk_size > 0 && self.octave_with(scaled, 0).representable()
    }

    /// What the plan does with the scaled layout.
    ///
    /// A plan with no octaves left stays as it is. Chunks scaled down to
    /// nothing end the plan, whatever number of octaves was asked for, and
    /// so does an octave that does not fit in machine words. Otherwise the
    /// octave is handed out with the plan's next seed.
    pub open spec fn step(self, scaled: Layout) -> StepModel {
        if self.seeds.len() == 0 || scaled.chunk_size == 0 {
            StepModel::Finished
        } else if !self.admits(scaled) {
            StepModel::TooLarge
        } else {
            StepModel::Octave(self.octave_with(scaled, self.seeds[0]))
        }
    }

    /// The plan after the scaled layout was handed in: an octave that was
    /// handed out has used up its seed, and its layout is the one to scale
    /// next.
    pub open spec fn after(self, scaled: Layout) -> PlanModel {
        match self.step(scaled) {
            StepModel::Octave(octave) => PlanModel {
                chunks_x: octave.chunks_x,
                chunks_y: octave.chunks_y,
                chunk_size: octave.chunk_size,
                seeds: self.seeds.drop_first(),
                ..self
            },
            _ => self.stopped(),
        }
    }

    /// The octaves that the plan hands out when the scaled layouts come in
    /// in this order.
    pub open spec fn octaves(self, scaled: Seq<Layout>) -> Seq<FieldModel>
        decreases scaled.len(),
    {
        if scaled.len() == 0 {
            Seq::empty()
        } else {
            let rest = self.after(scaled[0]).octaves(scaled.drop_first());
            match self.step(scaled[0]) {
                StepModel::Octave(octave) => seq![octave] + rest,
                _ => rest,
            }
        }
    }
}

impl PlanModel {
    /// A plan with no octaves left hands none out, whatever comes in.
    pub proof fn lemma_stopped_hands_out_nothing(self, scaled: Seq<Layout>)
        requires
            self.seeds.len() == 0,
        ensures
            self.octaves(scaled) == Seq::<FieldModel>::empty(),
        decreases scaled.len(),
    {
        if scaled.len() > 0 {
            self.after(scaled[0]).lemma_stopped_hands_out_nothing(scaled.drop_first());
        }
    }

    /// A plan hands out no more octaves than it was started for, and no more
    /// than scaled layouts come in.
    pub proof fn lemma_octaves_bounded(self, scaled: Seq<Layout>)
        ensures
            self.octaves(scaled).len() <= self.seeds.len(),
            self.octaves(scaled).len() <= scaled.len(),
        decreases scaled.len(),
    {
        if scaled.len() > 0 {
            self.after(scaled[0]).lemma_octaves_bounded(scaled.drop_first());
        }
    }

    /// Every octave that a plan hands out can be described and is at least
    /// as wide and as high as the base field.
    pub proof fn lemma_octaves_cover_base(self, scaled: Seq<Layout>)
        ensures
            forall|i: int|
                0 <= i < self.octaves(scaled).len() ==> {
                    let octave = #[trigger] self.octaves(scaled)[i];
                    &&& octave.representable()
                    &&& octave.width() >= self.base_width
                    &&& octave.height() >= self.base_height
                },
        decreases scaled.len(),
    {
        if scaled.len() > 0 {
            let rest = self.after(scaled[0]).octaves(scaled.drop_first());
            self.after(scaled[0]).lemma_octaves_cover_base(scaled.drop_first());
            if self.step(scaled[0]) is Octave {
                let size = scaled[0].chunk_size as nat;
                lemma_covering_is_least(scaled[0].chunks_x as nat, size, self.base_width);
                lemma_covering_is_least(scaled[0].chunks_y as nat, size, self.base_height);
                assert forall|i: int| 0 <= i < self.octaves(scaled).len() implies {
                    let octave = #[trigger] self.octaves(scaled)[i];
                    &&& octave.representable()
                    &&& octave.width() >= self.base_width
                    &&& octave.height() >= self.base_height
                } by {
                    if i > 0 {
                        assert(self.octaves(scaled)[i] == rest[i - 1]);
                    }
                }
            }
        }
    }

    /// As long as every scaled layout leads to a field and the plan has
    /// octaves left, the plan hands out one octave for each layout that
    /// comes in, with the plan's seeds in their order.
    pub proof fn lemma_octaves_in_order(self, scaled: Seq<Layout>)
        requires
            scaled.len() <= self.seeds.len(),
            forall|i: int| 0 <= i < scaled.len() ==> self.admits(#[trigger] scaled[i]),
        ensures
            self.octaves(scaled).len() == scaled.len(),
            forall|i: int|
                0 <= i < scaled.len() ==> #[trigger] self.octaves(scaled)[i] == self.octave_with(
                    scaled[i],
                    self.seeds[i],
                ),
        decreases scaled.len(),
    {
        if scaled.len() > 0 {
            let next = self.after(scaled[0]);
            let rest = scaled.drop_first();
            assert forall|i: int| 0 <= i < rest.len() implies next.admits(#[trigger] rest[i]) by {
                assert(self.admits(scaled[i + 1]));
            }
            next.lemma_octaves_in_order(rest);
            assert forall|i: int| 0 <= i < scaled.len() implies #[trigger] self.octaves(scaled)[i]
                == self.octave_with(scaled[i], self.seeds[i]) by {
                if i > 0 {
                    assert(self.octaves(scaled)[i] == next.octaves(rest)[i - 1]);
                    assert(rest[i - 1] == scaled[i]);
                    assert(next.seeds[i - 1] == self.seeds[i]);
                }
            }
        }
    }

    /// Two plans over base fields of one size hand out the same octaves up
    /// to the point where the chunks shrink to nothing, if they have their
    /// seeds up to that point in common.
    pub proof fn lemma_same_octaves_until_stop(self, other: PlanModel, scaled: Seq<Layout>, stop: nat)
        requires
            self.base_width == other.base_width,
            self.base_height == other.base_height,
            stop < scaled.len(),
            scaled[stop as int].chunk_size == 0,
            stop <= self.seeds.len(),
            stop <= other.seeds.len(),
            self.seeds.take(stop as int) == other.seeds.take(stop as int),
        ensures
            self.octaves(scaled) == other.octaves(scaled),
        decreases stop,
    {
        let rest = scaled.drop_first();
        if stop == 0 || scaled[0].chunk_size == 0 {
            self.after(scaled[0]).lemma_stopped_hands_out_nothing(rest);
            other.after(scaled[0]).lemma_stopped_hands_out_nothing(rest);
        } else {
            assert(self.seeds[0] == self.seeds.take(stop as int)[0]);
            assert(other.seeds[0] == other.seeds.take(stop as int)[0]);
            if self.step(scaled[0]) is Octave {
                let before = (stop - 1) as nat;
                assert(self.seeds.drop_first().take(before as int)
                    =~= self.seeds.take(stop as int).drop_first());
                assert(other.seeds.drop_first().take(before as int)
                    =~= other.seeds.take(stop as int).drop_first());
                self.after(scaled[0]).lemma_same_octaves_until_stop(
                    other.after(scaled[0]),
                    rest,
                    before,
                );
            } else {
                self.after(scaled[0]).lemma_stopped_hands_out_nothing(rest);
                other.after(scaled[0]).lemma_stopped_hands_out_nothing(rest);
            }
        }
    }

    /// Once the chunks have shrunk to nothing, the number of octaves asked
    /// for no longer matters: every count that reaches as far as that point
    /// gives the same octaves.
    pub proof fn lemma_count_beyond_stop(
        base: FieldModel,
        seed: u64,
        count: nat,
        other_count: nat,
        scaled: Seq<Layout>,
        stop: nat,
    )
        requires
            stop < scaled.len(),
            scaled[stop as int].chunk_size == 0,
            stop <= count,
            stop <= other_count,
        ensures
            PlanModel::start(base, count, seed).octaves(scaled) == PlanModel::start(
                base,
                other_count,
                seed,
            ).octaves(scaled),
    {
        let plan = PlanModel::start(base, count, seed);
        let other = PlanModel::start(base, other_count, seed);
        assert(plan.seeds.take(stop as int) =~= other.seeds.take(stop as int));
        plan.lemma_same_octaves_until_stop(other, scaled, stop);
    }
}

/// One step of a plan.
#[derive(Clone, Copy, Debug, PartialEq, Eq)]
pub enum Step {
    /// The next octave.
    Octave(Perlin),
    /// No octave, and none will follow.
    Finished,
    /// The next octave would not fit in machine words. None will follow.
    TooLarge,
}

impl View for Step {
    type V = StepModel;

    open spec fn view(&self) -> StepModel {
        match *self {
            Step::Octave(octave) => StepModel::Octave(octave@),
            Step::Finished => StepModel::Finished,
            Step::TooLarge => StepModel::TooLarge,
        }
    }
}

/// A plan of octaves over a base field.
pub struct OctavePlan {
    base_width: usize,
    base_height: usize,
    chunks_x: usize,
    chunks_y: usize,
    chunk_size: usize,
    remaining: u32,
    rng: ChaCha8Rng,
}

impl View for OctavePlan {
    type V = PlanModel;

    closed spec fn view(&self) -> PlanModel {
        PlanModel {
            base_width: self.base_width as nat,
            base_height: self.base_height as nat,
            chunks_x: self.chunks_x as nat,
            chunks_y: self.chunks_y as nat,
            chunk_size: self.chunk_size as nat,
            seeds: Seq::new(self.remaining as nat, |i: int| upcoming(self.rng)[i as nat]),
        }
    }
}

impl OctavePlan {
    /// The layout that the caller is to scale for the next octave, while one
    /// is due.
    pub fn pending(&self) -> (layout: Option<Layout>)
        ensures
            layout == self@.pending(),
    {
        if self.remaining > 0 {
            Some(
                Layout {
                    chunks_x: self.chunks_x,
                    chunks_y: self.chunks_y,
                    chunk_size: self.chunk_size,
                },
            )
        } else {
            None
        }
    }

    /// Takes the layout that the caller has scaled from the pending one.
    ///
    /// While octaves are left and the scaled chunks have a size, the chunk
    /// counts are raised until the octave covers the base field. The octave
    /// is handed out with the next seed of the plan's stream, and its layout
    /// is the next one to scale. Chunks of no size end the plan, and so does
    /// an octave that is too large for machine words.
    pub fn advance(&mut self, scaled: Layout) -> (step: Step)
        ensures
            step@ == old(self)@.step(scaled),
            final(self)@ == old(self)@.after(scaled),
            step matches Step::Octave(octave) ==> octave@.width() >= old(self)@.base_width
                && octave@.height() >= old(self)@.base_height,
    {
        if self.remaining == 0 || scaled.chunk_size == 0 {
            self.remaining = 0;
            assert(self@.seeds =~= old(self)@.stopped().seeds);
            return Step::Finished;
        }
        let chunks_x: usize = covering_chunks(scaled.chunks_x, scaled.chunk_size, self.base_width);
        let chunks_y: usize = covering_chunks(scaled.chunks_y, scaled.chunk_size, self.base_height);
        if !Perlin::fits(chunks_x, chunks_y, scaled.chunk_size) {
            self.remaining = 0;
            assert(self@.seeds =~= old(self)@.stopped().seeds);
            return Step::TooLarge;
        }
        let seed: u64 = draw(&mut self.rng);
        self.remaining = self.remaining - 1;
        self.chunks_x = chunks_x;
        self.chunks_y = chunks_y;
        self.chunk_size = scaled.chunk_size;
        proof {
            assert(self@.seeds =~= old(self)@.seeds.drop_first());
            lemma_covering_is_least(
                scaled.chunks_x as nat,
                scaled.chunk_size as nat,
                self.base_width as nat,
            );
            lemma_covering_is_least(
                scaled.chunks_y as nat,
                scaled.chunk_size as nat,
                self.base_height as nat,
            );
        }
        Step::Octave(Perlin::new(chunks_x, chunks_y, scaled.chunk_size, seed))
    }
}

impl Perlin {
    /// Plans `count` octaves over this field. Their seeds are the first
    /// `count` words of the stream that belongs to `seed`.
    pub fn generate_octaves(&self, count: u32, seed: u64) -> (plan: OctavePlan)
        ensures
            plan@ == PlanModel::start(self@, count as nat, seed),
    {
        let plan = OctavePlan {
            base_width: self.get_width(),
            base_height: self.get_height(),
            chunks_x: self.get_chunks_x(),
            chunks_y: self.get_chunks_y(),
            chunk_size: self.get_chunk_size(),
            remaining: count,
            rng: seeded(seed),
        };
        assert(plan@.seeds =~= PlanModel::start(self@, count as nat, seed).seeds);
        plan
    }
}

} // verus!
