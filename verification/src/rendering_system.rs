//! The frame compositor: turns spatial and visual components into an
//! ordered batch of draw operations plus two text overlays.
//!
//! It performs no pixel output itself: the host hands the finished frame to
//! the graphics collaborator, preserving batch order. Coordinates are in
//! unscaled pixels; the host applies its own scale factor.

use vstd::assert_multisets_equal;
use vstd::multiset::Multiset;
use vstd::prelude::*;

use crate::components::Renderable;
use crate::components::RenderableKind;
use crate::world::GameplayState;
use crate::world::World;
use crate::world::WorldView;
use crate::TEXT_PADDING;
use crate::TEXT_SIZE;
use crate::TILE_WIDTH;

verus! {

/// One placement inside a draw batch, in unscaled pixels.
#[derive(Clone, Copy, Debug, PartialEq, Eq, Structural)]
pub struct DrawPos {
    pub px: u32,
    pub py: u32,
}

/// One draw batch: every placement of one image on one paint layer,
/// submitted together to minimize draw calls.
pub struct Batch {
    pub z: u8,
    pub image: String,
    pub slots: Vec<DrawPos>,
}

/// One text overlay draw, in unscaled pixels.
pub struct TextDraw {
    pub content: String,
    pub x: u32,
    pub y: u32,
}

/// A draw-ready frame description: entity batches ordered by paint layer,
/// then the two fixed text overlays.
pub struct Frame {
    pub batches: Vec<Batch>,
    pub texts: Vec<TextDraw>,
}

/// Mathematical model of one draw operation.
pub struct DrawRecord {
    pub z: u8,
    pub image: Seq<char>,
    pub px: u32,
    pub py: u32,
}

/// The draw operations of one batch, as a multiset: order within a batch
/// carries no meaning.
pub open spec fn batch_ms(z: u8, image: Seq<char>, slots: Seq<DrawPos>) -> Multiset<DrawRecord>
    decreases slots.len(),
{
    if slots.len() == 0 {
        Multiset::empty()
    } else {
        batch_ms(z, image, slots.drop_last()).insert(
            DrawRecord { z: z, image: image, px: slots.last().px, py: slots.last().py },
        )
    }
}

/// The draw operations of a whole batch list.
pub open spec fn batches_ms(bs: Seq<Batch>) -> Multiset<DrawRecord>
    decreases bs.len(),
{
    if bs.len() == 0 {
        Multiset::empty()
    } else {
        batches_ms(bs.drop_last()).add(
            batch_ms(bs.last().z, bs.last().image@, bs.last().slots@),
        )
    }
}

/// The draw operations the store calls for, over the entities with id below
/// `upto`: one per live entity carrying both a position and a renderable,
/// at the cell scaled to pixels, showing the image its renderable resolves
/// to at the store's elapsed time.
pub open spec fn world_draws(w: WorldView, upto: int) -> Multiset<DrawRecord>
    decreases upto,
{
    if upto <= 0 {
        Multiset::empty()
    } else {
        let i = upto - 1;
        let rest = world_draws(w, i);
        if w.alive[i] && w.positions[i] is Some && w.renderables[i] is Some {
            let p = w.positions[i]->Some_0;
            rest.insert(
                DrawRecord {
                    z: p.z,
                    image: w.renderables[i]->Some_0.resolve(w.time_ms),
                    px: ((p.x as u32) * TILE_WIDTH) as u32,
                    py: ((p.y as u32) * TILE_WIDTH) as u32,
                },
            )
        } else {
            rest
        }
    }
}

/// A batch list is well formed when batches come in ascending paint-layer
/// order and no two batches share both layer and image.
pub open spec fn frame_wf(bs: Seq<Batch>) -> bool {
    forall|i: int, j: int|
        #![trigger bs[i], bs[j]]
        0 <= i < j < bs.len() ==> bs[i].z <= bs[j].z && !(bs[i].z == bs[j].z && bs[i].image@
            == bs[j].image@)
}

/// The label shown for a gameplay status.
pub open spec fn state_label(s: GameplayState) -> Seq<char> {
    match s {
        GameplayState::Playing => "Playing"@,
        GameplayState::Won => "Won"@,
    }
}

/// The decimal digit characters of `n`, most significant first.
pub open spec fn dec_rep(n: nat) -> Seq<char>
    decreases n,
{
    if n < 10 {
        seq![dec_digit_char(n as int)]
    } else {
        dec_rep(n / 10) + seq![dec_digit_char((n % 10) as int)]
    }
}

/// The character of one decimal digit.
pub open spec fn dec_digit_char(d: int) -> char {
    if d == 0 {
        '0'
    } else if d == 1 {
        '1'
    } else if d == 2 {
        '2'
    } else if d == 3 {
        '3'
    } else if d == 4 {
        '4'
    } else if d == 5 {
        '5'
    } else if d == 6 {
        '6'
    } else if d == 7 {
        '7'
    } else if d == 8 {
        '8'
    } else {
        '9'
    }
}

/// Relies on `u32`'s `ToString`/`Display` implementation, which the std
/// documentation fixes as the value's decimal digits, most significant
/// first, with no sign or padding.
#[verifier::external_body]
fn u32_to_string(n: u32) -> (r: String)
    ensures
        r@ == dec_rep(n as nat),
{
    n.to_string()
}

/// Splitting a batch-list multiset around any index.
proof fn lemma_batches_ms_append(s1: Seq<Batch>, s2: Seq<Batch>)
    ensures
        batches_ms(s1 + s2) == batches_ms(s1).add(batches_ms(s2)),
    decreases s2.len(),
{
    if s2.len() == 0 {
        assert(s1 + s2 =~= s1);
        assert(batches_ms(s1 + s2) =~= batches_ms(s1).add(batches_ms(s2)));
    } else {
        lemma_batches_ms_append(s1, s2.drop_last());
        assert((s1 + s2).drop_last() =~= s1 + s2.drop_last());
        assert((s1 + s2).last() == s2.last());
        assert(batches_ms(s1 + s2) =~= batches_ms(s1).add(batches_ms(s2)));
    }
}

/// Every draw operation of a batch carries the batch's layer and image.
proof fn lemma_batch_ms_key(z: u8, image: Seq<char>, slots: Seq<DrawPos>, r: DrawRecord)
    requires
        batch_ms(z, image, slots).count(r) > 0,
    ensures
        r.z == z,
        r.image == image,
    decreases slots.len(),
{
    if slots.len() == 0 {
    } else {
        let rec = DrawRecord { z: z, image: image, px: slots.last().px, py: slots.last().py };
        if r == rec {
        } else {
            lemma_batch_ms_key(z, image, slots.drop_last(), r);
        }
    }
}

/// Every draw operation in a batch list lives in some batch that carries
/// its layer and image.
pub proof fn lemma_ms_member_batch(bs: Seq<Batch>, r: DrawRecord)
    requires
        batches_ms(bs).count(r) > 0,
    ensures
        exists|i: int|
            #![trigger bs[i]]
            0 <= i < bs.len() && bs[i].z == r.z && bs[i].image@ == r.image,
    decreases bs.len(),
{
    if bs.len() == 0 {
    } else {
        let last = bs.last();
        if batch_ms(last.z, last.image@, last.slots@).count(r) > 0 {
            lemma_batch_ms_key(last.z, last.image@, last.slots@, r);
            assert(bs[bs.len() - 1].z == r.z && bs[bs.len() - 1].image@ == r.image);
        } else {
            lemma_ms_member_batch(bs.drop_last(), r);
            let i = choose|i: int|
                #![trigger bs.drop_last()[i]]
                0 <= i < bs.drop_last().len() && bs.drop_last()[i].z == r.z && bs.drop_last()[
                    i
                ].image@ == r.image;
            assert(bs[i].z == r.z && bs[i].image@ == r.image);
        }
    }
}

/// Two draw operations on the same layer with different images always land
/// in two distinct batches, one per image.
pub proof fn lemma_same_layer_distinct_images(bs: Seq<Batch>, r1: DrawRecord, r2: DrawRecord)
    requires
        frame_wf(bs),
        batches_ms(bs).count(r1) > 0,
        batches_ms(bs).count(r2) > 0,
        r1.z == r2.z,
        r1.image != r2.image,
    ensures
        exists|i: int, j: int|
            #![trigger bs[i], bs[j]]
            0 <= i < bs.len() && 0 <= j < bs.len() && i != j && bs[i].z == r1.z && bs[i].image@
                == r1.image && bs[j].z == r2.z && bs[j].image@ == r2.image,
{
    lemma_ms_member_batch(bs, r1);
    lemma_ms_member_batch(bs, r2);
    let i = choose|i: int|
        #![trigger bs[i]]
        0 <= i < bs.len() && bs[i].z == r1.z && bs[i].image@ == r1.image;
    let j = choose|j: int|
        #![trigger bs[j]]
        0 <= j < bs.len() && bs[j].z == r2.z && bs[j].image@ == r2.image;
    assert(i != j);
}

/// Add one draw operation to a batch list: into the batch that already
/// carries its layer and image, or into a fresh batch inserted at its
/// layer's place.
fn add_draw(batches: &mut Vec<Batch>, z: u8, image: String, slot: DrawPos)
    requires
        frame_wf(old(batches)@),
    ensures
        frame_wf(final(batches)@),
        batches_ms(final(batches)@) == batches_ms(old(batches)@).insert(
            DrawRecord { z: z, image: image@, px: slot.px, py: slot.py },
        ),
{
    let ghost s0 = batches@;
    let ghost rec = DrawRecord { z: z, image: image@, px: slot.px, py: slot.py };
    let n = batches.len();
    let mut j: usize = 0;
    while j < n
        invariant
            j <= n,
            n == batches@.len(),
            batches@ == s0,
            s0 == old(batches)@,
            frame_wf(s0),
            rec == (DrawRecord { z: z, image: image@, px: slot.px, py: slot.py }),
            forall|k: int|
                #![trigger s0[k]]
                0 <= k < j ==> !(s0[k].z == z && s0[k].image@ == image@),
        decreases n - j,
    {
        if batches[j].z == z && batches[j].image == image {
            let mut b = batches.remove(j);
            let ghost b0 = b;
            b.slots.push(slot);
            proof {
                assert(b.slots@.drop_last() =~= b0.slots@);
                assert(batch_ms(b.z, b.image@, b.slots@) == batch_ms(
                    b0.z,
                    b0.image@,
                    b0.slots@,
                ).insert(rec));
            }
            batches.insert(j, b);
            proof {
                reveal_with_fuel(batches_ms, 2);
                let front = s0.take(j as int);
                let back = s0.skip(j as int + 1);
                assert(s0 =~= front + seq![s0[j as int]] + back);
                assert(batches@ =~= front + seq![b] + back);
                lemma_batches_ms_append(front + seq![s0[j as int]], back);
                lemma_batches_ms_append(front, seq![s0[j as int]]);
                lemma_batches_ms_append(front + seq![b], back);
                lemma_batches_ms_append(front, seq![b]);
                assert((seq![s0[j as int]]).drop_last() =~= Seq::<Batch>::empty());
                assert((seq![b]).drop_last() =~= Seq::<Batch>::empty());
                assert_multisets_equal!(batches_ms(batches@), batches_ms(s0).insert(rec));
                assert forall|i1: int, j1: int| 0 <= i1 < j1 < batches@.len() implies batches@[
                    i1
                ].z <= batches@[j1].z && !(batches@[i1].z == batches@[j1].z && batches@[i1].image@
                    == batches@[j1].image@) by {
                    assert(s0[i1].z <= s0[j1].z && !(s0[i1].z == s0[j1].z && s0[i1].image@ == s0[
                        j1
                    ].image@));
                }
            }
            return ;
        }
        j = j + 1;
    }
    let mut p: usize = 0;
    while p < n && batches[p].z <= z
        invariant
            p <= n,
            n == batches@.len(),
            batches@ == s0,
            s0 == old(batches)@,
            frame_wf(s0),
            forall|k: int| #![trigger s0[k]] 0 <= k < p ==> s0[k].z <= z,
        decreases n - p,
    {
        p = p + 1;
    }
    let mut slots: Vec<DrawPos> = Vec::new();
    slots.push(slot);
    let ghost nb_slots = slots@;
    let nb = Batch { z: z, image: image, slots: slots };
    proof {
        reveal_with_fuel(batch_ms, 2);
        assert(nb_slots.drop_last() =~= Seq::<DrawPos>::empty());
        assert(batch_ms(nb.z, nb.image@, nb_slots) == Multiset::empty().insert(rec));
    }
    batches.insert(p, nb);
    proof {
        reveal_with_fuel(batches_ms, 2);
        let front = s0.take(p as int);
        let back = s0.skip(p as int);
        assert(s0 =~= front + back);
        assert(batches@ =~= front + seq![nb] + back);
        lemma_batches_ms_append(front, back);
        lemma_batches_ms_append(front + seq![nb], back);
        lemma_batches_ms_append(front, seq![nb]);
        assert((seq![nb]).drop_last() =~= Seq::<Batch>::empty());
        assert_multisets_equal!(batches_ms(batches@), batches_ms(s0).insert(rec));
        assert forall|i1: int, j1: int| 0 <= i1 < j1 < batches@.len() implies batches@[i1].z
            <= batches@[j1].z && !(batches@[i1].z == batches@[j1].z && batches@[i1].image@
            == batches@[j1].image@) by {
            if i1 < p && j1 == p {
                assert(s0[i1].z <= z);
            } else if i1 == p && j1 > p {
                assert(p < s0.len());
                assert(s0[p as int].z > z);
                if p as int + 1 <= j1 - 1 {
                    assert(s0[p as int].z <= s0[j1 - 1].z);
                }
            } else if i1 < p && j1 > p {
                assert(s0[i1].z <= s0[j1 - 1].z || i1 == j1 - 1);
            } else if j1 < p || (i1 > p && j1 > p) {
                assert(true);
            }
        }
    }
}

/// The frame compositor. `rows` and `cols` are the dimensions of the active
/// map, used to place the text overlays below the grid.
pub struct RenderingSystem {
    pub rows: u8,
    pub cols: u8,
}

impl RenderingSystem {
    /// The image path a renderable shows after `delta_ms` of simulation
    /// time: static renderables always show their one image; animated ones
    /// advance a frame every `1000 / k` milliseconds and wrap seamlessly at
    /// the one-second cycle boundary.
    pub fn get_image(&self, renderable: &Renderable, delta_ms: u64) -> (r: String)
        requires
            renderable@.wf(),
        ensures
            r@ == renderable@.resolve(delta_ms),
    {
        match renderable.kind() {
            RenderableKind::Static => renderable.path(0),
            RenderableKind::Animated => {
                let k = renderable.frame_count();
                proof {
                    assert(renderable@ is Animated);
                    assert(1 <= k <= 1000);
                }
                let step: u64 = 1000 / (k as u64);
                proof {
                    assert(step >= 1) by (nonlinear_arith)
                        requires
                            1 <= k <= 1000,
                            step == 1000u64 / (k as u64),
                    {}
                }
                let idx64 = (delta_ms % 1000) / step;
                proof {
                    assert(idx64 <= 999);
                }
                let idx = idx64 as usize;
                renderable.path(idx)
            },
        }
    }

    /// Compose one frame: one draw operation per live entity carrying both
    /// a position and a renderable — at its cell scaled to pixels, showing
    /// the image its renderable resolves to at the store's elapsed time —
    /// grouped into batches by ascending paint layer and, within a layer,
    /// by image; then the gameplay-state label and the move counter,
    /// placed below the grid.
    pub fn run(&self, world: &World) -> (frame: Frame)
        requires
            world@.wf(),
        ensures
            frame_wf(frame.batches@),
            batches_ms(frame.batches@) == world_draws(world@, world@.num()),
            frame.texts@.len() == 2,
            frame.texts@[0].content@ == state_label(world@.gameplay.state),
            frame.texts@[0].x == TEXT_PADDING,
            frame.texts@[0].y == (self.rows as u32) * TILE_WIDTH + TEXT_PADDING,
            frame.texts@[1].content@ == dec_rep(world@.gameplay.moves_count as nat),
            frame.texts@[1].x == TEXT_PADDING,
            frame.texts@[1].y == (self.rows as u32) * TILE_WIDTH + TEXT_PADDING + TEXT_SIZE,
    {
        let ghost w = world@;
        let mut batches: Vec<Batch> = Vec::new();
        let n = world.num_entities();
        let mut id: usize = 0;
        proof {
            assert(frame_wf(batches@));
            assert(batches_ms(batches@) =~= world_draws(w, 0));
        }
        while id < n
            invariant
                w == world@,
                world@.wf(),
                n == w.num(),
                id <= n,
                frame_wf(batches@),
                batches_ms(batches@) == world_draws(w, id as int),
            decreases n - id,
        {
            if let Some(p) = world.position_of(id) {
                if let Some(r) = world.renderable_of(id) {
                    let image = self.get_image(r, world.time_ms());
                    let slot = DrawPos {
                        px: (p.x as u32) * TILE_WIDTH,
                        py: (p.y as u32) * TILE_WIDTH,
                    };
                    add_draw(&mut batches, p.z, image, slot);
                }
            }
            id = id + 1;
        }
        let g = world.gameplay();
        let label = match g.state {
            GameplayState::Playing => "Playing".to_owned(),
            GameplayState::Won => "Won".to_owned(),
        };
        let moves_text = u32_to_string(g.moves_count);
        let base_y = (self.rows as u32) * TILE_WIDTH;
        let mut texts: Vec<TextDraw> = Vec::new();
        texts.push(TextDraw { content: label, x: TEXT_PADDING, y: base_y + TEXT_PADDING });
        texts.push(
            TextDraw { content: moves_text, x: TEXT_PADDING, y: base_y + TEXT_PADDING + TEXT_SIZE },
        );
        Frame { batches, texts }
    }
}

} // verus!
