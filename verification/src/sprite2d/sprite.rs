use vstd::prelude::*;
use vstd::arithmetic::div_mod::{lemma_fundamental_div_mod, lemma_fundamental_div_mod_converse};

verus! {

/// Identifies an asset the way the engine's asset ids do: either a slot in the asset storage
/// together with the generation of that slot, or a UUID.
#[derive(Clone, Copy, Debug, PartialEq, Eq, Hash, Structural)]
pub enum AssetKey {
    Index { index: u32, generation: u32 },
    Uuid { uuid: u128 },
}

/// How the frames of one animation are laid out in the atlas texture.
///
/// The texture region that the grid covers is given in floating-point UV coordinates; it is
/// kept by the renderer, which scales the whole-sprite ranges of [`GridUvRange`] into it.
#[derive(Clone, Copy, Debug, PartialEq, Eq, Structural)]
pub enum SpriteAnimation {
    UniformGrid {
        /// Number of sprites in each row
        sprites_horizontal: u32,
        /// Number of sprites in each column
        sprites_vertical: u32,
        /// Total sprites (may not equal to horizontal * vertical if the last row is not full)
        sprites_total: u32,
    },
}

/// The sprite of an atlas that an entity shows: an animation of the atlas and a frame of it.
#[derive(Clone, Copy, Debug, PartialEq, Eq, Structural)]
pub struct ActiveSprite {
    pub animation: usize,
    pub frame: u32,
}

/// The cell of a sprite grid that a frame occupies, in whole sprites: `start` is the
/// (column, row) of its top-left corner and `end` the (column, row) of its bottom-right corner.
#[derive(Clone, Copy, Debug, PartialEq, Eq)]
pub struct GridUvRange {
    pub start: (u32, u32),
    pub end: (u32, u32),
}

/// The animations of an atlas and the material that draws them.
#[derive(Clone, Debug)]
pub struct SpriteAtlas {
    /// Animations in this Atlas
    pub animations: Vec<SpriteAnimation>,
    pub material: AssetKey,
}

impl SpriteAnimation {
    /// Number of sprites in each row of the grid.
    pub open spec fn horizontal(self) -> u32 {
        match self {
            SpriteAnimation::UniformGrid { sprites_horizontal, .. } => sprites_horizontal,
        }
    }

    /// Number of sprites in each column of the grid.
    pub open spec fn vertical(self) -> u32 {
        match self {
            SpriteAnimation::UniformGrid { sprites_vertical, .. } => sprites_vertical,
        }
    }

    /// A frame can be placed in the grid when rows are not empty and the row below the
    /// frame's row still has a `u32` number.
    pub open spec fn can_show(self, frame: u32) -> bool {
        &&& self.horizontal() > 0
        &&& frame / self.horizontal() < u32::MAX
    }

    /// Frames fill the grid row by row, left to right: frame `f` sits in column
    /// `f % horizontal` of row `f / horizontal`.
    pub open spec fn spec_frame_range(self, frame: u32) -> GridUvRange {
        let h = self.horizontal();
        GridUvRange {
            start: ((frame % h) as u32, (frame / h) as u32),
            end: ((frame % h + 1) as u32, (frame / h + 1) as u32),
        }
    }

    /// The grid cell that `frame` occupies.
    pub fn frame_range(&self, frame: u32) -> (range: GridUvRange)
        requires
            self.can_show(frame),
        ensures
            range == self.spec_frame_range(frame),
            range.start.0 < self.horizontal(),
            range.start.1 * self.horizontal() + range.start.0 == frame,
            range.end.0 == range.start.0 + 1,
            range.end.1 == range.start.1 + 1,
    {
        match self {
            SpriteAnimation::UniformGrid { sprites_horizontal, .. } => {
                let h = *sprites_horizontal;
                let x_idx = frame % h;
                let y_idx = frame / h;
                assert(y_idx * h + x_idx == frame) by (nonlinear_arith)
                    requires
                        h > 0,
                        x_idx == frame % h,
                        y_idx == frame / h,
                ;
                GridUvRange { start: (x_idx, y_idx), end: (x_idx + 1, y_idx + 1) }
            },
        }
    }
}

/// Frames fill the grid row by row: the frame after `frame` sits one column to its right, or
/// in the first column of the next row when `frame` ends its row.
pub proof fn lemma_next_frame_range(anim: SpriteAnimation, frame: u32)
    requires
        anim.can_show(frame),
        frame < u32::MAX,
    ensures
        ({
            let r = anim.spec_frame_range(frame);
            let next = anim.spec_frame_range((frame + 1) as u32);
            if r.end.0 == anim.horizontal() {
                next.start == (0u32, r.end.1)
            } else {
                next.start == (r.end.0, r.start.1)
            }
        }),
{
    let h = anim.horizontal() as int;
    let f = frame as int;
    let q = f / h;
    let r = f % h;
    lemma_fundamental_div_mod(f, h);
    assert(f == q * h + r) by (nonlinear_arith)
        requires
            f == h * q + r,
    ;
    if r + 1 == h {
        assert(f + 1 == (q + 1) * h + 0) by (nonlinear_arith)
            requires
                f == q * h + r,
                r + 1 == h,
        ;
        lemma_fundamental_div_mod_converse(f + 1, h, q + 1, 0);
    } else {
        lemma_fundamental_div_mod_converse(f + 1, h, q, r + 1);
    }
}

/// Distinct frames occupy distinct cells.
pub proof fn lemma_frame_range_injective(anim: SpriteAnimation, frame1: u32, frame2: u32)
    requires
        anim.horizontal() > 0,
        anim.spec_frame_range(frame1) == anim.spec_frame_range(frame2),
    ensures
        frame1 == frame2,
{
    let h = anim.horizontal() as int;
    lemma_fundamental_div_mod(frame1 as int, h);
    lemma_fundamental_div_mod(frame2 as int, h);
}

/// A frame numbered below `horizontal * vertical` lies inside the grid, so its texture
/// coordinates stay inside the animation's region.
pub proof fn lemma_frame_range_in_grid(anim: SpriteAnimation, frame: u32)
    requires
        frame < anim.horizontal() * anim.vertical(),
    ensures
        anim.spec_frame_range(frame).end.0 <= anim.horizontal(),
        anim.spec_frame_range(frame).end.1 <= anim.vertical(),
{
    let h = anim.horizontal() as int;
    let v = anim.vertical() as int;
    let f = frame as int;
    let q = f / h;
    let r = f % h;
    lemma_fundamental_div_mod(f, h);
    assert(q < v) by (nonlinear_arith)
        requires
            f == h * q + r,
            0 <= r,
            h > 0,
            f < h * v,
    ;
}

/// The cell of a frame is the one whose column is below the row length, whose row times the
/// row length plus its column is the frame, and which spans one sprite in each direction.
pub proof fn lemma_frame_range_cell(anim: SpriteAnimation, frame: u32)
    requires
        anim.can_show(frame),
    ensures
        ({
            let r = anim.spec_frame_range(frame);
            &&& r.start.0 < anim.horizontal()
            &&& r.start.1 * anim.horizontal() + r.start.0 == frame
            &&& r.end.0 == r.start.0 + 1 && r.end.1 == r.start.1 + 1
        }),
{
    let h = anim.horizontal() as int;
    let f = frame as int;
    lemma_fundamental_div_mod(f, h);
    assert((f / h) * h == h * (f / h)) by (nonlinear_arith);
}

/// The cell of an atlas sprite is the cell of the named animation's frame: its column is
/// below that animation's row length, its row times the row length plus its column is the
/// frame, and it spans one sprite in each direction.
pub proof fn lemma_uv_range_cell(atlas: SpriteAtlas, active: ActiveSprite)
    requires
        atlas.can_show(active),
    ensures
        ({
            let r = atlas.spec_uv_range(active);
            let h = atlas.animations[active.animation as int].horizontal();
            &&& r.start.0 < h
            &&& r.start.1 * h + r.start.0 == active.frame
            &&& r.end.0 == r.start.0 + 1 && r.end.1 == r.start.1 + 1
        }),
{
    lemma_frame_range_cell(atlas.animations[active.animation as int], active.frame);
}

impl SpriteAtlas {
    /// The atlas has the animation that `active` names, and that animation can place its frame.
    pub open spec fn can_show(self, active: ActiveSprite) -> bool {
        &&& active.animation < self.animations.len()
        &&& self.animations[active.animation as int].can_show(active.frame)
    }

    /// The grid cell of the sprite that `active` names.
    pub open spec fn spec_uv_range(self, active: ActiveSprite) -> GridUvRange {
        self.animations[active.animation as int].spec_frame_range(active.frame)
    }

    /// The grid cell of the sprite that `active` names.
    pub fn uv_range(&self, active: &ActiveSprite) -> (range: GridUvRange)
        requires
            self.can_show(*active),
        ensures
            range == self.spec_uv_range(*active),
            range.start.0 < self.animations[active.animation as int].horizontal(),
            range.start.1 * self.animations[active.animation as int].horizontal() + range.start.0
                == active.frame,
            range.end.0 == range.start.0 + 1 && range.end.1 == range.start.1 + 1,
    {
        self.animations[active.animation].frame_range(active.frame)
    }
}


/// What the material system reads of one sprite entity: the entity, the position of its atlas
/// in the list of loaded atlases (`None` while the atlas is not loaded), and the material that
/// the entity carries, if any.
#[derive(Clone, Copy, Debug, PartialEq, Eq, Structural)]
pub struct SpriteMaterialState {
    pub entity: u64,
    pub atlas: Option<usize>,
    pub material: Option<AssetKey>,
}

/// What the UV system reads of one sprite entity: the entity, the position of its atlas in the
/// list of loaded atlases (`None` while the atlas is not loaded), and the sprite it shows.
#[derive(Clone, Copy, Debug, PartialEq, Eq, Structural)]
pub struct SpriteUvState {
    pub entity: u64,
    pub atlas: Option<usize>,
    pub active: ActiveSprite,
}

/// Every atlas that a sprite refers to is in `atlases`.
pub open spec fn material_states_refer_to(
    sprites: Seq<SpriteMaterialState>,
    atlases: Seq<SpriteAtlas>,
) -> bool {
    forall|i: int|
        0 <= i < sprites.len() ==> ((#[trigger] sprites[i]).atlas matches Some(a) ==> a
            < atlases.len())
}

/// A sprite whose atlas is loaded must carry that atlas's material; one without a material,
/// or with another one, gets it.
pub open spec fn material_needs_update(sprite: SpriteMaterialState, atlases: Seq<SpriteAtlas>) -> bool {
    match sprite.atlas {
        Some(a) => sprite.material != Some(atlases[a as int].material),
        None => false,
    }
}

/// The (entity, material) pairs to insert, in the order of `sprites`.
pub open spec fn spec_material_inserts(
    sprites: Seq<SpriteMaterialState>,
    atlases: Seq<SpriteAtlas>,
) -> Seq<(u64, AssetKey)>
    decreases sprites.len(),
{
    if sprites.len() == 0 {
        Seq::empty()
    } else {
        let rest = spec_material_inserts(sprites.drop_last(), atlases);
        let s = sprites.last();
        if material_needs_update(s, atlases) {
            rest.push((s.entity, atlases[s.atlas.unwrap() as int].material))
        } else {
            rest
        }
    }
}

/// The sprites as they stand once every sprite with a loaded atlas carries that atlas's
/// material.
pub open spec fn materials_after_update(
    sprites: Seq<SpriteMaterialState>,
    atlases: Seq<SpriteAtlas>,
) -> Seq<SpriteMaterialState> {
    sprites.map_values(
        |s: SpriteMaterialState|
            match s.atlas {
                Some(a) => SpriteMaterialState {
                    material: Some(atlases[a as int].material),
                    ..s
                },
                None => s,
            },
    )
}

/// Lists the material inserts that keep each sprite drawn with the material of its atlas:
/// for every sprite whose atlas is loaded and whose material is missing or differs from the
/// atlas's, the pair (entity, atlas material). Sprites whose atlas is not loaded are skipped.
pub fn update_sprite_atlas_material(
    sprites: &Vec<SpriteMaterialState>,
    atlases: &Vec<SpriteAtlas>,
) -> (inserts: Vec<(u64, AssetKey)>)
    requires
        material_states_refer_to(sprites@, atlases@),
    ensures
        inserts@ == spec_material_inserts(sprites@, atlases@),
        inserts@ == sprites@.filter(
            |s: SpriteMaterialState|
                s.atlas is Some && s.material != Some(atlases@[s.atlas.unwrap() as int].material),
        ).map_values(
            |s: SpriteMaterialState| (s.entity, atlases@[s.atlas.unwrap() as int].material),
        ),
{
    let mut inserts: Vec<(u64, AssetKey)> = Vec::new();
    let n = sprites.len();
    for i in 0..n
        invariant
            n == sprites@.len(),
            material_states_refer_to(sprites@, atlases@),
            inserts@ == spec_material_inserts(sprites@.take(i as int), atlases@),
    {
        assert(sprites@.take(i + 1).drop_last() =~= sprites@.take(i as int));
        let sprite = sprites[i];
        assert(sprites@.take(i + 1).last() == sprite);
        match sprite.atlas {
            Some(a) => {
                let atlas_material = atlases[a].material;
                let should_insert = match sprite.material {
                    Some(current) => current != atlas_material,
                    None => true,
                };
                if should_insert {
                    inserts.push((sprite.entity, atlas_material));
                }
            },
            None => {},
        }
    }
    assert(sprites@.take(n as int) =~= sprites@);
    proof {
        lemma_material_inserts_are_filter(sprites@, atlases@);
    }
    inserts
}

/// The material inserts are, in order, the sprites with a loaded atlas whose material is not
/// that atlas's material key (keys compared as whole values), each paired with the atlas's
/// material.
pub proof fn lemma_material_inserts_are_filter(
    sprites: Seq<SpriteMaterialState>,
    atlases: Seq<SpriteAtlas>,
)
    ensures
        spec_material_inserts(sprites, atlases) == sprites.filter(
            |s: SpriteMaterialState|
                s.atlas is Some && s.material != Some(atlases[s.atlas.unwrap() as int].material),
        ).map_values(
            |s: SpriteMaterialState| (s.entity, atlases[s.atlas.unwrap() as int].material),
        ),
    decreases sprites.len(),
{
    reveal(Seq::filter);
    let pred = |s: SpriteMaterialState|
        s.atlas is Some && s.material != Some(atlases[s.atlas.unwrap() as int].material);
    let f = |s: SpriteMaterialState| (s.entity, atlases[s.atlas.unwrap() as int].material);
    if sprites.len() == 0 {
        assert(sprites.filter(pred).map_values(f) =~= Seq::empty());
    } else {
        lemma_material_inserts_are_filter(sprites.drop_last(), atlases);
        let sub = sprites.drop_last().filter(pred);
        if pred(sprites.last()) {
            assert(sub.push(sprites.last()).map_values(f) =~= sub.map_values(f).push(
                f(sprites.last()),
            ));
        }
    }
}

/// Whether one sprite gets an insert depends on that sprite alone: the inserts for two lists
/// of sprites, one after the other, are the inserts for the first followed by those for the
/// second.
pub proof fn lemma_material_inserts_concat(
    first: Seq<SpriteMaterialState>,
    second: Seq<SpriteMaterialState>,
    atlases: Seq<SpriteAtlas>,
)
    ensures
        spec_material_inserts(first + second, atlases) == spec_material_inserts(first, atlases)
            + spec_material_inserts(second, atlases),
    decreases second.len(),
{
    if second.len() == 0 {
        assert(first + second =~= first);
        assert(spec_material_inserts(first, atlases) + Seq::empty() =~= spec_material_inserts(
            first,
            atlases,
        ));
    } else {
        lemma_material_inserts_concat(first, second.drop_last(), atlases);
        assert((first + second).drop_last() =~= first + second.drop_last());
        assert((first + second).last() == second.last());
        let a = spec_material_inserts(first, atlases);
        let b = spec_material_inserts(second.drop_last(), atlases);
        let s = second.last();
        if material_needs_update(s, atlases) {
            assert((a + b).push((s.entity, atlases[s.atlas.unwrap() as int].material)) =~= a + b.push(
                (s.entity, atlases[s.atlas.unwrap() as int].material),
            ));
        }
    }
}

/// A single sprite gets an insert exactly when its atlas is loaded and its material is not
/// that atlas's material key (missing, or a different key as a whole value); the insert pairs
/// the sprite's entity with the atlas's material.
pub proof fn lemma_material_inserts_single(sprite: SpriteMaterialState, atlases: Seq<SpriteAtlas>)
    ensures
        spec_material_inserts(seq![sprite], atlases) == match sprite.atlas {
            Some(a) => if sprite.material != Some(atlases[a as int].material) {
                seq![(sprite.entity, atlases[a as int].material)]
            } else {
                Seq::<(u64, AssetKey)>::empty()
            },
            None => Seq::<(u64, AssetKey)>::empty(),
        },
{
    reveal_with_fuel(spec_material_inserts, 2);
    assert(seq![sprite].drop_last() =~= Seq::<SpriteMaterialState>::empty());
    assert(seq![sprite].last() == sprite);
}

/// Once the inserts of one update are applied, a second update inserts nothing.
pub proof fn lemma_material_update_settles(
    sprites: Seq<SpriteMaterialState>,
    atlases: Seq<SpriteAtlas>,
)
    requires
        material_states_refer_to(sprites, atlases),
    ensures
        spec_material_inserts(materials_after_update(sprites, atlases), atlases).len() == 0,
    decreases sprites.len(),
{
    let after = materials_after_update(sprites, atlases);
    if sprites.len() > 0 {
        let rest = sprites.drop_last();
        assert(after.drop_last() =~= materials_after_update(rest, atlases));
        lemma_material_update_settles(rest, atlases);
        assert(sprites[sprites.len() - 1] == sprites.last());
    }
}

/// Every atlas that a sprite refers to is in `atlases`, has the animation that the sprite
/// shows, and that animation can place the sprite's frame.
pub open spec fn uv_states_refer_to(sprites: Seq<SpriteUvState>, atlases: Seq<SpriteAtlas>) -> bool {
    forall|i: int|
        0 <= i < sprites.len() ==> ((#[trigger] sprites[i]).atlas matches Some(a) ==> {
            &&& a < atlases.len()
            &&& atlases[a as int].can_show(sprites[i].active)
        })
}

/// The (entity, grid cell) pairs to insert, in the order of `sprites`.
pub open spec fn spec_uv_updates(sprites: Seq<SpriteUvState>, atlases: Seq<SpriteAtlas>) -> Seq<
    (u64, GridUvRange),
>
    decreases sprites.len(),
{
    if sprites.len() == 0 {
        Seq::empty()
    } else {
        let rest = spec_uv_updates(sprites.drop_last(), atlases);
        let s = sprites.last();
        match s.atlas {
            Some(a) => rest.push((s.entity, atlases[a as int].spec_uv_range(s.active))),
            None => rest,
        }
    }
}

/// Lists, for every sprite whose atlas is loaded, the entity and the grid cell of the frame
/// it shows, in the order of `sprites`. Sprites whose atlas is not loaded are skipped.
pub fn update_sprite_atlas_uv_ranges(sprites: &Vec<SpriteUvState>, atlases: &Vec<SpriteAtlas>) -> (updates: Vec<(u64, GridUvRange)>)
    requires
        uv_states_refer_to(sprites@, atlases@),
    ensures
        updates@ == spec_uv_updates(sprites@, atlases@),
        ({
            let shown = sprites@.filter(|s: SpriteUvState| s.atlas is Some);
            &&& updates@.len() == shown.len()
            &&& forall|k: int|
                0 <= k < shown.len() ==> {
                    let s = #[trigger] shown[k];
                    let h = atlases@[s.atlas.unwrap() as int].animations[s.active.animation as int].horizontal();
                    let r = updates@[k].1;
                    &&& updates@[k].0 == s.entity
                    &&& r.start.0 < h
                    &&& r.start.1 * h + r.start.0 == s.active.frame
                    &&& r.end.0 == r.start.0 + 1 && r.end.1 == r.start.1 + 1
                }
        }),
{
    let mut updates: Vec<(u64, GridUvRange)> = Vec::new();
    let n = sprites.len();
    for i in 0..n
        invariant
            n == sprites@.len(),
            uv_states_refer_to(sprites@, atlases@),
            updates@ == spec_uv_updates(sprites@.take(i as int), atlases@),
    {
        assert(sprites@.take(i + 1).drop_last() =~= sprites@.take(i as int));
        let sprite = sprites[i];
        assert(sprites@.take(i + 1).last() == sprite);
        match sprite.atlas {
            Some(a) => {
                let range = atlases[a].uv_range(&sprite.active);
                updates.push((sprite.entity, range));
            },
            None => {},
        }
    }
    assert(sprites@.take(n as int) =~= sprites@);
    proof {
        lemma_uv_updates_are_filter(sprites@, atlases@);
        let shown = sprites@.filter(|s: SpriteUvState| s.atlas is Some);
        assert forall|k: int| 0 <= k < shown.len() implies {
            let s = #[trigger] shown[k];
            let h = atlases@[s.atlas.unwrap() as int].animations[s.active.animation as int].horizontal();
            let r = updates@[k].1;
            &&& updates@[k].0 == s.entity
            &&& r.start.0 < h
            &&& r.start.1 * h + r.start.0 == s.active.frame
            &&& r.end.0 == r.start.0 + 1 && r.end.1 == r.start.1 + 1
        } by {
            let s = shown[k];
            sprites@.lemma_filter_pred(|s: SpriteUvState| s.atlas is Some, k);
            lemma_filter_member(sprites@, |s: SpriteUvState| s.atlas is Some, k);
            let j = choose|j: int| 0 <= j < sprites@.len() && sprites@[j] == s;
            assert(uv_states_refer_to(sprites@, atlases@));
            assert(sprites@[j].atlas matches Some(a) ==> a < atlases@.len() && atlases@[a as int].can_show(sprites@[j].active));
            lemma_uv_range_cell(atlases@[s.atlas.unwrap() as int], s.active);
        }
    }
    updates
}

/// Every element of a filtered sequence is an element of the sequence.
proof fn lemma_filter_member<A>(seq: Seq<A>, pred: spec_fn(A) -> bool, k: int)
    requires
        0 <= k < seq.filter(pred).len(),
    ensures
        exists|j: int| 0 <= j < seq.len() && seq[j] == seq.filter(pred)[k],
    decreases seq.len(),
{
    reveal(Seq::filter);
    let sub = seq.drop_last().filter(pred);
    if k < sub.len() {
        lemma_filter_member(seq.drop_last(), pred, k);
        let j = choose|j: int| 0 <= j < seq.drop_last().len() && seq.drop_last()[j] == sub[k];
        assert(seq[j] == seq.filter(pred)[k]);
    } else {
        assert(seq[seq.len() - 1] == seq.filter(pred)[k]);
    }
}

/// The UV updates are, in order, the sprites whose atlas is loaded, each paired with the
/// cell of the frame it shows.
pub proof fn lemma_uv_updates_are_filter(sprites: Seq<SpriteUvState>, atlases: Seq<SpriteAtlas>)
    ensures
        spec_uv_updates(sprites, atlases) == sprites.filter(|s: SpriteUvState| s.atlas is Some).map_values(
            |s: SpriteUvState| (s.entity, atlases[s.atlas.unwrap() as int].spec_uv_range(s.active)),
        ),
    decreases sprites.len(),
{
    reveal(Seq::filter);
    let pred = |s: SpriteUvState| s.atlas is Some;
    let f = |s: SpriteUvState| (s.entity, atlases[s.atlas.unwrap() as int].spec_uv_range(s.active));
    if sprites.len() == 0 {
        assert(sprites.filter(pred).map_values(f) =~= Seq::empty());
    } else {
        lemma_uv_updates_are_filter(sprites.drop_last(), atlases);
        let sub = sprites.drop_last().filter(pred);
        if pred(sprites.last()) {
            assert(sub.push(sprites.last()).map_values(f) =~= sub.map_values(f).push(
                f(sprites.last()),
            ));
        }
    }
}

/// Each sprite's update depends on that sprite alone: the updates for two lists of sprites,
/// one after the other, are the updates for the first followed by those for the second.
pub proof fn lemma_uv_updates_concat(
    first: Seq<SpriteUvState>,
    second: Seq<SpriteUvState>,
    atlases: Seq<SpriteAtlas>,
)
    ensures
        spec_uv_updates(first + second, atlases) == spec_uv_updates(first, atlases)
            + spec_uv_updates(second, atlases),
    decreases second.len(),
{
    if second.len() == 0 {
        assert(first + second =~= first);
        assert(spec_uv_updates(first, atlases) + Seq::empty() =~= spec_uv_updates(first, atlases));
    } else {
        lemma_uv_updates_concat(first, second.drop_last(), atlases);
        assert((first + second).drop_last() =~= first + second.drop_last());
        assert((first + second).last() == second.last());
        let a = spec_uv_updates(first, atlases);
        let b = spec_uv_updates(second.drop_last(), atlases);
        let s = second.last();
        if let Some(i) = s.atlas {
            let e = (s.entity, atlases[i as int].spec_uv_range(s.active));
            assert((a + b).push(e) =~= a + b.push(e));
        }
    }
}

/// A single sprite whose atlas is loaded gets exactly one update, for its own entity, whose
/// cell has a column below the animation's row length, a row times the row length plus the
/// column equal to the frame, and a size of one sprite; a sprite whose atlas is not loaded
/// gets none.
pub proof fn lemma_uv_updates_single(sprite: SpriteUvState, atlases: Seq<SpriteAtlas>)
    requires
        uv_states_refer_to(seq![sprite], atlases),
    ensures
        ({
            let u = spec_uv_updates(seq![sprite], atlases);
            match sprite.atlas {
                Some(a) => {
                    let h = atlases[a as int].animations[sprite.active.animation as int].horizontal();
                    &&& u.len() == 1
                    &&& u[0].0 == sprite.entity
                    &&& u[0].1.start.0 < h
                    &&& u[0].1.start.1 * h + u[0].1.start.0 == sprite.active.frame
                    &&& u[0].1.end.0 == u[0].1.start.0 + 1 && u[0].1.end.1 == u[0].1.start.1 + 1
                },
                None => u.len() == 0,
            }
        }),
{
    reveal_with_fuel(spec_uv_updates, 2);
    assert(seq![sprite].drop_last() =~= Seq::<SpriteUvState>::empty());
    assert(seq![sprite].last() == sprite);
    assert(seq![sprite][0] == sprite);
    if let Some(a) = sprite.atlas {
        lemma_uv_range_cell(atlases[a as int], sprite.active);
    }
}

} // verus!
