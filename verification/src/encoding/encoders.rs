//! The reference encoders.

use vstd::prelude::*;
use crate::assets::AssetStorage;
use crate::components::{GlobalTransform, Rgba};
use crate::encoding::binding::Binding;
use crate::encoding::encode_loop::{ComponentBindings, EncodeLoop, EncodedRows};
use crate::encoding::property::Property;
use crate::scalar::{negate, negated, Scalar, Slot, Vec4, ONE, ZERO};
use crate::sprite::{Sprite, SpriteRenderInfo, SpriteSheet, SpriteSheetHandle};

verus! {

/// Why an encoder could not run in this frame. The failure ends the contribution of that
/// encoder to the frame, and nothing else.
#[derive(Clone, Copy, Debug, PartialEq, Eq)]
pub enum SetupFailure {
    /// The sprite sheet that an entity refers to is not in the asset table.
    UnresolvedSpriteSheet {
        /// The first entity, in the order of the visits, whose sprite sheet is missing.
        entity: usize,
        /// The handle that did not resolve.
        handle: SpriteSheetHandle,
    },
}

/// How a run of an encoder ended: with the rows of the visited entities, or with the
/// reason why the encoder could not run.
pub type LoopResult<const N: usize> = Result<EncodedRows<N>, SetupFailure>;

/// An encoder that encodes the `Rgba` component into a stream of `vec4 tint`.
#[derive(Debug)]
pub struct RgbaTintEncoder;

impl RgbaTintEncoder {
    /// The tint that is encoded for an entity: the four channels of its `Rgba` as they
    /// are, or fully opaque white where it has none.
    pub open spec fn spec_tint(views: (Option<Rgba>,)) -> [Slot; 1] {
        match views.0 {
            Some(rgba) => [Some([rgba.0, rgba.1, rgba.2, rgba.3])],
            None => [Some([ONE, ONE, ONE, ONE])],
        }
    }

    /// Whether `encoded` holds the tints of the entities, in their order.
    pub open spec fn is_encoding_of(
        entities: Seq<usize>,
        components: (&Binding<Rgba>,),
        encoded: EncodedRows<1>,
    ) -> bool {
        &&& encoded.wf()
        &&& encoded.entities@ == entities
        &&& forall|i: int|
            0 <= i < entities.len() ==> #[trigger] encoded.rows@[i] == Self::spec_tint(
                components.spec_views(entities[i] as int),
            )
    }

    /// The properties that the encoder writes, in the order of the slots of a row.
    pub fn properties() -> (r: [Property; 1])
        ensures
            r == [Property::Tint],
    {
        [Property::Tint]
    }

    /// The row of one entity.
    pub fn tint(views: (Option<Rgba>,)) -> (row: [Slot; 1])
        ensures
            row == Self::spec_tint(views),
    {
        let (rgba,) = views;
        let rgba: Rgba = match rgba {
            Some(rgba) => rgba,
            None => Rgba::white(),
        };
        [Some(rgba.to_vec4())]
    }

    /// Encodes the tint of every entity of the loop. The encoder needs no resource and
    /// always runs to completion.
    pub fn encode<'a>(encode_loop: EncodeLoop<(&'a Binding<Rgba>,)>, _data: ()) -> (r: LoopResult<1>)
        ensures
            r matches Ok(encoded) && Self::is_encoding_of(encode_loop.entities@, encode_loop.components, encoded),
    {
        Ok(encode_loop.run(Self::tint))
    }

    /// Encoding the same entities and components again gives the same rows in the same
    /// order.
    pub proof fn lemma_encode_is_deterministic(
        entities: Seq<usize>,
        components: (&Binding<Rgba>,),
        first: EncodedRows<1>,
        second: EncodedRows<1>,
    )
        requires
            Self::is_encoding_of(entities, components, first),
            Self::is_encoding_of(entities, components, second),
        ensures
            first.entities@ == second.entities@,
            first.rows@ == second.rows@,
    {
        assert(first.rows@ =~= second.rows@);
    }
}

/// An encoder that encodes the `GlobalTransform` and `SpriteRenderInfo` components into
/// streams of `vec4 pos`, `vec4 dir_x` and `vec4 dir_y`.
///
/// The arithmetic is handed in as two function values: `scale` multiplies a vector by a
/// scalar, `apply` multiplies the matrix of a transform with a vector.
#[derive(Debug)]
pub struct SpriteTransformEncoder;

impl SpriteTransformEncoder {
    /// The sprite that a render component refers to: sprite `sprite_number` of the sheet
    /// behind its handle. `None` where the handle is unresolved or the sheet has no
    /// sprite of that number.
    pub open spec fn spec_sprite(render: SpriteRenderInfo, sheets: &AssetStorage<SpriteSheet>) -> Option<Sprite> {
        match sheets.resolve(render.sprite_sheet.id as int) {
            Some(sheet) => sheet.spec_sprite(render.sprite_number as int),
            None => None,
        }
    }

    /// The point of the sprite that lies at the position of its entity, as a homogeneous
    /// point: the negated pixel offsets, zero, one.
    pub open spec fn spec_anchor(sprite: Sprite) -> Vec4 {
        [negated(sprite.offsets[0]), negated(sprite.offsets[1]), ZERO, ONE]
    }

    /// Whether `row` is what the encoder owes for an entity with these views.
    ///
    /// Where the transform or the render component is absent, or the sprite that the
    /// latter refers to cannot be found, all three slots hold "no value". Else the
    /// position is the transform applied to the anchor of the sprite, and the two
    /// directions are the first two columns of the transform, scaled by the pixel width
    /// and the pixel height of the sprite.
    pub open spec fn derived<S, M>(
        views: (Option<GlobalTransform>, Option<SpriteRenderInfo>),
        sheets: &AssetStorage<SpriteSheet>,
        scale: &S,
        apply: &M,
        row: [Slot; 3],
    ) -> bool where S: Fn(Vec4, Scalar) -> Vec4, M: Fn([Vec4; 4], Vec4) -> Vec4 {
        match (views.0, views.1) {
            (Some(transform), Some(render)) => match Self::spec_sprite(render, sheets) {
                Some(sprite) => {
                    &&& row[0] matches Some(pos) && call_ensures(*apply, (transform.0, Self::spec_anchor(sprite)), pos)
                    &&& row[1] matches Some(dir_x) && call_ensures(*scale, (transform.0[0], sprite.width), dir_x)
                    &&& row[2] matches Some(dir_y) && call_ensures(*scale, (transform.0[1], sprite.height), dir_y)
                },
                None => row == [None::<Vec4>, None::<Vec4>, None::<Vec4>],
            },
            _ => row == [None::<Vec4>, None::<Vec4>, None::<Vec4>],
        }
    }

    /// Whether the arithmetic can be called on what the encoder hands it for an entity
    /// with these views: the first two columns of the transform with the width and the
    /// height of the sprite, and the matrix with the anchor of the sprite. Nothing is
    /// asked where the transform, the render component or the sprite is missing, since
    /// nothing is computed there.
    pub open spec fn callable_for<S, M>(
        views: (Option<GlobalTransform>, Option<SpriteRenderInfo>),
        sheets: &AssetStorage<SpriteSheet>,
        scale: &S,
        apply: &M,
    ) -> bool where S: Fn(Vec4, Scalar) -> Vec4, M: Fn([Vec4; 4], Vec4) -> Vec4 {
        match (views.0, views.1) {
            (Some(transform), Some(render)) => match Self::spec_sprite(render, sheets) {
                Some(sprite) => {
                    &&& call_requires(*scale, (transform.0[0], sprite.width))
                    &&& call_requires(*scale, (transform.0[1], sprite.height))
                    &&& call_requires(*apply, (transform.0, Self::spec_anchor(sprite)))
                },
                None => true,
            },
            _ => true,
        }
    }

    /// Whether the `i`-th visit of the loop meets an entity that has both components and
    /// refers to a sprite sheet that is not in the asset table.
    pub open spec fn unresolved_at(
        entities: Seq<usize>,
        components: (&Binding<GlobalTransform>, &Binding<SpriteRenderInfo>),
        sheets: &AssetStorage<SpriteSheet>,
        i: int,
    ) -> bool {
        let views = components.spec_views(entities[i] as int);
        &&& views.0 is Some
        &&& views.1 matches Some(render)
        &&& sheets.resolve(render.sprite_sheet.id as int) is None
    }

    /// Whether `encoded` holds, for every entity in order, the row that the encoder owes
    /// for it, none of the entities meeting an unresolved sprite sheet.
    pub open spec fn is_encoding_of<S, M>(
        entities: Seq<usize>,
        components: (&Binding<GlobalTransform>, &Binding<SpriteRenderInfo>),
        sheets: &AssetStorage<SpriteSheet>,
        scale: &S,
        apply: &M,
        encoded: EncodedRows<3>,
    ) -> bool where S: Fn(Vec4, Scalar) -> Vec4, M: Fn([Vec4; 4], Vec4) -> Vec4 {
        &&& forall|i: int| 0 <= i < entities.len() ==> !Self::unresolved_at(entities, components, sheets, i)
        &&& encoded.wf()
        &&& encoded.entities@ == entities
        &&& forall|i: int|
            0 <= i < entities.len() ==> Self::derived(
                components.spec_views(entities[i] as int),
                sheets,
                scale,
                apply,
                #[trigger] encoded.rows@[i],
            )
    }

    /// Whether visit `i` is the one that a failure reports.
    pub open spec fn is_failing_visit(
        entities: Seq<usize>,
        components: (&Binding<GlobalTransform>, &Binding<SpriteRenderInfo>),
        sheets: &AssetStorage<SpriteSheet>,
        failure: SetupFailure,
        i: int,
    ) -> bool {
        &&& 0 <= i < entities.len()
        &&& Self::unresolved_at(entities, components, sheets, i)
        &&& forall|j: int| 0 <= j < i ==> !Self::unresolved_at(entities, components, sheets, j)
        &&& failure matches SetupFailure::UnresolvedSpriteSheet { entity, handle }
        &&& entity == entities[i]
        &&& components.1.spec_get(entity as int) matches Some(render)
        &&& handle == render.sprite_sheet
    }

    /// Whether the failure reports the first visit that meets an unresolved sprite
    /// sheet.
    pub open spec fn is_failure_of(
        entities: Seq<usize>,
        components: (&Binding<GlobalTransform>, &Binding<SpriteRenderInfo>),
        sheets: &AssetStorage<SpriteSheet>,
        failure: SetupFailure,
    ) -> bool {
        exists|i: int| #[trigger] Self::is_failing_visit(entities, components, sheets, failure, i)
    }

    /// Whether the function values return the same vector whenever they are given the
    /// same arguments.
    pub open spec fn functional<S, M>(scale: &S, apply: &M) -> bool where
        S: Fn(Vec4, Scalar) -> Vec4,
        M: Fn([Vec4; 4], Vec4) -> Vec4,
    {
        &&& forall|v: Vec4, s: Scalar, first: Vec4, second: Vec4|
            call_ensures(*scale, (v, s), first) && call_ensures(*scale, (v, s), second) ==> first == second
        &&& forall|m: [Vec4; 4], v: Vec4, first: Vec4, second: Vec4|
            call_ensures(*apply, (m, v), first) && call_ensures(*apply, (m, v), second) ==> first == second
    }

    /// The properties that the encoder writes, in the order of the slots of a row.
    pub fn properties() -> (r: [Property; 3])
        ensures
            r == [Property::Pos2D, Property::DirX, Property::DirY],
    {
        [Property::Pos2D, Property::DirX, Property::DirY]
    }

    /// The point of the sprite that lies at the position of its entity.
    pub fn anchor(sprite: &Sprite) -> (r: Vec4)
        ensures
            r == Self::spec_anchor(*sprite),
    {
        [negate(sprite.offsets[0]), negate(sprite.offsets[1]), ZERO, ONE]
    }

    /// The row of one entity: all three values, or "no value" three times.
    pub fn derive<S, M>(
        views: (Option<GlobalTransform>, Option<SpriteRenderInfo>),
        sheets: &AssetStorage<SpriteSheet>,
        scale: &S,
        apply: &M,
    ) -> (row: [Slot; 3]) where S: Fn(Vec4, Scalar) -> Vec4, M: Fn([Vec4; 4], Vec4) -> Vec4
        requires
            Self::callable_for(views, sheets, scale, apply),
        ensures
            Self::derived(views, sheets, scale, apply, row),
    {
        if let (Some(transform), Some(render)) = views {
            if let Some(sheet) = sheets.get(render.sprite_sheet.id) {
                if let Some(sprite) = sheet.sprite(render.sprite_number) {
                    let dir_x: Vec4 = scale(transform.basis_x(), sprite.width);
                    let dir_y: Vec4 = scale(transform.basis_y(), sprite.height);
                    let pos: Vec4 = apply(transform.0, Self::anchor(&sprite));
                    return [Some(pos), Some(dir_x), Some(dir_y)];
                }
            }
        }
        [None, None, None]
    }

    /// Encodes position and directions of every entity of the loop. The arithmetic has
    /// to be callable on what the entities of the loop give it.
    ///
    /// The encoder cannot run where an entity with both components refers to a sprite
    /// sheet that is not in the asset table: it then reports the first such entity and
    /// returns no rows at all.
    pub fn encode<'a, S, M>(
        encode_loop: EncodeLoop<(&'a Binding<GlobalTransform>, &'a Binding<SpriteRenderInfo>)>,
        sheets: &AssetStorage<SpriteSheet>,
        scale: &S,
        apply: &M,
    ) -> (r: LoopResult<3>) where S: Fn(Vec4, Scalar) -> Vec4, M: Fn([Vec4; 4], Vec4) -> Vec4
        requires
            forall|i: int|
                0 <= i < encode_loop.entities@.len() ==> Self::callable_for(
                    #[trigger] encode_loop.components.spec_views(encode_loop.entities@[i] as int),
                    sheets,
                    scale,
                    apply,
                ),
        ensures
            match r {
                Ok(encoded) => Self::is_encoding_of(
                    encode_loop.entities@,
                    encode_loop.components,
                    sheets,
                    scale,
                    apply,
                    encoded,
                ),
                Err(failure) => Self::is_failure_of(encode_loop.entities@, encode_loop.components, sheets, failure),
            },
    {
        let mut i: usize = 0;
        while i < encode_loop.entities.len()
            invariant
                i <= encode_loop.entities@.len(),
                forall|j: int|
                    0 <= j < i ==> !Self::unresolved_at(encode_loop.entities@, encode_loop.components, sheets, j),
            decreases encode_loop.entities@.len() - i,
        {
            let entity: usize = encode_loop.entities[i];
            if let (Some(_), Some(render)) = encode_loop.components.views(entity) {
                if sheets.get(render.sprite_sheet.id).is_none() {
                    let failure = SetupFailure::UnresolvedSpriteSheet { entity, handle: render.sprite_sheet };
                    assert(Self::is_failing_visit(
                        encode_loop.entities@,
                        encode_loop.components,
                        sheets,
                        failure,
                        i as int,
                    ));
                    return Err(failure);
                }
            }
            i += 1;
        }
        let for_each = |views: (Option<GlobalTransform>, Option<SpriteRenderInfo>)| -> (row: [Slot; 3])
            requires
                Self::callable_for(views, sheets, scale, apply),
            ensures
                Self::derived(views, sheets, scale, apply, row),
            { Self::derive(views, sheets, scale, apply) };
        Ok(encode_loop.run(for_each))
    }

    /// An entity that lacks the transform or the render component gets "no value" for
    /// all three properties, never a part of the result.
    pub proof fn lemma_missing_input_withholds_all<S, M>(
        views: (Option<GlobalTransform>, Option<SpriteRenderInfo>),
        sheets: &AssetStorage<SpriteSheet>,
        scale: &S,
        apply: &M,
        row: [Slot; 3],
    ) where S: Fn(Vec4, Scalar) -> Vec4, M: Fn([Vec4; 4], Vec4) -> Vec4
        requires
            Self::derived(views, sheets, scale, apply, row),
            views.0 is None || views.1 is None,
        ensures
            row[0] is None,
            row[1] is None,
            row[2] is None,
    {
    }

    /// The three values of an entity come together or not at all.
    pub proof fn lemma_all_or_nothing<S, M>(
        views: (Option<GlobalTransform>, Option<SpriteRenderInfo>),
        sheets: &AssetStorage<SpriteSheet>,
        scale: &S,
        apply: &M,
        row: [Slot; 3],
    ) where S: Fn(Vec4, Scalar) -> Vec4, M: Fn([Vec4; 4], Vec4) -> Vec4
        requires
            Self::derived(views, sheets, scale, apply, row),
        ensures
            (row[0] is Some && row[1] is Some && row[2] is Some) || (row[0] is None && row[1] is None && row[2]
                is None),
            row[0] is Some <==> views.0 is Some && views.1 is Some && Self::spec_sprite(views.1->Some_0, sheets)
                is Some,
    {
    }

    /// Encoding the same entities and components with the same sprite sheets again ends
    /// in the same way: with the same failure, or with the same rows in the same order,
    /// provided that the arithmetic returns the same vector for the same arguments.
    pub proof fn lemma_encode_is_deterministic<S, M>(
        entities: Seq<usize>,
        components: (&Binding<GlobalTransform>, &Binding<SpriteRenderInfo>),
        sheets: &AssetStorage<SpriteSheet>,
        scale: &S,
        apply: &M,
        first: LoopResult<3>,
        second: LoopResult<3>,
    ) where S: Fn(Vec4, Scalar) -> Vec4, M: Fn([Vec4; 4], Vec4) -> Vec4
        requires
            Self::functional(scale, apply),
            match first {
                Ok(encoded) => Self::is_encoding_of(entities, components, sheets, scale, apply, encoded),
                Err(failure) => Self::is_failure_of(entities, components, sheets, failure),
            },
            match second {
                Ok(encoded) => Self::is_encoding_of(entities, components, sheets, scale, apply, encoded),
                Err(failure) => Self::is_failure_of(entities, components, sheets, failure),
            },
        ensures
            first is Ok <==> second is Ok,
            first is Err ==> first->Err_0 == second->Err_0,
            first is Ok ==> first->Ok_0.entities@ == second->Ok_0.entities@ && first->Ok_0.rows@ == second->Ok_0.rows@,
    {
        match (first, second) {
            (Ok(a), Ok(b)) => {
                assert forall|i: int| 0 <= i < entities.len() implies a.rows@[i] == b.rows@[i] by {
                    let views = components.spec_views(entities[i] as int);
                    assert(Self::derived(views, sheets, scale, apply, a.rows@[i]));
                    assert(Self::derived(views, sheets, scale, apply, b.rows@[i]));
                    Self::lemma_derived_is_unique(views, sheets, scale, apply, a.rows@[i], b.rows@[i]);
                }
                assert(a.rows@ =~= b.rows@);
            },
            (Err(f1), Err(f2)) => {
                let i = choose|i: int| Self::is_failing_visit(entities, components, sheets, f1, i);
                let j = choose|j: int| Self::is_failing_visit(entities, components, sheets, f2, j);
                assert(Self::is_failing_visit(entities, components, sheets, f1, i));
                assert(Self::is_failing_visit(entities, components, sheets, f2, j));
                if i < j {
                    assert(!Self::unresolved_at(entities, components, sheets, i));
                }
                if j < i {
                    assert(!Self::unresolved_at(entities, components, sheets, j));
                }
            },
            (Ok(a), Err(failure)) => {
                let i = choose|i: int| Self::is_failing_visit(entities, components, sheets, failure, i);
                assert(Self::is_failing_visit(entities, components, sheets, failure, i));
            },
            (Err(failure), Ok(b)) => {
                let i = choose|i: int| Self::is_failing_visit(entities, components, sheets, failure, i);
                assert(Self::is_failing_visit(entities, components, sheets, failure, i));
            },
        }
    }

    /// With arithmetic that returns the same vector for the same arguments, the row of
    /// an entity is determined by its views.
    pub proof fn lemma_derived_is_unique<S, M>(
        views: (Option<GlobalTransform>, Option<SpriteRenderInfo>),
        sheets: &AssetStorage<SpriteSheet>,
        scale: &S,
        apply: &M,
        first: [Slot; 3],
        second: [Slot; 3],
    ) where S: Fn(Vec4, Scalar) -> Vec4, M: Fn([Vec4; 4], Vec4) -> Vec4
        requires
            Self::functional(scale, apply),
            Self::derived(views, sheets, scale, apply, first),
            Self::derived(views, sheets, scale, apply, second),
        ensures
            first == second,
    {
        assert(first[0] == second[0]);
        assert(first[1] == second[1]);
        assert(first[2] == second[2]);
        assert(first@ =~= second@);
    }
}

} // verus!
