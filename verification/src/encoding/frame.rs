//! The sprite pass: one frame of instance data from the two reference encoders.

use vstd::prelude::*;
use crate::assets::AssetStorage;
use crate::components::{GlobalTransform, Rgba};
use crate::encoding::binding::Binding;
use crate::encoding::encode_loop::{is_join_of, lemma_join_is_unique, ComponentBindings, EncodeLoop};
use crate::encoding::encoders::{LoopResult, RgbaTintEncoder, SetupFailure, SpriteTransformEncoder};
use crate::encoding::property::Property;
use crate::encoding::system::{EncodingSystem, FrameView, InstanceData, MergeError, Registry};
use crate::scalar::{zero_vec4, Scalar, Slot, Vec4};
use crate::sprite::{SpriteRenderInfo, SpriteSheet};

verus! {

/// What a buffer row holds for a slot of a fresh frame: the value, or zeros for "no
/// value".
pub open spec fn filled(slot: Slot) -> Vec4 {
    match slot {
        Some(value) => value,
        None => zero_vec4(),
    }
}

/// The source data of a frame that the sprite pass reads.
pub struct SpriteSources<'a> {
    /// The tints.
    pub tints: &'a Binding<Rgba>,
    /// The resolved world transforms.
    pub transforms: &'a Binding<GlobalTransform>,
    /// The sprites that the entities show.
    pub renders: &'a Binding<SpriteRenderInfo>,
    /// The sprite sheets.
    pub sheets: &'a AssetStorage<SpriteSheet>,
}

impl<'a> SpriteSources<'a> {
    /// The bindings that decide which entities are in the frame.
    pub open spec fn geometry(&self) -> (&'a Binding<GlobalTransform>, &'a Binding<SpriteRenderInfo>) {
        (self.transforms, self.renders)
    }
}

/// The sprite pass. It has the two reference encoders registered, the tint encoder
/// first, so the buffers of a frame are, by offset: tint, position, X direction, Y
/// direction.
pub struct SpritePass {
    system: EncodingSystem,
}

/// What the system of the sprite pass knows: tint, position, X direction and Y
/// direction, in this order; the first is the tint encoder's, the other three are the
/// geometry encoder's.
pub open spec fn sprite_registry() -> Registry {
    Registry {
        properties: seq![Property::Tint, Property::Pos2D, Property::DirX, Property::DirY],
        ends: seq![1usize, 4usize],
    }
}

impl View for SpritePass {
    type V = Registry;

    closed spec fn view(&self) -> Registry {
        self.system@
    }
}

impl SpritePass {
    #[verifier::type_invariant]
    spec fn inv(self) -> bool {
        self.system@ == sprite_registry()
    }

    /// Whether row `i` of the three geometry buffers holds what the geometry encoder
    /// owes for the entity of that row, with zeros for "no value".
    pub open spec fn has_geometry_at<S, M>(
        sources: SpriteSources<'_>,
        scale: &S,
        apply: &M,
        frame: FrameView,
        i: int,
    ) -> bool where S: Fn(Vec4, Scalar) -> Vec4, M: Fn([Vec4; 4], Vec4) -> Vec4 {
        exists|row: [Slot; 3]|
            {
                &&& #[trigger] SpriteTransformEncoder::derived(
                    sources.geometry().spec_views(frame.entities[i] as int),
                    sources.sheets,
                    scale,
                    apply,
                    row,
                )
                &&& frame.buffers[1][i] == filled(row[0])
                &&& frame.buffers[2][i] == filled(row[1])
                &&& frame.buffers[3][i] == filled(row[2])
            }
    }

    /// Whether `frame` is the frame that the pass owes for these sources, and `failure`
    /// the way in which the geometry encoder failed, if it did.
    ///
    /// The entities of the frame are the join of transforms and sprites. Every one of
    /// them has its tint, white where it has none of its own. Position and directions
    /// are those that the geometry encoder owes, with zeros for "no value"; where that
    /// encoder could not run, its three buffers hold zeros throughout and the tint is
    /// there all the same.
    pub open spec fn is_frame_of<S, M>(
        sources: SpriteSources<'_>,
        scale: &S,
        apply: &M,
        frame: FrameView,
        failure: Option<SetupFailure>,
    ) -> bool where S: Fn(Vec4, Scalar) -> Vec4, M: Fn([Vec4; 4], Vec4) -> Vec4 {
        &&& frame.wf()
        &&& frame.buffers.len() == 4
        &&& is_join_of(frame.entities, sources.geometry())
        &&& forall|i: int|
            0 <= i < frame.entities.len() ==> Some(#[trigger] frame.buffers[0][i]) == RgbaTintEncoder::spec_tint(
                (sources.tints.spec_get(frame.entities[i] as int),),
            )[0]
        &&& match failure {
            Some(failure) => {
                &&& SpriteTransformEncoder::is_failure_of(frame.entities, sources.geometry(), sources.sheets, failure)
                &&& forall|b: int, i: int|
                    1 <= b < 4 && 0 <= i < frame.entities.len() ==> #[trigger] frame.buffers[b][i] == zero_vec4()
            },
            None => {
                &&& forall|i: int|
                    0 <= i < frame.entities.len() ==> !SpriteTransformEncoder::unresolved_at(
                        frame.entities,
                        sources.geometry(),
                        sources.sheets,
                        i,
                    )
                &&& forall|i: int|
                    0 <= i < frame.entities.len() ==> #[trigger] Self::has_geometry_at(sources, scale, apply, frame, i)
            },
        }
    }

    /// Registers the two reference encoders.
    pub fn new() -> (r: Self)
        ensures
            r@ == sprite_registry(),
    {
        let mut system = EncodingSystem::new();
        let ghost empty = system@;
        let tint = RgbaTintEncoder::properties();
        proof {
            assert(empty.properties + tint@.take(0) =~= Seq::<Property>::empty());
            assert(!empty.clashes(tint, 0));
        }
        let first = system.register(tint);
        assert(first is Ok) by {
            if first is Err {
                let k = choose|k: int| 0 <= k < 1 && #[trigger] empty.clashes(tint, k);
                assert(k == 0);
            }
        }
        let ghost one = system@;
        assert(one.properties =~= seq![Property::Tint]);
        let geometry = SpriteTransformEncoder::properties();
        proof {
            assert(one.properties + geometry@.take(0) =~= seq![Property::Tint]);
            assert(one.properties + geometry@.take(1) =~= seq![Property::Tint, Property::Pos2D]);
            assert(one.properties + geometry@.take(2) =~= seq![Property::Tint, Property::Pos2D, Property::DirX]);
            assert(!one.clashes(geometry, 0));
            assert(!one.clashes(geometry, 1));
            assert(!one.clashes(geometry, 2));
        }
        let second = system.register(geometry);
        assert(second is Ok) by {
            if second is Err {
                let k = choose|k: int| 0 <= k < 3 && #[trigger] one.clashes(geometry, k);
                assert(k == 0 || k == 1 || k == 2);
            }
        }
        assert(system@.properties =~= sprite_registry().properties);
        assert(system@.ends =~= sprite_registry().ends);
        SpritePass { system }
    }

    /// The system of the pass, with its two encoders: the tint encoder is encoder 0,
    /// the geometry encoder is encoder 1.
    pub fn system(&self) -> (r: &EncodingSystem)
        ensures
            r@ == self@,
            r@ == sprite_registry(),
    {
        proof {
            use_type_invariant(self);
        }
        &self.system
    }

    /// Encodes one frame: joins the entities, runs both encoders over them and merges
    /// what they return into fresh instance data. A failure of the geometry encoder is
    /// handed back beside the frame; it costs the frame the geometry, not the tint. The
    /// arithmetic has to be callable on what the entities of the sources give it.
    pub fn encode<S, M>(&self, sources: &SpriteSources<'_>, scale: &S, apply: &M) -> (r: (
        InstanceData,
        Option<SetupFailure>,
    )) where S: Fn(Vec4, Scalar) -> Vec4, M: Fn([Vec4; 4], Vec4) -> Vec4
        requires
            forall|entity: int|
                SpriteTransformEncoder::callable_for(
                    #[trigger] sources.geometry().spec_views(entity),
                    sources.sheets,
                    scale,
                    apply,
                ),
        ensures
            Self::is_frame_of(*sources, scale, apply, r.0@, r.1),
    {
        proof {
            use_type_invariant(self);
        }
        let joined = EncodeLoop::join((sources.transforms, sources.renders));
        let ghost entities = joined.entities@;
        let tint_loop = EncodeLoop { entities: copy_of(&joined.entities), components: (sources.tints,) };
        let mut frame = self.system.begin_frame(copy_of(&joined.entities));
        let ghost blank = frame@;
        let tint: LoopResult<1> = RgbaTintEncoder::encode(tint_loop, ());
        let geometry: LoopResult<3> = SpriteTransformEncoder::encode(joined, sources.sheets, scale, apply);
        let tinted = self.system.contribute(&mut frame, 0, &tint);
        let ghost with_tint = frame@;
        assert(tinted == Ok::<bool, MergeError>(true));
        assert forall|i: int| 0 <= i < entities.len() implies Some(#[trigger] with_tint.buffers[0][i])
            == RgbaTintEncoder::spec_tint((sources.tints.spec_get(entities[i] as int),))[0] by {
            assert(tint->Ok_0.rows@[i] == RgbaTintEncoder::spec_tint((sources.tints,).spec_views(entities[i] as int)));
        }
        assert forall|b: int, i: int| 1 <= b < 4 && 0 <= i < entities.len() implies #[trigger] with_tint.buffers[b][i]
            == zero_vec4() by {
            assert(with_tint.buffers[b] == blank.buffers[b]);
        }
        let shaped = self.system.contribute(&mut frame, 1, &geometry);
        let ghost done = frame@;
        match geometry {
            Ok(encoded) => {
                assert(shaped == Ok::<bool, MergeError>(true));
                assert(done.buffers[0] == with_tint.buffers[0]);
                assert forall|i: int| 0 <= i < entities.len() implies #[trigger] Self::has_geometry_at(
                    *sources,
                    scale,
                    apply,
                    done,
                    i,
                ) by {
                    let row = encoded.rows@[i];
                    assert(SpriteTransformEncoder::derived(
                        sources.geometry().spec_views(entities[i] as int),
                        sources.sheets,
                        scale,
                        apply,
                        row,
                    ));
                    assert(done.buffers[1][i] == filled(row[0]));
                    assert(done.buffers[2][i] == filled(row[1]));
                    assert(done.buffers[3][i] == filled(row[2]));
                }
                (frame, None)
            },
            Err(failure) => {
                assert(done == with_tint);
                (frame, Some(failure))
            },
        }
    }
}

/// Encoding the same sources again gives the same frame: the same entities in the same
/// order, the same rows in every buffer and the same failure, provided that the
/// arithmetic returns the same vector for the same arguments.
pub proof fn lemma_frame_is_deterministic<S, M>(
    sources: SpriteSources<'_>,
    scale: &S,
    apply: &M,
    first: FrameView,
    first_failure: Option<SetupFailure>,
    second: FrameView,
    second_failure: Option<SetupFailure>,
) where S: Fn(Vec4, Scalar) -> Vec4, M: Fn([Vec4; 4], Vec4) -> Vec4
    requires
        SpriteTransformEncoder::functional(scale, apply),
        SpritePass::is_frame_of(sources, scale, apply, first, first_failure),
        SpritePass::is_frame_of(sources, scale, apply, second, second_failure),
    ensures
        first.entities == second.entities,
        first.buffers == second.buffers,
        first_failure == second_failure,
{
    let entities = first.entities;
    let components = sources.geometry();
    lemma_join_is_unique(first.entities, second.entities, components);
    match (first_failure, second_failure) {
        (Some(f1), Some(f2)) => {
            SpriteTransformEncoder::lemma_encode_is_deterministic(
                entities,
                components,
                sources.sheets,
                scale,
                apply,
                Err(f1),
                Err(f2),
            );
        },
        (Some(f1), None) => {
            let i = choose|i: int|
                SpriteTransformEncoder::is_failing_visit(entities, components, sources.sheets, f1, i);
            assert(SpriteTransformEncoder::unresolved_at(entities, components, sources.sheets, i));
        },
        (None, Some(f2)) => {
            let i = choose|i: int|
                SpriteTransformEncoder::is_failing_visit(entities, components, sources.sheets, f2, i);
            assert(SpriteTransformEncoder::unresolved_at(entities, components, sources.sheets, i));
        },
        (None, None) => {
            assert forall|i: int| 0 <= i < entities.len() implies first.buffers[1][i] == second.buffers[1][i]
                && first.buffers[2][i] == second.buffers[2][i] && first.buffers[3][i] == second.buffers[3][i] by {
                assert(SpritePass::has_geometry_at(sources, scale, apply, first, i));
                assert(SpritePass::has_geometry_at(sources, scale, apply, second, i));
                let views = components.spec_views(entities[i] as int);
                let a = choose|row: [Slot; 3]|
                    #[trigger] SpriteTransformEncoder::derived(views, sources.sheets, scale, apply, row)
                        && first.buffers[1][i] == filled(row[0]) && first.buffers[2][i] == filled(row[1])
                        && first.buffers[3][i] == filled(row[2]);
                let b = choose|row: [Slot; 3]|
                    #[trigger] SpriteTransformEncoder::derived(views, sources.sheets, scale, apply, row)
                        && second.buffers[1][i] == filled(row[0]) && second.buffers[2][i] == filled(row[1])
                        && second.buffers[3][i] == filled(row[2]);
                SpriteTransformEncoder::lemma_derived_is_unique(views, sources.sheets, scale, apply, a, b);
            }
        },
    }
    assert forall|b: int| 0 <= b < 4 implies #[trigger] first.buffers[b] =~= second.buffers[b] by {
        assert(first.buffers[b].len() == entities.len());
        assert(second.buffers[b].len() == entities.len());
        assert forall|i: int| 0 <= i < entities.len() implies first.buffers[b][i] == second.buffers[b][i] by {
            if b == 0 {
                assert(Some(first.buffers[0][i]) == Some(second.buffers[0][i]));
            }
        }
    }
    assert(first.buffers =~= second.buffers);
}

/// A copy of the list.
fn copy_of(entities: &Vec<usize>) -> (copy: Vec<usize>)
    ensures
        copy@ == entities@,
{
    let mut copy: Vec<usize> = Vec::new();
    let mut i: usize = 0;
    while i < entities.len()
        invariant
            i <= entities@.len(),
            copy@ == entities@.take(i as int),
        decreases entities@.len() - i,
    {
        copy.push(entities[i]);
        assert(entities@.take(i + 1) =~= entities@.take(i as int).push(entities@[i as int]));
        i += 1;
    }
    assert(entities@.take(entities@.len() as int) =~= entities@);
    copy
}

} // verus!
