//! Attaching a sprite to entities: the mesh and the material that display it.

use vstd::prelude::*;
use crate::assets::AssetStorage;
use crate::scalar::Scalar;
use crate::world::{
    attached_materials, attached_meshes, is_settled, live_entities, AttachmentRefusal, ComponentStorages,
};

verus! {

/// A handle to a texture.
#[derive(Clone, Copy, Debug, PartialEq, Eq)]
pub struct TextureHandle {
    /// The identifier under which the renderer knows the texture.
    pub id: usize,
}

/// A handle to a mesh in the table of mesh assets.
#[derive(Clone, Copy, Debug, PartialEq, Eq)]
pub struct MeshHandle {
    /// The identifier under which the asset table knows the mesh.
    pub id: usize,
}

/// A flat rectangular mesh, centred on the origin: half its width and half its height.
#[derive(Clone, Copy, Debug, PartialEq, Eq)]
pub struct Mesh {
    /// Half the width of the rectangle.
    pub half_width: Scalar,
    /// Half the height of the rectangle.
    pub half_height: Scalar,
}

/// The part of a texture that a material shows: the range of its coordinates on both
/// axes.
#[derive(Clone, Copy, Debug, PartialEq, Eq)]
pub struct TextureOffset {
    /// First and last coordinate on the U axis.
    pub u: (Scalar, Scalar),
    /// First and last coordinate on the V axis.
    pub v: (Scalar, Scalar),
}

/// The textures that give a surface its look, each with the part of it that is shown.
#[derive(Clone, Copy, Debug, PartialEq, Eq)]
pub struct Material {
    /// Diffuse map.
    pub albedo: TextureHandle,
    /// Diffuse texture offset.
    pub albedo_offset: TextureOffset,
    /// Emission map.
    pub emission: TextureHandle,
    /// Emission texture offset.
    pub emission_offset: TextureOffset,
    /// Normal map.
    pub normal: TextureHandle,
    /// Normal texture offset.
    pub normal_offset: TextureOffset,
    /// Metallic map.
    pub metallic: TextureHandle,
    /// Metallic texture offset.
    pub metallic_offset: TextureOffset,
    /// Roughness map.
    pub roughness: TextureHandle,
    /// Roughness texture offset.
    pub roughness_offset: TextureOffset,
    /// Ambient occlusion map.
    pub ambient_occlusion: TextureHandle,
    /// Ambient occlusion texture offset.
    pub ambient_occlusion_offset: TextureOffset,
    /// Caveat map.
    pub caveat: TextureHandle,
    /// Caveat texture offset.
    pub caveat_offset: TextureOffset,
}

impl Material {
    /// The material with another diffuse map, shown in the given part, and everything
    /// else as it is.
    pub open spec fn spec_with_albedo(self, texture: TextureHandle, offset: TextureOffset) -> Material {
        Material { albedo: texture, albedo_offset: offset, ..self }
    }

    /// The material with another diffuse map, shown in the given part, and everything
    /// else as it is.
    pub fn with_albedo(&self, texture: TextureHandle, offset: TextureOffset) -> (r: Material)
        ensures
            r == self.spec_with_albedo(texture, offset),
    {
        Material { albedo: texture, albedo_offset: offset, ..*self }
    }
}

/// The material that every new material starts from. It is handed to the code that
/// needs it, and never changed by it.
#[derive(Clone, Copy, Debug, PartialEq, Eq)]
pub struct MaterialDefaults(pub Material);

/// The measures of the rectangle that displays a sprite: the mesh, and the part of the
/// texture that is drawn on it. They come from the sprite and the size of its texture
/// by arithmetic on scalars, which is the caller's.
#[derive(Clone, Copy, Debug, PartialEq, Eq)]
pub struct SpriteQuad {
    /// The rectangle, half as wide and half as high as the sprite's part of the texture.
    pub mesh: Mesh,
    /// The sprite's part of the texture.
    pub offset: TextureOffset,
}

/// Why a sprite could not be attached.
#[derive(Clone, Copy, Debug, PartialEq, Eq)]
pub struct AttachmentFailure {
    /// The place, in the list that was given, of the first entity that the storages
    /// refuse. For a single entity it is zero.
    pub position: usize,
    /// Why the storages refuse that entity.
    pub reason: AttachmentRefusal,
}

/// The map in which every entity of the list holds `value`, and every other entity
/// holds what it held in `map`.
pub open spec fn attached_to_all<V>(map: Map<specs::Entity, V>, entities: Seq<specs::Entity>, value: V) -> Map<
    specs::Entity,
    V,
> {
    Map::new(
        |e: specs::Entity| map.contains_key(e) || entities.contains(e),
        |e: specs::Entity|
            if entities.contains(e) {
                value
            } else {
                map[e]
            },
    )
}

/// Attaching to one more entity is an insertion.
pub proof fn lemma_attached_step<V>(map: Map<specs::Entity, V>, entities: Seq<specs::Entity>, value: V, n: int)
    requires
        0 <= n < entities.len(),
    ensures
        attached_to_all(map, entities.take(n), value).insert(entities[n], value) == attached_to_all(
            map,
            entities.take(n + 1),
            value,
        ),
{
    let shorter = entities.take(n);
    let longer = entities.take(n + 1);
    assert(longer =~= shorter.push(entities[n]));
    assert forall|e: specs::Entity| longer.contains(e) <==> (shorter.contains(e) || e == entities[n]) by {
        if shorter.contains(e) {
            let i = choose|i: int| 0 <= i < shorter.len() && shorter[i] == e;
            assert(longer[i] == e);
        }
        if e == entities[n] {
            assert(longer[n] == e);
        }
    }
    assert(attached_to_all(map, shorter, value).insert(entities[n], value) =~= attached_to_all(map, longer, value));
}

/// After a value was attached to all entities of a list, every one of them holds it,
/// and every entity outside the list holds what it held before.
pub proof fn lemma_attached_to_all<V>(map: Map<specs::Entity, V>, entities: Seq<specs::Entity>, value: V)
    ensures
        forall|i: int|
            0 <= i < entities.len() ==> attached_to_all(map, entities, value).contains_key(#[trigger] entities[i])
                && attached_to_all(map, entities, value)[entities[i]] == value,
        forall|e: specs::Entity|
            !entities.contains(e) ==> (attached_to_all(map, entities, value).contains_key(e) <==> map.contains_key(e))
                && (map.contains_key(e) ==> #[trigger] attached_to_all(map, entities, value)[e] == map[e]),
        entities.len() == 0 ==> attached_to_all(map, entities, value) == map,
{
    if entities.len() == 0 {
        assert(attached_to_all(map, entities, value) =~= map);
    }
}

/// What is needed to give entities the mesh and the material of a sprite.
pub struct SpriteRenderData {
    /// The storages containing the meshes and the materials.
    pub storages: ComponentStorages,
    /// Material defaults.
    pub material_defaults: MaterialDefaults,
    /// Mesh asset storage.
    pub asset_storage: AssetStorage<Mesh>,
}

impl SpriteRenderData {
    /// The handle that the next mesh will get.
    pub open spec fn next_mesh(&self) -> MeshHandle {
        MeshHandle { id: self.asset_storage.slots@.len() as usize }
    }

    /// The material of a sprite: the defaults, with the texture of the sprite as the
    /// diffuse map, shown in the sprite's part.
    pub open spec fn sprite_material(&self, quad: SpriteQuad, texture: TextureHandle) -> Material {
        self.material_defaults.0.spec_with_albedo(texture, quad.offset)
    }

    /// Whether `after` is this data with the mesh of the quad added to the assets, and
    /// with the same defaults, entities, tints, transforms and sprites.
    pub open spec fn with_mesh(&self, after: &Self, quad: SpriteQuad) -> bool {
        &&& after.asset_storage.slots@ == self.asset_storage.slots@.push(Some(quad.mesh))
        &&& after.material_defaults == self.material_defaults
        &&& after.storages.live() == self.storages.live()
        &&& after.storages.tint_pairs() == self.storages.tint_pairs()
        &&& after.storages.transform_pairs() == self.storages.transform_pairs()
        &&& after.storages.render_pairs() == self.storages.render_pairs()
    }

    /// Whether `after` is this data with mesh and material attached to the first `n`
    /// entities of the list.
    pub open spec fn attached(
        &self,
        after: &Self,
        entities: Seq<specs::Entity>,
        n: int,
        mesh: MeshHandle,
        material: Material,
    ) -> bool {
        &&& after.storages.meshes() == attached_to_all(self.storages.meshes(), entities.take(n), mesh)
        &&& after.storages.materials() == attached_to_all(
            self.storages.materials(),
            entities.take(n),
            material,
        )
    }

    /// Takes a world in, with the defaults and the mesh assets to work with. The world
    /// has to be settled: made by `WorldExt::new`, with every guard that was fetched
    /// from it dropped.
    pub fn new(world: specs::World, material_defaults: MaterialDefaults, asset_storage: AssetStorage<Mesh>) -> (r:
        Self)
        requires
            is_settled(world),
        ensures
            r.material_defaults == material_defaults,
            r.asset_storage == asset_storage,
            r.storages.live() == live_entities(world),
            r.storages.meshes() == attached_meshes(world),
            r.storages.materials() == attached_materials(world),
    {
        SpriteRenderData { storages: ComponentStorages::new(world), material_defaults, asset_storage }
    }

    /// Starts with a world of its own, which `WorldExt::new` has just made, and with
    /// the defaults and the mesh assets to work with.
    pub fn fresh(material_defaults: MaterialDefaults, asset_storage: AssetStorage<Mesh>) -> (r: Self)
        ensures
            r.material_defaults == material_defaults,
            r.asset_storage == asset_storage,
            forall|entity: specs::Entity| !r.storages.meshes().contains_key(entity),
            forall|entity: specs::Entity| !r.storages.materials().contains_key(entity),
    {
        Self::new(ComponentStorages::fresh().into_world(), material_defaults, asset_storage)
    }

    /// Hands the world back, settled, with the mesh assets.
    pub fn into_parts(self) -> (r: (specs::World, AssetStorage<Mesh>))
        ensures
            r.1 == self.asset_storage,
            is_settled(r.0),
            live_entities(r.0) == self.storages.live(),
            attached_meshes(r.0) == self.storages.meshes(),
            attached_materials(r.0) == self.storages.materials(),
    {
        (self.storages.into_world(), self.asset_storage)
    }

    /// Creates a mesh handle and a material from the measures of a sprite and its
    /// texture. Useful if you plan on re-using the same sprite a lot and don't want to
    /// load the assets each time.
    pub fn build_mesh_and_material(&mut self, quad: &SpriteQuad, texture: TextureHandle) -> (r: (MeshHandle, Material))
        ensures
            r.0 == old(self).next_mesh(),
            r.1 == old(self).sprite_material(*quad, texture),
            old(self).with_mesh(final(self), *quad),
            final(self).storages == old(self).storages,
            final(self).asset_storage.resolve(r.0.id as int) == Some(quad.mesh),
    {
        let id: usize = self.asset_storage.load(quad.mesh);
        let material: Material = self.material_defaults.0.with_albedo(texture, quad.offset);
        (MeshHandle { id }, material)
    }

    /// Adds a mesh and a material to an entity corresponding to the sprite and texture
    /// given. Note that if you need to insert the same sprite and texture, using
    /// `add_multiple` allows for better performances.
    ///
    /// The attachment fails where the storages refuse the entity, because they have no
    /// room for its index or because it is not alive; no component is then written.
    pub fn add(&mut self, entity: specs::Entity, quad: &SpriteQuad, texture: TextureHandle) -> (r: Result<
        (),
        AttachmentFailure,
    >)
        ensures
            old(self).with_mesh(final(self), *quad),
            match r {
                Ok(()) => {
                    &&& old(self).storages.refusal(entity) is None
                    &&& final(self).storages.meshes() == old(self).storages.meshes().insert(
                        entity,
                        old(self).next_mesh(),
                    )
                    &&& final(self).storages.materials() == old(self).storages.materials().insert(
                        entity,
                        old(self).sprite_material(*quad, texture),
                    )
                },
                Err(failure) => {
                    &&& old(self).storages.refusal(entity) == Some(failure.reason)
                    &&& failure.position == 0
                    &&& final(self).storages.meshes() == old(self).storages.meshes()
                    &&& final(self).storages.materials() == old(self).storages.materials()
                },
            },
    {
        let (mesh, material) = self.build_mesh_and_material(quad, texture);
        match self.storages.insert_mesh(entity, mesh) {
            Ok(_) => {},
            Err(reason) => {
                return Err(AttachmentFailure { position: 0, reason });
            },
        }
        match self.storages.insert_material(entity, material) {
            Ok(_) => {},
            Err(reason) => {
                return Err(AttachmentFailure { position: 0, reason });
            },
        }
        Ok(())
    }

    /// Adds the same mesh and material to multiple entities corresponding to the sprite
    /// and texture given.
    ///
    /// For an empty list nothing is built and nothing is written. Else the mesh is built
    /// once, and the entities get it and the material in the order of the list, up to
    /// the first one that the storages refuse, because they have no room for its index
    /// or because it is not alive: there the attachment fails, and the entities before
    /// it keep what they got.
    pub fn add_multiple(&mut self, entities: Vec<specs::Entity>, quad: &SpriteQuad, texture: TextureHandle) -> (r:
        Result<(), AttachmentFailure>)
        ensures
            entities@.len() == 0 ==> r is Ok && *final(self) == *old(self),
            entities@.len() > 0 ==> old(self).with_mesh(final(self), *quad),
            match r {
                Ok(()) => {
                    &&& forall|i: int|
                        0 <= i < entities@.len() ==> old(self).storages.refusal(#[trigger] entities@[i]) is None
                    &&& old(self).attached(
                        final(self),
                        entities@,
                        entities@.len() as int,
                        old(self).next_mesh(),
                        old(self).sprite_material(*quad, texture),
                    )
                },
                Err(failure) => {
                    &&& failure.position < entities@.len()
                    &&& old(self).storages.refusal(entities@[failure.position as int]) == Some(failure.reason)
                    &&& forall|i: int|
                        0 <= i < failure.position ==> old(self).storages.refusal(#[trigger] entities@[i]) is None
                    &&& old(self).attached(
                        final(self),
                        entities@,
                        failure.position as int,
                        old(self).next_mesh(),
                        old(self).sprite_material(*quad, texture),
                    )
                },
            },
    {
        let len: usize = entities.len();
        if len != 0 {
            let (mesh, material) = self.build_mesh_and_material(quad, texture);
            proof {
                lemma_attached_to_all(old(self).storages.meshes(), entities@.take(0), mesh);
                lemma_attached_to_all(old(self).storages.materials(), entities@.take(0), material);
            }
            let mut i: usize = 0;
            while i < len
                invariant
                    i <= len,
                    len == entities@.len(),
                    mesh == old(self).next_mesh(),
                    material == old(self).sprite_material(*quad, texture),
                    old(self).with_mesh(self, *quad),
                    old(self).attached(self, entities@, i as int, mesh, material),
                    forall|j: int| 0 <= j < i ==> old(self).storages.refusal(#[trigger] entities@[j]) is None,
                decreases len - i,
            {
                let entity: specs::Entity = entities[i];
                proof {
                    lemma_attached_step(old(self).storages.meshes(), entities@, mesh, i as int);
                    lemma_attached_step(old(self).storages.materials(), entities@, material, i as int);
                }
                match self.storages.insert_mesh(entity, mesh) {
                    Ok(_) => {},
                    Err(reason) => {
                        return Err(AttachmentFailure { position: i, reason });
                    },
                }
                match self.storages.insert_material(entity, material) {
                    Ok(_) => {},
                    Err(reason) => {
                        return Err(AttachmentFailure { position: i, reason });
                    },
                }
                i += 1;
            }
        } else {
            proof {
                lemma_attached_to_all(old(self).storages.meshes(), entities@.take(0), old(self).next_mesh());
                lemma_attached_to_all(
                    old(self).storages.materials(),
                    entities@.take(0),
                    old(self).sprite_material(*quad, texture),
                );
            }
        }
        Ok(())
    }
}

/// After the mesh and the material of a sprite were attached to all entities of a list,
/// every one of them holds that mesh handle and an equal material, and every entity
/// outside the list holds what it held before. For an empty list nothing has changed.
pub proof fn lemma_batch_attachment(
    before: SpriteRenderData,
    after: SpriteRenderData,
    entities: Seq<specs::Entity>,
    mesh: MeshHandle,
    material: Material,
)
    requires
        before.attached(&after, entities, entities.len() as int, mesh, material),
    ensures
        forall|i: int|
            0 <= i < entities.len() ==> {
                &&& after.storages.meshes().contains_key(#[trigger] entities[i])
                &&& after.storages.meshes()[entities[i]] == mesh
                &&& after.storages.materials().contains_key(entities[i])
                &&& after.storages.materials()[entities[i]] == material
            },
        forall|e: specs::Entity|
            !entities.contains(e) && before.storages.meshes().contains_key(e) ==> #[trigger] after.storages.meshes()[e] == before.storages.meshes()[e],
        forall|e: specs::Entity|
            !entities.contains(e) && before.storages.materials().contains_key(e)
                ==> #[trigger] after.storages.materials()[e] == before.storages.materials()[e],
        entities.len() == 0 ==> after.storages.meshes() == before.storages.meshes()
            && after.storages.materials() == before.storages.materials(),
{
    assert(entities.take(entities.len() as int) =~= entities);
    lemma_attached_to_all(before.storages.meshes(), entities, mesh);
    lemma_attached_to_all(before.storages.materials(), entities, material);
}

/// An easy way to attach and display a sprite when building an entity.
pub trait WithSpriteRender: Sized {
    /// The entity that is being built.
    spec fn spec_entity(&self) -> specs::Entity;

    /// Adds a mesh and a material to the entity being built corresponding to the sprite
    /// and texture given, and hands the entity on. It fails as `SpriteRenderData::add`
    /// does.
    fn with_sprite(self, data: &mut SpriteRenderData, quad: &SpriteQuad, texture: TextureHandle) -> (r: Result<
        Self,
        AttachmentFailure,
    >)
        ensures
            old(data).with_mesh(final(data), *quad),
            match r {
                Ok(built) => {
                    &&& built.spec_entity() == self.spec_entity()
                    &&& old(data).storages.refusal(self.spec_entity()) is None
                    &&& final(data).storages.meshes() == old(data).storages.meshes().insert(
                        self.spec_entity(),
                        old(data).next_mesh(),
                    )
                    &&& final(data).storages.materials() == old(data).storages.materials().insert(
                        self.spec_entity(),
                        old(data).sprite_material(*quad, texture),
                    )
                },
                Err(failure) => {
                    &&& old(data).storages.refusal(self.spec_entity()) == Some(failure.reason)
                    &&& failure.position == 0
                    &&& final(data).storages.meshes() == old(data).storages.meshes()
                    &&& final(data).storages.materials() == old(data).storages.materials()
                },
            },
    ;
}

impl WithSpriteRender for specs::Entity {
    open spec fn spec_entity(&self) -> specs::Entity {
        *self
    }

    fn with_sprite(self, data: &mut SpriteRenderData, quad: &SpriteQuad, texture: TextureHandle) -> (r: Result<
        Self,
        AttachmentFailure,
    >) {
        match data.add(self, quad, texture) {
            Ok(()) => Ok(self),
            Err(failure) => Err(failure),
        }
    }
}

} // verus!
