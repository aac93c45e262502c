//! The `specs` world that holds the components of the entities.
//!
//! The world is held by `ComponentStorages`. Verus sees nothing inside a world: what it
//! holds is spoken of through the names below, and everything that is said of the names
//! is taken from the sources of specs, shred and hibitset, not proved.

use vstd::prelude::*;
use crate::components::{GlobalTransform, Rgba};
use crate::encoding::binding::Binding;
use crate::render::{Material, MeshHandle};
use crate::sprite::SpriteRenderInfo;

verus! {

/// `specs::Entity`: an entity of a world. It is carried through and never looked into.
#[verifier::external_type_specification]
#[verifier::external_body]
pub struct ExEntity(specs::Entity);

/// `specs::World`: the world that holds the entities and the component storages.
#[verifier::external_type_specification]
#[verifier::external_body]
pub struct ExWorld(specs::World);

/// `specs::error::Error`: why a storage refused a component. It is mapped to
/// `AttachmentRefusal` and never looked into.
#[verifier::external_type_specification]
#[verifier::external_body]
pub struct ExError(specs::error::Error);

/// `specs::VecStorage`: the kind of storage that the components are kept in. It is
/// named in their `Component` impls and nowhere else.
#[verifier::external_type_specification]
#[verifier::external_body]
#[verifier::reject_recursive_types(T)]
pub struct ExVecStorage<T>(specs::VecStorage<T>);

impl specs::Component for MeshHandle {
    type Storage = specs::VecStorage<Self>;
}

impl specs::Component for Material {
    type Storage = specs::VecStorage<Self>;
}

impl specs::Component for Rgba {
    type Storage = specs::VecStorage<Self>;
}

impl specs::Component for GlobalTransform {
    type Storage = specs::VecStorage<Self>;
}

impl specs::Component for SpriteRenderInfo {
    type Storage = specs::VecStorage<Self>;
}

/// The index of an entity: what `Entity::id` returns.
pub uninterp spec fn entity_index(entity: specs::Entity) -> u32;

/// Whether the world has its entity allocator and its table of storages, and none of
/// its resources is borrowed. A world is so when `WorldExt::new` has made it, and stays
/// so as long as every guard that is fetched from it is dropped again.
pub uninterp spec fn is_settled(world: specs::World) -> bool;

/// Whether the world has the storages of meshes, materials, tints, transforms and
/// sprites, entered in its table of storages.
pub uninterp spec fn holds_sprite_storages(world: specs::World) -> bool;

/// The entities that the entity allocator of the world reports as alive: those for
/// which its storages take components.
pub uninterp spec fn live_entities(world: specs::World) -> Set<specs::Entity>;

/// What the mesh storage of the world holds: the mesh handle of every live entity that
/// has one. A world without a mesh storage holds none.
pub uninterp spec fn attached_meshes(world: specs::World) -> Map<specs::Entity, MeshHandle>;

/// What the material storage of the world holds: the material of every live entity that
/// has one. A world without a material storage holds none.
pub uninterp spec fn attached_materials(world: specs::World) -> Map<specs::Entity, Material>;

/// What a join of the entities and the tint storage of the world yields, in its order:
/// the index of an entity and its tint. A world without a tint storage yields nothing.
pub uninterp spec fn gathered_tints(world: specs::World) -> Seq<(u32, Rgba)>;

/// What a join of the entities and the transform storage of the world yields, in its
/// order: the index of an entity and its transform. A world without a transform storage
/// yields nothing.
pub uninterp spec fn gathered_transforms(world: specs::World) -> Seq<(u32, GlobalTransform)>;

/// What a join of the entities and the sprite storage of the world yields, in its
/// order: the index of an entity and the sprite that it shows. A world without a sprite
/// storage yields nothing.
pub uninterp spec fn gathered_renders(world: specs::World) -> Seq<(u32, SpriteRenderInfo)>;

/// The number of indices that the bit sets of a world have room for: two to the power
/// of four times the base-two logarithm of the width of a `usize`. The storages take
/// components for an entity whose index is below it.
pub open spec fn spec_index_limit() -> u32 {
    if usize::BITS == 64 {
        16_777_216
    } else {
        1_048_576
    }
}

/// The number of indices that the bit sets of a world have room for.
pub fn index_limit() -> (r: u32)
    ensures
        r == spec_index_limit(),
{
    if usize::BITS == 64 {
        16_777_216
    } else {
        1_048_576
    }
}

/// Calls `WorldExt::new` of specs: a world with an entity allocator and a table of
/// storages, from which nothing was fetched yet. It has no storage of components, so
/// it holds no mesh and no material, and a join yields nothing.
#[verifier::external_body]
fn new_world() -> (world: specs::World)
    ensures
        is_settled(world),
        forall|entity: specs::Entity| !attached_meshes(world).contains_key(entity),
        forall|entity: specs::Entity| !attached_materials(world).contains_key(entity),
        gathered_tints(world).len() == 0,
        gathered_transforms(world).len() == 0,
        gathered_renders(world).len() == 0,
{
    specs::WorldExt::new()
}

/// Calls `WorldExt::register` of specs for each of the five components. It adds the
/// storage of a component where the world has none, and enters it in the table. What
/// the world held, it holds afterwards, and nothing stays borrowed. The call panics
/// on a world without table of storages or with the table borrowed, which is what
/// `requires` rules out.
#[verifier::external_body]
fn adopt(world: specs::World) -> (ready: specs::World)
    requires
        is_settled(world),
    ensures
        is_settled(ready),
        holds_sprite_storages(ready),
        live_entities(ready) == live_entities(world),
        attached_meshes(ready) == attached_meshes(world),
        attached_materials(ready) == attached_materials(world),
        gathered_tints(ready) == gathered_tints(world),
        gathered_transforms(ready) == gathered_transforms(world),
        gathered_renders(ready) == gathered_renders(world),
{
    let mut world = world;
    specs::WorldExt::register::<MeshHandle>(&mut world);
    specs::WorldExt::register::<Material>(&mut world);
    specs::WorldExt::register::<Rgba>(&mut world);
    specs::WorldExt::register::<GlobalTransform>(&mut world);
    specs::WorldExt::register::<SpriteRenderInfo>(&mut world);
    world
}

/// Calls `Entity::id` of specs.
#[verifier::external_body]
fn index_of(entity: specs::Entity) -> (index: u32)
    ensures
        index == entity_index(entity),
{
    entity.id()
}

/// Calls `Storage::insert` of specs on the mesh storage, fetched with
/// `WorldExt::write_storage`.
///
/// For an entity that is alive the call succeeds: the storage then holds the handle for
/// that entity, the handle that it held before comes back, and no other entity is
/// touched. For any other entity the call fails and the storage is unchanged. No other
/// storage and no entity is touched, and the world keeps its storages.
///
/// The call panics in two ways, and `requires` rules both out. The fetch panics on a
/// storage that is not registered or is borrowed; the borrow that the call takes ends
/// with it. The bit sets of the storage and of the entity allocator panic on an index
/// that they have no room for.
#[verifier::external_body]
fn insert_mesh(world: &mut specs::World, entity: specs::Entity, mesh: MeshHandle) -> (r: Result<
    Option<MeshHandle>,
    specs::error::Error,
>)
    requires
        is_settled(*old(world)),
        holds_sprite_storages(*old(world)),
        entity_index(entity) < spec_index_limit(),
    ensures
        is_settled(*final(world)),
        holds_sprite_storages(*final(world)),
        live_entities(*final(world)) == live_entities(*old(world)),
        attached_materials(*final(world)) == attached_materials(*old(world)),
        gathered_tints(*final(world)) == gathered_tints(*old(world)),
        gathered_transforms(*final(world)) == gathered_transforms(*old(world)),
        gathered_renders(*final(world)) == gathered_renders(*old(world)),
        live_entities(*old(world)).contains(entity) ==> r is Ok && r->Ok_0 == (if attached_meshes(
            *old(world),
        ).contains_key(entity) {
            Some(attached_meshes(*old(world))[entity])
        } else {
            None
        }) && attached_meshes(*final(world)) == attached_meshes(*old(world)).insert(entity, mesh),
        !live_entities(*old(world)).contains(entity) ==> r is Err && attached_meshes(*final(world))
            == attached_meshes(*old(world)),
    no_unwind
{
    specs::WorldExt::write_storage::<MeshHandle>(&*world).insert(entity, mesh)
}

/// Calls `Storage::insert` of specs on the material storage, fetched with
/// `WorldExt::write_storage`.
///
/// For an entity that is alive the call succeeds: the storage then holds the material
/// for that entity, the material that it held before comes back, and no other entity is
/// touched. For any other entity the call fails and the storage is unchanged. No other
/// storage and no entity is touched, and the world keeps its storages.
///
/// The call panics in two ways, and `requires` rules both out. The fetch panics on a
/// storage that is not registered or is borrowed; the borrow that the call takes ends
/// with it. The bit sets of the storage and of the entity allocator panic on an index
/// that they have no room for.
#[verifier::external_body]
fn insert_material(world: &mut specs::World, entity: specs::Entity, material: Material) -> (r: Result<
    Option<Material>,
    specs::error::Error,
>)
    requires
        is_settled(*old(world)),
        holds_sprite_storages(*old(world)),
        entity_index(entity) < spec_index_limit(),
    ensures
        is_settled(*final(world)),
        holds_sprite_storages(*final(world)),
        live_entities(*final(world)) == live_entities(*old(world)),
        attached_meshes(*final(world)) == attached_meshes(*old(world)),
        gathered_tints(*final(world)) == gathered_tints(*old(world)),
        gathered_transforms(*final(world)) == gathered_transforms(*old(world)),
        gathered_renders(*final(world)) == gathered_renders(*old(world)),
        live_entities(*old(world)).contains(entity) ==> r is Ok && r->Ok_0 == (if attached_materials(
            *old(world),
        ).contains_key(entity) {
            Some(attached_materials(*old(world))[entity])
        } else {
            None
        }) && attached_materials(*final(world)) == attached_materials(*old(world)).insert(entity, material),
        !live_entities(*old(world)).contains(entity) ==> r is Err && attached_materials(*final(world))
            == attached_materials(*old(world)),
    no_unwind
{
    specs::WorldExt::write_storage::<Material>(&*world).insert(entity, material)
}

/// Joins the entities of the world with its tint storage, with `Join::join` of specs,
/// and hands out the index and the tint of each entity that the join yields. The
/// fetches panic on a storage that is not registered or is borrowed for writing, which
/// is what `requires` rules out.
#[verifier::external_body]
fn gather_tints(world: &specs::World) -> (pairs: Vec<(u32, Rgba)>)
    requires
        is_settled(*world),
        holds_sprite_storages(*world),
    ensures
        pairs@ == gathered_tints(*world),
{
    let entities = specs::WorldExt::entities(world);
    let storage = specs::WorldExt::read_storage::<Rgba>(world);
    specs::Join::join((&entities, &storage)).map(|(entity, tint)| (entity.id(), *tint)).collect()
}

/// Joins the entities of the world with its transform storage, with `Join::join` of
/// specs, and hands out the index and the transform of each entity that the join
/// yields. The fetches panic on a storage that is not registered or is borrowed for
/// writing, which is what `requires` rules out.
#[verifier::external_body]
fn gather_transforms(world: &specs::World) -> (pairs: Vec<(u32, GlobalTransform)>)
    requires
        is_settled(*world),
        holds_sprite_storages(*world),
    ensures
        pairs@ == gathered_transforms(*world),
{
    let entities = specs::WorldExt::entities(world);
    let storage = specs::WorldExt::read_storage::<GlobalTransform>(world);
    specs::Join::join((&entities, &storage)).map(|(entity, transform)| (entity.id(), *transform)).collect()
}

/// Joins the entities of the world with its sprite storage, with `Join::join` of specs,
/// and hands out the index and the sprite of each entity that the join yields. The
/// fetches panic on a storage that is not registered or is borrowed for writing, which
/// is what `requires` rules out.
#[verifier::external_body]
fn gather_renders(world: &specs::World) -> (pairs: Vec<(u32, SpriteRenderInfo)>)
    requires
        is_settled(*world),
        holds_sprite_storages(*world),
    ensures
        pairs@ == gathered_renders(*world),
{
    let entities = specs::WorldExt::entities(world);
    let storage = specs::WorldExt::read_storage::<SpriteRenderInfo>(world);
    specs::Join::join((&entities, &storage)).map(|(entity, render)| (entity.id(), *render)).collect()
}

/// Why the storages refuse a component for an entity.
#[derive(Clone, Copy, Debug, PartialEq, Eq)]
pub enum AttachmentRefusal {
    /// The storages have no room for the index of the entity.
    BeyondStorage,
    /// The entity is not alive.
    NotAlive,
}

/// A `specs` world that has the storages of meshes, materials, tints, transforms and
/// sprites, and from which nothing is borrowed.
pub struct ComponentStorages {
    world: specs::World,
}

impl ComponentStorages {
    #[verifier::type_invariant]
    spec fn inv(self) -> bool {
        is_settled(self.world) && holds_sprite_storages(self.world)
    }

    /// The entities that are alive.
    pub closed spec fn live(&self) -> Set<specs::Entity> {
        live_entities(self.world)
    }

    /// The mesh handle of every live entity that has one.
    pub closed spec fn meshes(&self) -> Map<specs::Entity, MeshHandle> {
        attached_meshes(self.world)
    }

    /// The material of every live entity that has one.
    pub closed spec fn materials(&self) -> Map<specs::Entity, Material> {
        attached_materials(self.world)
    }

    /// The index and the tint of every entity that has one.
    pub closed spec fn tint_pairs(&self) -> Seq<(u32, Rgba)> {
        gathered_tints(self.world)
    }

    /// The index and the transform of every entity that has one.
    pub closed spec fn transform_pairs(&self) -> Seq<(u32, GlobalTransform)> {
        gathered_transforms(self.world)
    }

    /// The index and the sprite of every entity that shows one.
    pub closed spec fn render_pairs(&self) -> Seq<(u32, SpriteRenderInfo)> {
        gathered_renders(self.world)
    }

    /// Whether the storages take components for the entity, and if not, why: they have
    /// no room for its index, or it is not alive.
    pub open spec fn refusal(&self, entity: specs::Entity) -> Option<AttachmentRefusal> {
        if entity_index(entity) >= spec_index_limit() {
            Some(AttachmentRefusal::BeyondStorage)
        } else if !self.live().contains(entity) {
            Some(AttachmentRefusal::NotAlive)
        } else {
            None
        }
    }

    /// Storages in a world of their own, which `WorldExt::new` has just made: they
    /// hold no component yet.
    pub fn fresh() -> (r: Self)
        ensures
            forall|entity: specs::Entity| !r.meshes().contains_key(entity),
            forall|entity: specs::Entity| !r.materials().contains_key(entity),
            r.tint_pairs().len() == 0,
            r.transform_pairs().len() == 0,
            r.render_pairs().len() == 0,
    {
        Self::new(new_world())
    }

    /// Takes a world in, and registers the storages where the world lacks them.
    /// Entities and components are those of the world. The world has to be settled:
    /// made by `WorldExt::new`, with every guard that was fetched from it dropped.
    pub fn new(world: specs::World) -> (r: Self)
        requires
            is_settled(world),
        ensures
            r.live() == live_entities(world),
            r.meshes() == attached_meshes(world),
            r.materials() == attached_materials(world),
            r.tint_pairs() == gathered_tints(world),
            r.transform_pairs() == gathered_transforms(world),
            r.render_pairs() == gathered_renders(world),
    {
        ComponentStorages { world: adopt(world) }
    }

    /// Hands the world back, settled, with its entities and components.
    pub fn into_world(self) -> (world: specs::World)
        ensures
            is_settled(world),
            live_entities(world) == self.live(),
            attached_meshes(world) == self.meshes(),
            attached_materials(world) == self.materials(),
            gathered_tints(world) == self.tint_pairs(),
            gathered_transforms(world) == self.transform_pairs(),
            gathered_renders(world) == self.render_pairs(),
    {
        proof {
            use_type_invariant(&self);
        }
        self.world
    }

    /// Gives the entity the mesh, and hands back the one it had. It is refused, and
    /// changes nothing, where the storages have no room for the index of the entity or
    /// the entity is not alive.
    pub fn insert_mesh(&mut self, entity: specs::Entity, mesh: MeshHandle) -> (r: Result<
        Option<MeshHandle>,
        AttachmentRefusal,
    >)
        ensures
            final(self).live() == old(self).live(),
            final(self).materials() == old(self).materials(),
            final(self).tint_pairs() == old(self).tint_pairs(),
            final(self).transform_pairs() == old(self).transform_pairs(),
            final(self).render_pairs() == old(self).render_pairs(),
            match r {
                Ok(previous) => {
                    &&& old(self).refusal(entity) is None
                    &&& previous == (if old(self).meshes().contains_key(entity) {
                        Some(old(self).meshes()[entity])
                    } else {
                        None
                    })
                    &&& final(self).meshes() == old(self).meshes().insert(entity, mesh)
                },
                Err(refusal) => old(self).refusal(entity) == Some(refusal) && final(self).meshes() == old(
                    self,
                ).meshes(),
            },
    {
        proof {
            use_type_invariant(&*self);
        }
        if index_of(entity) >= index_limit() {
            return Err(AttachmentRefusal::BeyondStorage);
        }
        match insert_mesh(&mut self.world, entity, mesh) {
            Ok(previous) => Ok(previous),
            Err(_) => Err(AttachmentRefusal::NotAlive),
        }
    }

    /// Gives the entity the material, and hands back the one it had. It is refused, and
    /// changes nothing, where the storages have no room for the index of the entity or
    /// the entity is not alive.
    pub fn insert_material(&mut self, entity: specs::Entity, material: Material) -> (r: Result<
        Option<Material>,
        AttachmentRefusal,
    >)
        ensures
            final(self).live() == old(self).live(),
            final(self).meshes() == old(self).meshes(),
            final(self).tint_pairs() == old(self).tint_pairs(),
            final(self).transform_pairs() == old(self).transform_pairs(),
            final(self).render_pairs() == old(self).render_pairs(),
            match r {
                Ok(previous) => {
                    &&& old(self).refusal(entity) is None
                    &&& previous == (if old(self).materials().contains_key(entity) {
                        Some(old(self).materials()[entity])
                    } else {
                        None
                    })
                    &&& final(self).materials() == old(self).materials().insert(entity, material)
                },
                Err(refusal) => old(self).refusal(entity) == Some(refusal) && final(self).materials() == old(
                    self,
                ).materials(),
            },
    {
        proof {
            use_type_invariant(&*self);
        }
        if index_of(entity) >= index_limit() {
            return Err(AttachmentRefusal::BeyondStorage);
        }
        match insert_material(&mut self.world, entity, material) {
            Ok(previous) => Ok(previous),
            Err(_) => Err(AttachmentRefusal::NotAlive),
        }
    }

    /// The tints of the entities, as the binding that the encoders read.
    pub fn tints(&self) -> (r: Binding<Rgba>)
        ensures
            r.presents(self.tint_pairs()),
    {
        proof {
            use_type_invariant(self);
        }
        Binding::from_pairs(&gather_tints(&self.world))
    }

    /// The transforms of the entities, as the binding that the encoders read.
    pub fn transforms(&self) -> (r: Binding<GlobalTransform>)
        ensures
            r.presents(self.transform_pairs()),
    {
        proof {
            use_type_invariant(self);
        }
        Binding::from_pairs(&gather_transforms(&self.world))
    }

    /// The sprites that the entities show, as the binding that the encoders read.
    pub fn renders(&self) -> (r: Binding<SpriteRenderInfo>)
        ensures
            r.presents(self.render_pairs()),
    {
        proof {
            use_type_invariant(self);
        }
        Binding::from_pairs(&gather_renders(&self.world))
    }
}

} // verus!
