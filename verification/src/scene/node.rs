//! The node: a value of one of six kinds.
//!
//! Each kind has an identifier, which is also the first byte of a stored
//! node, so that a reader learns from the stream alone which kind to build.

use crate::error::DecodeError;
use crate::scene::base::{Base, BaseView};
use crate::scene::camera::{Camera, CameraView};
use crate::scene::light::{Light, LightView};
use crate::scene::mesh::{Mesh, MeshView};
use crate::scene::particle_system::{ParticleSystem, ParticleSystemView};
use crate::scene::sprite::{Sprite, SpriteView};
use crate::visitor::{carried, filled, stopped, Decoded, Visit, Visitor};
use vstd::pervasive::unreached;
use vstd::prelude::*;

verus! {

/// The identifier of the kind [`Node::Base`].
pub const KIND_BASE: u8 = 0;

/// The identifier of the kind [`Node::Light`].
pub const KIND_LIGHT: u8 = 1;

/// The identifier of the kind [`Node::Camera`].
pub const KIND_CAMERA: u8 = 2;

/// The identifier of the kind [`Node::Mesh`].
pub const KIND_MESH: u8 = 3;

/// The identifier of the kind [`Node::Sprite`].
pub const KIND_SPRITE: u8 = 4;

/// The identifier of the kind [`Node::ParticleSystem`].
pub const KIND_PARTICLE_SYSTEM: u8 = 5;

/// Whether `id` identifies a kind.
pub open spec fn is_kind(id: u8) -> bool {
    id <= KIND_PARTICLE_SYSTEM
}

/// A node of a scene graph. Its kind is the variant that it is; a node never
/// changes its kind, it is replaced by another.
#[derive(Clone, Debug, PartialEq, Eq)]
pub enum Node {
    /// A node with nothing but the state that all nodes share.
    Base(Base),
    /// A node that lights its surroundings.
    Light(Light),
    /// A node through which the scene is seen.
    Camera(Camera),
    /// A node that shows geometry.
    Mesh(Mesh),
    /// A node that shows a rectangle facing the camera.
    Sprite(Sprite),
    /// A node that emits particles.
    ParticleSystem(ParticleSystem),
}

/// What a [`Node`] holds.
pub enum NodeView {
    Base(BaseView),
    Light(LightView),
    Camera(CameraView),
    Mesh(MeshView),
    Sprite(SpriteView),
    ParticleSystem(ParticleSystemView),
}

impl View for Node {
    type V = NodeView;

    open spec fn view(&self) -> NodeView {
        match *self {
            Node::Base(base) => NodeView::Base(base@),
            Node::Light(light) => NodeView::Light(light@),
            Node::Camera(camera) => NodeView::Camera(camera@),
            Node::Mesh(mesh) => NodeView::Mesh(mesh@),
            Node::Sprite(sprite) => NodeView::Sprite(sprite@),
            Node::ParticleSystem(system) => NodeView::ParticleSystem(system@),
        }
    }
}

impl NodeView {
    /// The identifier of the node's kind.
    pub open spec fn kind(self) -> u8 {
        match self {
            NodeView::Base(_) => KIND_BASE,
            NodeView::Light(_) => KIND_LIGHT,
            NodeView::Camera(_) => KIND_CAMERA,
            NodeView::Mesh(_) => KIND_MESH,
            NodeView::Sprite(_) => KIND_SPRITE,
            NodeView::ParticleSystem(_) => KIND_PARTICLE_SYSTEM,
        }
    }

    /// Whether the two nodes are of the same kind.
    pub open spec fn same_kind(self, other: NodeView) -> bool {
        ||| self is Base && other is Base
        ||| self is Light && other is Light
        ||| self is Camera && other is Camera
        ||| self is Mesh && other is Mesh
        ||| self is Sprite && other is Sprite
        ||| self is ParticleSystem && other is ParticleSystem
    }

    /// The node of the kind that `id` identifies, in its starting state.
    /// Only what it says of an `id` that identifies a kind is of use.
    pub open spec fn default_of(id: u8) -> NodeView {
        if id == KIND_BASE {
            NodeView::Base(BaseView::spec_default())
        } else if id == KIND_LIGHT {
            NodeView::Light(LightView::spec_default())
        } else if id == KIND_CAMERA {
            NodeView::Camera(CameraView::spec_default())
        } else if id == KIND_MESH {
            NodeView::Mesh(MeshView::spec_default())
        } else if id == KIND_SPRITE {
            NodeView::Sprite(SpriteView::spec_default())
        } else {
            NodeView::ParticleSystem(ParticleSystemView::spec_default())
        }
    }

    /// The state that the node shares with the nodes of all kinds.
    pub open spec fn base(self) -> BaseView {
        match self {
            NodeView::Base(base) => base,
            NodeView::Light(light) => light.base,
            NodeView::Camera(camera) => camera.base,
            NodeView::Mesh(mesh) => mesh.base,
            NodeView::Sprite(sprite) => sprite.base,
            NodeView::ParticleSystem(system) => system.base,
        }
    }

    /// The node with `base` as its shared state, and nothing else changed.
    pub open spec fn with_base(self, base: BaseView) -> NodeView {
        match self {
            NodeView::Base(_) => NodeView::Base(base),
            NodeView::Light(light) => NodeView::Light(LightView { base, ..light }),
            NodeView::Camera(camera) => NodeView::Camera(CameraView { base, ..camera }),
            NodeView::Mesh(mesh) => NodeView::Mesh(MeshView { base, ..mesh }),
            NodeView::Sprite(sprite) => NodeView::Sprite(SpriteView { base, ..sprite }),
            NodeView::ParticleSystem(system) => NodeView::ParticleSystem(
                ParticleSystemView { base, ..system },
            ),
        }
    }

    /// The bytes that a write of the payload appends.
    pub open spec fn payload_encoding(self) -> Seq<u8> {
        match self {
            NodeView::Base(base) => Base::encoding(base),
            NodeView::Light(light) => Light::encoding(light),
            NodeView::Camera(camera) => Camera::encoding(camera),
            NodeView::Mesh(mesh) => Mesh::encoding(mesh),
            NodeView::Sprite(sprite) => Sprite::encoding(sprite),
            NodeView::ParticleSystem(system) => ParticleSystem::encoding(system),
        }
    }

    /// What a read of a payload of the node's own kind makes of the node.
    pub open spec fn payload_decoding(self, input: Seq<u8>) -> Decoded<NodeView> {
        match self {
            NodeView::Base(base) => {
                let read = Base::decoding(base, input);
                carried(read, NodeView::Base(read.value))
            },
            NodeView::Light(light) => {
                let read = Light::decoding(light, input);
                carried(read, NodeView::Light(read.value))
            },
            NodeView::Camera(camera) => {
                let read = Camera::decoding(camera, input);
                carried(read, NodeView::Camera(read.value))
            },
            NodeView::Mesh(mesh) => {
                let read = Mesh::decoding(mesh, input);
                carried(read, NodeView::Mesh(read.value))
            },
            NodeView::Sprite(sprite) => {
                let read = Sprite::decoding(sprite, input);
                carried(read, NodeView::Sprite(read.value))
            },
            NodeView::ParticleSystem(system) => {
                let read = ParticleSystem::decoding(system, input);
                carried(read, NodeView::ParticleSystem(read.value))
            },
        }
    }
}

impl Node {
    /// A node of the kind that `id` identifies, in its starting state; no
    /// node when `id` identifies no kind.
    pub fn from_id(id: u8) -> (node: Result<Node, DecodeError>)
        ensures
            match node {
                Ok(node) => is_kind(id) && node@ == NodeView::default_of(id),
                Err(fault) => !is_kind(id) && fault == DecodeError::UnknownKind(id),
            },
    {
        match id {
            KIND_BASE => Ok(Node::Base(Base::new())),
            KIND_LIGHT => Ok(Node::Light(Light::new())),
            KIND_CAMERA => Ok(Node::Camera(Camera::new())),
            KIND_MESH => Ok(Node::Mesh(Mesh::new())),
            KIND_SPRITE => Ok(Node::Sprite(Sprite::new())),
            KIND_PARTICLE_SYSTEM => Ok(Node::ParticleSystem(ParticleSystem::new())),
            _ => Err(DecodeError::UnknownKind(id)),
        }
    }

    /// The identifier of the node's kind.
    pub fn id(&self) -> (id: u8)
        ensures
            id == self@.kind(),
            is_kind(id),
    {
        match self {
            Node::Base(_) => KIND_BASE,
            Node::Light(_) => KIND_LIGHT,
            Node::Camera(_) => KIND_CAMERA,
            Node::Mesh(_) => KIND_MESH,
            Node::Sprite(_) => KIND_SPRITE,
            Node::ParticleSystem(_) => KIND_PARTICLE_SYSTEM,
        }
    }

    /// Whether the node is a mesh.
    pub fn is_mesh(&self) -> (yes: bool)
        ensures
            yes == (self is Mesh),
    {
        match self {
            Node::Mesh(_) => true,
            _ => false,
        }
    }

    /// The node as a mesh. The node must be one: where that is not known,
    /// ask `is_mesh` first or call `try_as_mesh`. Called on a node of another
    /// kind by unverified code, it panics.
    pub fn as_mesh(&self) -> (mesh: &Mesh)
        requires
            self is Mesh,
        ensures
            *mesh == self->Mesh_0,
    {
        match self {
            Node::Mesh(mesh) => mesh,
            _ => unreached(),
        }
    }

    /// The node as a mesh, to be changed in place. The node must be one,
    /// as for `as_mesh`.
    pub fn as_mesh_mut(&mut self) -> (mesh: &mut Mesh)
        requires
            *old(self) is Mesh,
        ensures
            *mesh == (*old(self))->Mesh_0,
            *final(self) == Node::Mesh(*final(mesh)),
    {
        match self {
            Node::Mesh(mesh) => mesh,
            _ => unreached(),
        }
    }

    /// The node as a mesh, if it is one.
    pub fn try_as_mesh(&self) -> (mesh: Option<&Mesh>)
        ensures
            match mesh {
                Some(mesh) => self is Mesh && *mesh == self->Mesh_0,
                None => !(self is Mesh),
            },
    {
        match self {
            Node::Mesh(mesh) => Some(mesh),
            _ => None,
        }
    }

    /// Whether the node is a camera.
    pub fn is_camera(&self) -> (yes: bool)
        ensures
            yes == (self is Camera),
    {
        match self {
            Node::Camera(_) => true,
            _ => false,
        }
    }

    /// The node as a camera. The node must be one: where that is not known,
    /// ask `is_camera` first or call `try_as_camera`. Called on a node of another
    /// kind by unverified code, it panics.
    pub fn as_camera(&self) -> (camera: &Camera)
        requires
            self is Camera,
        ensures
            *camera == self->Camera_0,
    {
        match self {
            Node::Camera(camera) => camera,
            _ => unreached(),
        }
    }

    /// The node as a camera, to be changed in place. The node must be one,
    /// as for `as_camera`.
    pub fn as_camera_mut(&mut self) -> (camera: &mut Camera)
        requires
            *old(self) is Camera,
        ensures
            *camera == (*old(self))->Camera_0,
            *final(self) == Node::Camera(*final(camera)),
    {
        match self {
            Node::Camera(camera) => camera,
            _ => unreached(),
        }
    }

    /// The node as a camera, if it is one.
    pub fn try_as_camera(&self) -> (camera: Option<&Camera>)
        ensures
            match camera {
                Some(camera) => self is Camera && *camera == self->Camera_0,
                None => !(self is Camera),
            },
    {
        match self {
            Node::Camera(camera) => Some(camera),
            _ => None,
        }
    }

    /// Whether the node is a light.
    pub fn is_light(&self) -> (yes: bool)
        ensures
            yes == (self is Light),
    {
        match self {
            Node::Light(_) => true,
            _ => false,
        }
    }

    /// The node as a light. The node must be one: where that is not known,
    /// ask `is_light` first or call `try_as_light`. Called on a node of another
    /// kind by unverified code, it panics.
    pub fn as_light(&self) -> (light: &Light)
        requires
            self is Light,
        ensures
            *light == self->Light_0,
    {
        match self {
            Node::Light(light) => light,
            _ => unreached(),
        }
    }

    /// The node as a light, to be changed in place. The node must be one,
    /// as for `as_light`.
    pub fn as_light_mut(&mut self) -> (light: &mut Light)
        requires
            *old(self) is Light,
        ensures
            *light == (*old(self))->Light_0,
            *final(self) == Node::Light(*final(light)),
    {
        match self {
            Node::Light(light) => light,
            _ => unreached(),
        }
    }

    /// The node as a light, if it is one.
    pub fn try_as_light(&self) -> (light: Option<&Light>)
        ensures
            match light {
                Some(light) => self is Light && *light == self->Light_0,
                None => !(self is Light),
            },
    {
        match self {
            Node::Light(light) => Some(light),
            _ => None,
        }
    }

    /// Whether the node is a particle system.
    pub fn is_particle_system(&self) -> (yes: bool)
        ensures
            yes == (self is ParticleSystem),
    {
        match self {
            Node::ParticleSystem(_) => true,
            _ => false,
        }
    }

    /// The node as a particle system. The node must be one: where that is not known,
    /// ask `is_particle_system` first or call `try_as_particle_system`. Called on a node of another
    /// kind by unverified code, it panics.
    pub fn as_particle_system(&self) -> (system: &ParticleSystem)
        requires
            self is ParticleSystem,
        ensures
            *system == self->ParticleSystem_0,
    {
        match self {
            Node::ParticleSystem(system) => system,
            _ => unreached(),
        }
    }

    /// The node as a particle system, to be changed in place. The node must be one,
    /// as for `as_particle_system`.
    pub fn as_particle_system_mut(&mut self) -> (system: &mut ParticleSystem)
        requires
            *old(self) is ParticleSystem,
        ensures
            *system == (*old(self))->ParticleSystem_0,
            *final(self) == Node::ParticleSystem(*final(system)),
    {
        match self {
            Node::ParticleSystem(system) => system,
            _ => unreached(),
        }
    }

    /// The node as a particle system, if it is one.
    pub fn try_as_particle_system(&self) -> (system: Option<&ParticleSystem>)
        ensures
            match system {
                Some(system) => self is ParticleSystem && *system == self->ParticleSystem_0,
                None => !(self is ParticleSystem),
            },
    {
        match self {
            Node::ParticleSystem(system) => Some(system),
            _ => None,
        }
    }

    /// Whether the node is a sprite.
    pub fn is_sprite(&self) -> (yes: bool)
        ensures
            yes == (self is Sprite),
    {
        match self {
            Node::Sprite(_) => true,
            _ => false,
        }
    }

    /// The node as a sprite. The node must be one: where that is not known,
    /// ask `is_sprite` first or call `try_as_sprite`. Called on a node of another
    /// kind by unverified code, it panics.
    pub fn as_sprite(&self) -> (sprite: &Sprite)
        requires
            self is Sprite,
        ensures
            *sprite == self->Sprite_0,
    {
        match self {
            Node::Sprite(sprite) => sprite,
            _ => unreached(),
        }
    }

    /// The node as a sprite, to be changed in place. The node must be one,
    /// as for `as_sprite`.
    pub fn as_sprite_mut(&mut self) -> (sprite: &mut Sprite)
        requires
            *old(self) is Sprite,
        ensures
            *sprite == (*old(self))->Sprite_0,
            *final(self) == Node::Sprite(*final(sprite)),
    {
        match self {
            Node::Sprite(sprite) => sprite,
            _ => unreached(),
        }
    }

    /// The node as a sprite, if it is one.
    pub fn try_as_sprite(&self) -> (sprite: Option<&Sprite>)
        ensures
            match sprite {
                Some(sprite) => self is Sprite && *sprite == self->Sprite_0,
                None => !(self is Sprite),
            },
    {
        match self {
            Node::Sprite(sprite) => Some(sprite),
            _ => None,
        }
    }
}

impl core::ops::Deref for Node {
    type Target = Base;

    /// The state that the node shares with the nodes of all kinds.
    fn deref(&self) -> (base: &Base)
        ensures
            base@ == self@.base(),
    {
        match self {
            Node::Base(base) => base,
            Node::Light(light) => &light.base,
            Node::Camera(camera) => &camera.base,
            Node::Mesh(mesh) => &mesh.base,
            Node::Sprite(sprite) => &sprite.base,
            Node::ParticleSystem(system) => &system.base,
        }
    }
}

impl core::ops::DerefMut for Node {
    /// The state that the node shares with the nodes of all kinds, to be
    /// changed in place: the kind and the rest of the payload stay.
    fn deref_mut(&mut self) -> (base: &mut Base)
        ensures
            base@ == old(self)@.base(),
            final(self)@ == old(self)@.with_base(final(base)@),
    {
        match self {
            Node::Base(base) => base,
            Node::Light(light) => &mut light.base,
            Node::Camera(camera) => &mut camera.base,
            Node::Mesh(mesh) => &mut mesh.base,
            Node::Sprite(sprite) => &mut sprite.base,
            Node::ParticleSystem(system) => &mut system.base,
        }
    }
}

impl Default for Node {
    /// A node of the kind `Base` in its starting state.
    fn default() -> (node: Node)
        ensures
            node@ == NodeView::Base(BaseView::spec_default()),
    {
        Node::Base(Base::new())
    }
}

impl Visit for Node {
    open spec fn encodable(value: NodeView) -> bool {
        Base::encodable(value.base())
    }

    /// The identifier of the kind, then the payload.
    open spec fn encoding(value: NodeView) -> Seq<u8> {
        u8::encoding(value.kind()) + value.payload_encoding()
    }

    /// The identifier is read first. When it is missing or identifies no
    /// kind the destination stays as it was. Otherwise the destination
    /// becomes a node of that kind in its starting state, and the payload is
    /// read into it.
    open spec fn decoding(dest: NodeView, input: Seq<u8>) -> Decoded<NodeView> {
        let kind = u8::decoding(dest.kind(), input);
        if kind.fault is Some {
            carried(kind, dest)
        } else if !is_kind(kind.value) {
            stopped(dest, kind.rest, DecodeError::UnknownKind(kind.value))
        } else {
            NodeView::default_of(kind.value).payload_decoding(kind.rest)
        }
    }

    /// A read builds its node anew. So what is not stored comes back as in a
    /// node in its starting state, whatever the destination held.
    open spec fn restored(value: NodeView, dest: NodeView) -> NodeView {
        value.with_base(Base::restored(value.base(), BaseView::spec_default()))
    }

    fn visit(&mut self, visitor: &mut Visitor) -> (result: Result<(), DecodeError>) {
        let mut kind_id = self.id();
        kind_id.visit(visitor)?;
        if visitor.is_reading() {
            *self = Node::from_id(kind_id)?;
        }
        match self {
            Node::Base(base) => base.visit(visitor),
            Node::Light(light) => light.visit(visitor),
            Node::Camera(camera) => camera.visit(visitor),
            Node::Mesh(mesh) => mesh.visit(visitor),
            Node::Sprite(sprite) => sprite.visit(visitor),
            Node::ParticleSystem(system) => system.visit(visitor),
        }
    }

    /// A node that is written and then read comes back as it was, but for
    /// what is not stored: first its identifier is read back, then its
    /// payload, into a node of its kind.
    proof fn lemma_reads_back(value: NodeView, dest: NodeView, rest: Seq<u8>) {
        let payload = value.payload_encoding() + rest;
        let input = Node::encoding(value) + rest;
        u8::lemma_reads_back(value.kind(), dest.kind(), payload);
        assert(input =~= u8::encoding(value.kind()) + payload);
        lemma_payload_reads_back(value, rest);
    }
}

/// A payload that was written is read back into a node of its kind in its
/// starting state.
proof fn lemma_payload_reads_back(value: NodeView, rest: Seq<u8>)
    requires
        Node::encodable(value),
    ensures
        NodeView::default_of(value.kind()).payload_decoding(value.payload_encoding() + rest)
            == filled(Node::restored(value, value), rest),
{
    match value {
        NodeView::Base(base) => {
            Base::lemma_reads_back(base, BaseView::spec_default(), rest);
        },
        NodeView::Light(light) => {
            Light::lemma_reads_back(light, LightView::spec_default(), rest);
        },
        NodeView::Camera(camera) => {
            Camera::lemma_reads_back(camera, CameraView::spec_default(), rest);
        },
        NodeView::Mesh(mesh) => {
            Mesh::lemma_reads_back(mesh, MeshView::spec_default(), rest);
        },
        NodeView::Sprite(sprite) => {
            Sprite::lemma_reads_back(sprite, SpriteView::spec_default(), rest);
        },
        NodeView::ParticleSystem(system) => {
            ParticleSystem::lemma_reads_back(system, ParticleSystemView::spec_default(), rest);
        },
    }
}

/// Kinds and identifiers correspond one to one. Every node has an identifier
/// that identifies a kind, and a node built from it has the same identifier;
/// a node built from an identifier of a kind has that identifier; and two
/// nodes have the same identifier exactly when they are of the same kind.
pub proof fn lemma_kinds_and_identifiers(node: NodeView, other: NodeView, id: u8)
    ensures
        is_kind(node.kind()),
        NodeView::default_of(node.kind()).kind() == node.kind(),
        is_kind(id) ==> NodeView::default_of(id).kind() == id,
        node.kind() == other.kind() <==> node.same_kind(other),
{
}

/// A node is of one kind only, the one that its identifier names. So it
/// answers yes to at most one of `is_light`, `is_camera`, `is_mesh`,
/// `is_sprite` and `is_particle_system`, and to none when it is a `Base`.
pub proof fn lemma_one_kind(node: Node)
    ensures
        (node is Base) == (node@.kind() == KIND_BASE),
        (node is Light) == (node@.kind() == KIND_LIGHT),
        (node is Camera) == (node@.kind() == KIND_CAMERA),
        (node is Mesh) == (node@.kind() == KIND_MESH),
        (node is Sprite) == (node@.kind() == KIND_SPRITE),
        (node is ParticleSystem) == (node@.kind() == KIND_PARTICLE_SYSTEM),
        node is Light ==> !(node is Camera || node is Mesh || node is Sprite
            || node is ParticleSystem),
        node is Camera ==> !(node is Light || node is Mesh || node is Sprite
            || node is ParticleSystem),
        node is Mesh ==> !(node is Light || node is Camera || node is Sprite
            || node is ParticleSystem),
        node is Sprite ==> !(node is Light || node is Camera || node is Mesh
            || node is ParticleSystem),
        node is ParticleSystem ==> !(node is Light || node is Camera || node is Mesh
            || node is Sprite),
        node is Base ==> !(node is Light || node is Camera || node is Mesh || node is Sprite
            || node is ParticleSystem),
{
}

/// The shared state is kept in the same way by a node of any kind: what is
/// put there is found there, and the kind and the rest of the payload stay
/// as they were.
pub proof fn lemma_base_of_any_kind(node: NodeView, base: BaseView)
    ensures
        node.with_base(base).base() == base,
        node.with_base(base).kind() == node.kind(),
        node.with_base(node.base()) == node,
        node.with_base(base).with_base(node.base()) == node,
{
}

} // verus!
