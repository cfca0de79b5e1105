//! Component kinds and their per-kind data.
//!
//! The entity-component-system stores components in per-kind lists. The
//! kinds form a closed set described by [`ComponentKind`]; a stored
//! component is a [`ComponentData`], the tagged union of the kinds' data.
//! Resource objects (meshes, shaders, textures) are referred to by handles:
//! indices into the asset registry.

use vstd::prelude::*;
use crate::Transform;
use crate::ecs::Id;
use crate::scriptable::Scriptable;

verus! {

/// Index of a mesh in the asset registry.
pub type MeshHandle = usize;

/// Index of a texture in the asset registry.
pub type TextureHandle = usize;

/// Index of a shader in the asset registry.
pub type ShaderHandle = usize;

/// Surface material description. Not yet filled in; accepted by
/// [`MeshComponent::add_mstm`] for forward compatibility.
pub struct Material;

/// Descriptor of a component kind: the tag by which the
/// entity-component-system keys its per-kind storage and dispatches
/// per-kind updates.
#[derive(Clone, Copy, PartialEq, Eq, Structural, Debug)]
pub enum ComponentKind {
    Mesh,
    Script,
}

/// One draw call: the resources and placement of a single drawn mesh.
#[derive(Clone, Copy, PartialEq, Eq, Structural, Debug)]
pub struct DrawCall {
    pub mesh: MeshHandle,
    pub texture: TextureHandle,
    pub shader: ShaderHandle,
    pub transform: Transform,
}

/// The capability set of a component: it is created for an owning entity
/// (handed over as its arena index) and updated once per tick.
///
/// `ticks` is the component's ghost count of completed updates; `create`
/// starts it at zero and every `update` advances it by exactly one.
pub trait Component: Sized {
    spec fn ticks(&self) -> nat;

    fn create(entity: Id) -> (c: Self)
        ensures
            c.ticks() == 0,
    ;

    fn update(&mut self)
        ensures
            final(self).ticks() == old(self).ticks() + 1,
    ;
}

/// A mesh-rendering component: parallel lists of meshes, textures, shaders
/// and transforms. Updating it queues one draw call per position that all
/// four lists cover.
pub struct MeshComponent {
    pub meshes: Vec<MeshHandle>,
    pub textures: Vec<TextureHandle>,
    pub shaders: Vec<ShaderHandle>,
    pub transforms: Vec<Transform>,
    /// Draw calls queued by the latest update, for the graphics layer to
    /// replay.
    pub pending: Vec<DrawCall>,
    /// Number of completed updates.
    pub ticks: Ghost<nat>,
}

/// Number of draw calls a mesh component yields: the length of the
/// shortest of its four parallel lists.
pub open spec fn draw_count(m: MeshComponent) -> nat {
    let a = m.meshes@.len();
    let b = m.textures@.len();
    let c = m.shaders@.len();
    let d = m.transforms@.len();
    min4(a, b, c, d)
}

/// The least of four lengths.
pub open spec fn min4(a: nat, b: nat, c: nat, d: nat) -> nat {
    let ab = if a <= b { a } else { b };
    let abc = if ab <= c { ab } else { c };
    if abc <= d { abc } else { d }
}

/// The draw calls a mesh component yields: the four parallel lists zipped
/// up to the shortest.
pub open spec fn draw_calls(m: MeshComponent) -> Seq<DrawCall> {
    Seq::new(draw_count(m), |i: int| DrawCall {
        mesh: m.meshes@[i],
        texture: m.textures@[i],
        shader: m.shaders@[i],
        transform: m.transforms@[i],
    })
}

/// How setting the translation changes a mesh component: every
/// transform's translation becomes `v`, everything else is kept.
pub open spec fn translated(pre: MeshComponent, post: MeshComponent, v: crate::Vec3Bits) -> bool {
    &&& post.transforms@.len() == pre.transforms@.len()
    &&& (forall|j: int| 0 <= j < pre.transforms@.len() ==> post.transforms@[j] == (Transform {
        translation: v,
        ..pre.transforms@[j]
    }))
    &&& post.meshes@ == pre.meshes@
    &&& post.textures@ == pre.textures@
    &&& post.shaders@ == pre.shaders@
    &&& post.pending@ == pre.pending@
    &&& post.ticks@ == pre.ticks@
}

/// How setting the scale changes a mesh component: every transform's
/// scale becomes `v`, everything else is kept.
pub open spec fn scaled(pre: MeshComponent, post: MeshComponent, v: crate::Vec3Bits) -> bool {
    &&& post.transforms@.len() == pre.transforms@.len()
    &&& (forall|j: int| 0 <= j < pre.transforms@.len() ==> post.transforms@[j] == (Transform {
        scale: v,
        ..pre.transforms@[j]
    }))
    &&& post.meshes@ == pre.meshes@
    &&& post.textures@ == pre.textures@
    &&& post.shaders@ == pre.shaders@
    &&& post.pending@ == pre.pending@
    &&& post.ticks@ == pre.ticks@
}

/// How setting the rotation changes a mesh component: every transform's
/// rotation becomes `q`, everything else is kept.
pub open spec fn rotated(pre: MeshComponent, post: MeshComponent, q: crate::QuatBits) -> bool {
    &&& post.transforms@.len() == pre.transforms@.len()
    &&& (forall|j: int| 0 <= j < pre.transforms@.len() ==> post.transforms@[j] == (Transform {
        rotation: q,
        ..pre.transforms@[j]
    }))
    &&& post.meshes@ == pre.meshes@
    &&& post.textures@ == pre.textures@
    &&& post.shaders@ == pre.shaders@
    &&& post.pending@ == pre.pending@
    &&& post.ticks@ == pre.ticks@
}

/// How one update changes a mesh component: the four lists are kept, the
/// pending draw calls are recomputed from them, and the tick count
/// advances by one.
pub open spec fn mesh_updated(pre: MeshComponent, post: MeshComponent) -> bool {
    &&& post.meshes@ == pre.meshes@
    &&& post.textures@ == pre.textures@
    &&& post.shaders@ == pre.shaders@
    &&& post.transforms@ == pre.transforms@
    &&& post.pending@ == draw_calls(pre)
    &&& post.ticks@ == pre.ticks@ + 1
}

impl MeshComponent {
    /// Point every position's shader at `new_shader`, keeping everything
    /// else.
    pub fn set_shader(&mut self, new_shader: ShaderHandle)
        ensures
            final(self).shaders@ == Seq::new(old(self).shaders@.len(), |i: int| new_shader),
            final(self).meshes@ == old(self).meshes@,
            final(self).textures@ == old(self).textures@,
            final(self).transforms@ == old(self).transforms@,
            final(self).pending@ == old(self).pending@,
            final(self).ticks@ == old(self).ticks@,
    {
        let n = self.shaders.len();
        let mut i: usize = 0;
        while i < n
            invariant
                i <= n,
                self.shaders@.len() == n,
                forall|j: int| 0 <= j < i ==> self.shaders@[j] == new_shader,
                forall|j: int| i <= j < n ==> self.shaders@[j] == old(self).shaders@[j],
                self.meshes@ == old(self).meshes@,
                self.textures@ == old(self).textures@,
                self.transforms@ == old(self).transforms@,
                self.pending@ == old(self).pending@,
                self.ticks@ == old(self).ticks@,
            decreases n - i,
        {
            self.shaders[i] = new_shader;
            i = i + 1;
        }
        proof {
            assert(final(self).shaders@ =~= Seq::new(old(self).shaders@.len(), |i: int| new_shader));
        }
    }

    /// Move every position to the given translation, keeping rotations and
    /// scales.
    pub fn set_translate(&mut self, fx: u32, fy: u32, fz: u32)
        ensures
            final(self).transforms@.len() == old(self).transforms@.len(),
            forall|j: int| 0 <= j < old(self).transforms@.len() ==> final(self).transforms@[j]
                == (Transform {
                    translation: crate::Vec3Bits { x: fx, y: fy, z: fz },
                    ..old(self).transforms@[j]
                }),
            final(self).meshes@ == old(self).meshes@,
            final(self).textures@ == old(self).textures@,
            final(self).shaders@ == old(self).shaders@,
            final(self).pending@ == old(self).pending@,
            final(self).ticks@ == old(self).ticks@,
    {
        let n = self.transforms.len();
        let mut i: usize = 0;
        while i < n
            invariant
                i <= n,
                self.transforms@.len() == n,
                forall|j: int| 0 <= j < i ==> self.transforms@[j]
                    == (Transform {
                        translation: crate::Vec3Bits { x: fx, y: fy, z: fz },
                        ..old(self).transforms@[j]
                    }),
                forall|j: int| i <= j < n ==> self.transforms@[j] == old(self).transforms@[j],
                self.meshes@ == old(self).meshes@,
                self.textures@ == old(self).textures@,
                self.shaders@ == old(self).shaders@,
                self.pending@ == old(self).pending@,
                self.ticks@ == old(self).ticks@,
            decreases n - i,
        {
            let t = self.transforms[i];
            self.transforms[i] = Transform {
                translation: crate::Vec3Bits { x: fx, y: fy, z: fz },
                ..t
            };
            i = i + 1;
        }
    }

    /// Resize every position to the given scale, keeping translations and
    /// rotations.
    pub fn set_scale(&mut self, fx: u32, fy: u32, fz: u32)
        ensures
            final(self).transforms@.len() == old(self).transforms@.len(),
            forall|j: int| 0 <= j < old(self).transforms@.len() ==> final(self).transforms@[j]
                == (Transform {
                    scale: crate::Vec3Bits { x: fx, y: fy, z: fz },
                    ..old(self).transforms@[j]
                }),
            final(self).meshes@ == old(self).meshes@,
            final(self).textures@ == old(self).textures@,
            final(self).shaders@ == old(self).shaders@,
            final(self).pending@ == old(self).pending@,
            final(self).ticks@ == old(self).ticks@,
    {
        let n = self.transforms.len();
        let mut i: usize = 0;
        while i < n
            invariant
                i <= n,
                self.transforms@.len() == n,
                forall|j: int| 0 <= j < i ==> self.transforms@[j]
                    == (Transform {
                        scale: crate::Vec3Bits { x: fx, y: fy, z: fz },
                        ..old(self).transforms@[j]
                    }),
                forall|j: int| i <= j < n ==> self.transforms@[j] == old(self).transforms@[j],
                self.meshes@ == old(self).meshes@,
                self.textures@ == old(self).textures@,
                self.shaders@ == old(self).shaders@,
                self.pending@ == old(self).pending@,
                self.ticks@ == old(self).ticks@,
            decreases n - i,
        {
            let t = self.transforms[i];
            self.transforms[i] = Transform {
                scale: crate::Vec3Bits { x: fx, y: fy, z: fz },
                ..t
            };
            i = i + 1;
        }
    }

    /// Turn every position to the given rotation, keeping translations and
    /// scales. The quaternion is computed by the graphics layer (for
    /// instance from an axis and an angle) and handed over as bit words.
    pub fn set_rotation(&mut self, rotation: crate::QuatBits)
        ensures
            final(self).transforms@.len() == old(self).transforms@.len(),
            forall|j: int| 0 <= j < old(self).transforms@.len() ==> final(self).transforms@[j]
                == (Transform { rotation, ..old(self).transforms@[j] }),
            final(self).meshes@ == old(self).meshes@,
            final(self).textures@ == old(self).textures@,
            final(self).shaders@ == old(self).shaders@,
            final(self).pending@ == old(self).pending@,
            final(self).ticks@ == old(self).ticks@,
    {
        let n = self.transforms.len();
        let mut i: usize = 0;
        while i < n
            invariant
                i <= n,
                self.transforms@.len() == n,
                forall|j: int| 0 <= j < i ==> self.transforms@[j]
                    == (Transform { rotation, ..old(self).transforms@[j] }),
                forall|j: int| i <= j < n ==> self.transforms@[j] == old(self).transforms@[j],
                self.meshes@ == old(self).meshes@,
                self.textures@ == old(self).textures@,
                self.shaders@ == old(self).shaders@,
                self.pending@ == old(self).pending@,
                self.ticks@ == old(self).ticks@,
            decreases n - i,
        {
            let t = self.transforms[i];
            self.transforms[i] = Transform { rotation, ..t };
            i = i + 1;
        }
    }

    /// Append a mesh, its shader, optionally a texture, optionally a
    /// material, and a fresh identity transform. The material list is not
    /// kept yet, so the material is accepted and dropped.
    pub fn add_mstm(
        &mut self,
        mesh: MeshHandle,
        shader: ShaderHandle,
        texture: Option<TextureHandle>,
        _material: Option<Material>,
    )
        ensures
            final(self).meshes@ == old(self).meshes@.push(mesh),
            final(self).shaders@ == old(self).shaders@.push(shader),
            final(self).textures@ == match texture {
                Some(t) => old(self).textures@.push(t),
                None => old(self).textures@,
            },
            final(self).transforms@.len() == old(self).transforms@.len() + 1,
            forall|j: int| 0 <= j < old(self).transforms@.len() ==> final(self).transforms@[j]
                == old(self).transforms@[j],
            final(self).transforms@.last().translation == crate::vec3_zero(),
            final(self).transforms@.last().rotation == crate::quat_identity(),
            final(self).transforms@.last().scale == crate::vec3_one(),
            final(self).pending@ == old(self).pending@,
            final(self).ticks@ == old(self).ticks@,
    {
        self.meshes.push(mesh);
        self.shaders.push(shader);
        match texture {
            Some(t) => {
                self.textures.push(t);
            },
            None => {},
        }
        self.transforms.push(Transform::new());
    }

    /// The texture handles, in insertion order.
    pub fn textures(&self) -> (r: &Vec<TextureHandle>)
        ensures
            r@ == self.textures@,
    {
        &self.textures
    }

    /// The draw calls queued by the latest update.
    pub fn pending(&self) -> (r: &Vec<DrawCall>)
        ensures
            r@ == self.pending@,
    {
        &self.pending
    }

    /// The draw calls the component yields right now: its four parallel
    /// lists zipped up to the shortest.
    pub fn draw_list(&self) -> (calls: Vec<DrawCall>)
        ensures
            calls@ == draw_calls(*self),
    {
        let mut n = self.meshes.len();
        if self.textures.len() < n {
            n = self.textures.len();
        }
        if self.shaders.len() < n {
            n = self.shaders.len();
        }
        if self.transforms.len() < n {
            n = self.transforms.len();
        }
        let mut calls: Vec<DrawCall> = Vec::new();
        let mut i: usize = 0;
        while i < n
            invariant
                i <= n,
                n == draw_count(*self),
                calls@ == draw_calls(*self).take(i as int),
            decreases n - i,
        {
            calls.push(DrawCall {
                mesh: self.meshes[i],
                texture: self.textures[i],
                shader: self.shaders[i],
                transform: self.transforms[i],
            });
            proof {
                assert(calls@ =~= draw_calls(*self).take(i + 1));
            }
            i = i + 1;
        }
        proof {
            assert(calls@ =~= draw_calls(*self));
        }
        calls
    }
}

impl Component for MeshComponent {
    open spec fn ticks(&self) -> nat {
        self.ticks@
    }

    fn create(_entity: Id) -> (c: Self)
        ensures
            c.meshes@.len() == 0,
            c.textures@.len() == 0,
            c.shaders@.len() == 0,
            c.transforms@.len() == 0,
            c.pending@.len() == 0,
    {
        MeshComponent {
            meshes: Vec::new(),
            textures: Vec::new(),
            shaders: Vec::new(),
            transforms: Vec::new(),
            pending: Vec::new(),
            ticks: Ghost(0nat),
        }
    }

    fn update(&mut self)
        ensures
            mesh_updated(*old(self), *final(self)),
    {
        let pending = self.draw_list();
        self.pending = pending;
        self.ticks = Ghost(self.ticks@ + 1);
    }
}

/// A stored component: the tagged union of the component kinds' data.
pub enum ComponentData<S: Scriptable> {
    Mesh(MeshComponent),
    Script(ScriptComponent<S>),
}

impl<S: Scriptable> ComponentData<S> {
    /// The kind this component belongs to.
    pub open spec fn kind(&self) -> ComponentKind {
        match self {
            ComponentData::Mesh(_) => ComponentKind::Mesh,
            ComponentData::Script(_) => ComponentKind::Script,
        }
    }

    /// Number of completed updates.
    pub open spec fn ticks(&self) -> nat {
        match self {
            ComponentData::Mesh(m) => m.ticks(),
            ComponentData::Script(s) => s.ticks(),
        }
    }

    /// Build the data of the given kind for the given owning entity,
    /// through the kind's [`Component::create`] hook.
    pub fn create(kind: ComponentKind, entity: Id) -> (c: Self)
        ensures
            created_component(c, kind, entity),
    {
        match kind {
            ComponentKind::Mesh => ComponentData::Mesh(MeshComponent::create(entity)),
            ComponentKind::Script => ComponentData::Script(ScriptComponent::<S>::create(entity)),
        }
    }

    /// Run the kind's [`Component::update`] hook once.
    pub fn update(&mut self)
        ensures
            updated_once(*old(self), *final(self)),
    {
        match self {
            ComponentData::Mesh(m) => {
                m.update();
            },
            ComponentData::Script(s) => {
                s.update();
            },
        }
    }
}

/// What holds of a component fresh from [`ComponentData::create`]: it has
/// the asked-for kind, has never been updated, and a script component
/// remembers its owning entity.
pub open spec fn created_component<S: Scriptable>(
    c: ComponentData<S>,
    kind: ComponentKind,
    entity: Id,
) -> bool {
    &&& c.kind() == kind
    &&& c.ticks() == 0
    &&& match c {
        ComponentData::Mesh(m) => {
            &&& m.meshes@.len() == 0
            &&& m.textures@.len() == 0
            &&& m.shaders@.len() == 0
            &&& m.transforms@.len() == 0
            &&& m.pending@.len() == 0
        },
        ComponentData::Script(s) => s.entity == entity,
    }
}

/// How one update changes a stored component: the kind is kept, the tick
/// count advances by exactly one, a mesh component requeues its draw calls
/// and a script component keeps its owning entity.
pub open spec fn updated_once<S: Scriptable>(pre: ComponentData<S>, post: ComponentData<S>) -> bool {
    &&& post.kind() == pre.kind()
    &&& post.ticks() == pre.ticks() + 1
    &&& match (pre, post) {
        (ComponentData::Mesh(a), ComponentData::Mesh(b)) => mesh_updated(a, b),
        (ComponentData::Script(a), ComponentData::Script(b)) => b.entity == a.entity,
        _ => false,
    }
}

/// A scripted component: delegates the lifecycle hooks to a user-supplied
/// scriptable value, remembering the owning entity's arena index.
pub struct ScriptComponent<S: Scriptable> {
    pub script: S,
    pub entity: Id,
    /// Number of completed updates.
    pub ticks: Ghost<nat>,
}

impl<S: Scriptable> Component for ScriptComponent<S> {
    open spec fn ticks(&self) -> nat {
        self.ticks@
    }

    fn create(entity: Id) -> (c: Self)
        ensures
            c.entity == entity,
    {
        let mut script = S::create();
        script.on_create(entity);
        ScriptComponent { script, entity, ticks: Ghost(0nat) }
    }

    fn update(&mut self)
        ensures
            final(self).entity == old(self).entity,
    {
        let entity = self.entity;
        self.script.on_update(entity);
        self.ticks = Ghost(self.ticks@ + 1);
    }
}

} // verus!
