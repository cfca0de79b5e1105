//! A model: mesh components drawn together under one transform.

use vstd::prelude::*;
use crate::Transform;
use crate::component::{Component, DrawCall, MeshComponent, MeshHandle, ShaderHandle, draw_calls,
    rotated, scaled, translated};

verus! {

/// The draw calls a list of mesh components yields, in component order.
pub open spec fn draws_of(ms: Seq<MeshComponent>) -> Seq<DrawCall>
    decreases ms.len(),
{
    if ms.len() == 0 {
        Seq::empty()
    } else {
        draws_of(ms.drop_last()) + draw_calls(ms.last())
    }
}

/// A set of mesh components posed by a shared transform.
pub struct Model {
    pub meshes: Vec<MeshComponent>,
    pub transform: Transform,
}

impl Model {
    /// A model of one mesh drawn with one shader, at the identity
    /// transform.
    pub fn from_mesh(mesh: MeshHandle, shader: ShaderHandle) -> (m: Model)
        ensures
            m.meshes@.len() == 1,
            m.meshes@[0].meshes@ == seq![mesh],
            m.meshes@[0].shaders@ == seq![shader],
            m.meshes@[0].textures@.len() == 0,
            m.meshes@[0].transforms@.len() == 1,
            m.transform == (Transform {
                translation: crate::vec3_zero(),
                rotation: crate::quat_identity(),
                scale: crate::vec3_one(),
            }),
    {
        let mut comp = MeshComponent::create(0);
        comp.add_mstm(mesh, shader, None, None);
        proof {
            assert(comp.meshes@ =~= seq![mesh]);
            assert(comp.shaders@ =~= seq![shader]);
        }
        let mut meshes: Vec<MeshComponent> = Vec::new();
        meshes.push(comp);
        Model { meshes, transform: Transform::new() }
    }

    /// The draw calls of all the model's components, in order.
    pub fn draw(&self) -> (calls: Vec<DrawCall>)
        ensures
            calls@ == draws_of(self.meshes@),
    {
        let n = self.meshes.len();
        let mut calls: Vec<DrawCall> = Vec::new();
        let mut i: usize = 0;
        while i < n
            invariant
                i <= n,
                n == self.meshes@.len(),
                calls@ == draws_of(self.meshes@.take(i as int)),
            decreases n - i,
        {
            let mut part = self.meshes[i].draw_list();
            calls.append(&mut part);
            proof {
                assert(self.meshes@.take(i + 1).drop_last() =~= self.meshes@.take(i as int));
                assert(self.meshes@.take(i + 1).last() == self.meshes@[i as int]);
            }
            i = i + 1;
        }
        proof {
            assert(self.meshes@.take(n as int) =~= self.meshes@);
        }
        calls
    }

    /// Move every component to the given translation.
    pub fn set_translate(&mut self, fx: u32, fy: u32, fz: u32)
        ensures
            final(self).meshes@.len() == old(self).meshes@.len(),
            forall|i: int| 0 <= i < old(self).meshes@.len() ==> translated(
                old(self).meshes@[i],
                #[trigger] final(self).meshes@[i],
                crate::Vec3Bits { x: fx, y: fy, z: fz },
            ),
            final(self).transform == old(self).transform,
    {
        let n = self.meshes.len();
        let mut i: usize = 0;
        while i < n
            invariant
                i <= n,
                n == self.meshes@.len(),
                self.transform == old(self).transform,
                forall|l: int| 0 <= l < i ==> translated(
                    old(self).meshes@[l],
                    #[trigger] self.meshes@[l],
                    crate::Vec3Bits { x: fx, y: fy, z: fz },
                ),
                forall|l: int| i <= l < n ==> self.meshes@[l] == old(self).meshes@[l],
            decreases n - i,
        {
            let ghost before = self.meshes@;
            let mut m = self.meshes.remove(i);
            m.set_translate(fx, fy, fz);
            self.meshes.insert(i, m);
            proof {
                assert(self.meshes@ =~= before.update(i as int, m));
            }
            i = i + 1;
        }
    }

    /// Resize every component to the given scale.
    pub fn set_scale(&mut self, fx: u32, fy: u32, fz: u32)
        ensures
            final(self).meshes@.len() == old(self).meshes@.len(),
            forall|i: int| 0 <= i < old(self).meshes@.len() ==> scaled(
                old(self).meshes@[i],
                #[trigger] final(self).meshes@[i],
                crate::Vec3Bits { x: fx, y: fy, z: fz },
            ),
            final(self).transform == old(self).transform,
    {
        let n = self.meshes.len();
        let mut i: usize = 0;
        while i < n
            invariant
                i <= n,
                n == self.meshes@.len(),
                self.transform == old(self).transform,
                forall|l: int| 0 <= l < i ==> scaled(
                    old(self).meshes@[l],
                    #[trigger] self.meshes@[l],
                    crate::Vec3Bits { x: fx, y: fy, z: fz },
                ),
                forall|l: int| i <= l < n ==> self.meshes@[l] == old(self).meshes@[l],
            decreases n - i,
        {
            let ghost before = self.meshes@;
            let mut m = self.meshes.remove(i);
            m.set_scale(fx, fy, fz);
            self.meshes.insert(i, m);
            proof {
                assert(self.meshes@ =~= before.update(i as int, m));
            }
            i = i + 1;
        }
    }

    /// Turn every component to the given rotation. The quaternion is
    /// computed by the graphics layer (for instance from an axis and an
    /// angle) and handed over as bit words.
    pub fn set_rotation(&mut self, rotation: crate::QuatBits)
        ensures
            final(self).meshes@.len() == old(self).meshes@.len(),
            forall|i: int| 0 <= i < old(self).meshes@.len() ==> rotated(
                old(self).meshes@[i],
                #[trigger] final(self).meshes@[i],
                rotation,
            ),
            final(self).transform == old(self).transform,
    {
        let n = self.meshes.len();
        let mut i: usize = 0;
        while i < n
            invariant
                i <= n,
                n == self.meshes@.len(),
                self.transform == old(self).transform,
                forall|l: int| 0 <= l < i ==> rotated(
                    old(self).meshes@[l],
                    #[trigger] self.meshes@[l],
                    rotation,
                ),
                forall|l: int| i <= l < n ==> self.meshes@[l] == old(self).meshes@[l],
            decreases n - i,
        {
            let ghost before = self.meshes@;
            let mut m = self.meshes.remove(i);
            m.set_rotation(rotation);
            self.meshes.insert(i, m);
            proof {
                assert(self.meshes@ =~= before.update(i as int, m));
            }
            i = i + 1;
        }
    }
}

} // verus!
