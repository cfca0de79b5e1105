//! The asset registry: resource objects looked up by name.
//!
//! Components and models refer to meshes, shaders and textures by handle
//! or by name; the registry owns the descriptions. Reading asset files
//! from disk is the surrounding program's work — it decodes, then
//! registers the result here.

use vstd::prelude::*;
use crate::ecs::{assoc_distinct, assoc_get, lemma_assoc_get_at, lemma_assoc_get_none,
    lemma_assoc_push, lemma_assoc_update};
use crate::mesh::Mesh;
use crate::shader::Shader;
use crate::texture::Texture;

verus! {

/// The registry of named resource objects.
pub struct Assets {
    pub meshes: Vec<(String, Mesh)>,
    pub shaders: Vec<(String, Shader)>,
    pub textures: Vec<(String, Texture)>,
}

impl Assets {
    /// The mesh registry as an association list over character
    /// sequences.
    pub open spec fn meshes_view(self) -> Seq<(Seq<char>, Mesh)> {
        self.meshes@.map_values(|p: (String, Mesh)| (p.0@, p.1))
    }

    /// The mesh bound to a name, if any.
    pub open spec fn spec_get_mesh(self, name: Seq<char>) -> Option<Mesh> {
        assoc_get(self.meshes_view(), name)
    }

    /// One binding per mesh name.
    pub open spec fn wf(&self) -> bool {
        assoc_distinct(self.meshes_view())
    }

    /// An empty registry.
    pub fn new() -> (a: Assets)
        ensures
            a.meshes@.len() == 0,
            a.shaders@.len() == 0,
            a.textures@.len() == 0,
            a.wf(),
    {
        Assets { meshes: Vec::new(), shaders: Vec::new(), textures: Vec::new() }
    }

    /// Register a mesh under a name, overwriting an earlier mesh of the
    /// same name.
    pub fn insert_mesh(&mut self, name: &str, mesh: Mesh)
        requires
            old(self).wf(),
        ensures
            final(self).wf(),
            final(self).spec_get_mesh(name@) == Some(mesh),
            forall|n2: Seq<char>| n2 != name@ ==> final(self).spec_get_mesh(n2) == old(
                self,
            ).spec_get_mesh(n2),
            final(self).shaders@ == old(self).shaders@,
            final(self).textures@ == old(self).textures@,
    {
        let key: String = name.to_owned();
        let n = self.meshes.len();
        let mut found: Option<usize> = None;
        let mut i: usize = 0;
        while i < n
            invariant
                i <= n,
                n == self.meshes@.len(),
                key@ == name@,
                self == old(self),
                old(self).wf(),
                match found {
                    Some(p) => p < i && self.meshes_view()[p as int].0 == name@,
                    None => forall|l: int| 0 <= l < i ==> (#[trigger] self.meshes_view()[l]).0
                        != name@,
                },
            decreases n - i,
        {
            if found.is_none() {
                if self.meshes[i].0 == key {
                    found = Some(i);
                    proof {
                        assert(self.meshes_view()[i as int].0 == name@);
                    }
                } else {
                    proof {
                        assert(self.meshes_view()[i as int].0 == self.meshes@[i as int].0@);
                    }
                }
            }
            i = i + 1;
        }
        let ghost pre = *self;
        match found {
            Some(p) => {
                self.meshes[p] = (key, mesh);
                proof {
                    assert(self.meshes_view() =~= pre.meshes_view().update(p as int, (name@, mesh)));
                    lemma_assoc_update(pre.meshes_view(), name@, mesh, p as int);
                }
            },
            None => {
                self.meshes.push((key, mesh));
                proof {
                    assert(self.meshes_view() =~= pre.meshes_view().push((name@, mesh)));
                    lemma_assoc_push(pre.meshes_view(), name@, mesh);
                }
            },
        }
    }

    /// Look up the mesh registered under a name.
    pub fn get_mesh(&self, name: &str) -> (r: Option<&Mesh>)
        requires
            self.wf(),
        ensures
            match r {
                Some(m) => self.spec_get_mesh(name@) == Some(*m),
                None => self.spec_get_mesh(name@) is None,
            },
    {
        let key: String = name.to_owned();
        let n = self.meshes.len();
        let mut i: usize = 0;
        while i < n
            invariant
                i <= n,
                n == self.meshes@.len(),
                key@ == name@,
                self.wf(),
                forall|l: int| 0 <= l < i ==> (#[trigger] self.meshes_view()[l]).0 != name@,
            decreases n - i,
        {
            if self.meshes[i].0 == key {
                proof {
                    assert(self.meshes_view()[i as int].0 == name@);
                    lemma_assoc_get_at(self.meshes_view(), name@, i as int);
                }
                return Some(&self.meshes[i].1);
            }
            proof {
                assert(self.meshes_view()[i as int].0 == self.meshes@[i as int].0@);
            }
            i = i + 1;
        }
        proof {
            lemma_assoc_get_none(self.meshes_view(), name@);
        }
        None
    }
}

} // verus!
