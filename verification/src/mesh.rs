//! Mesh data and builder-style construction.
//!
//! A [`Mesh`] here is the validated geometry: raw vertex bytes, raw index
//! bytes (two bytes per index), and optional texture coordinates carried
//! as IEEE-754 bit words. Uploading the buffers to the graphics driver
//! and issuing draw calls is the graphics layer's work; what is validated
//! here is the builder protocol and the index count.

use vstd::prelude::*;

verus! {

/// Builder for a [`Mesh`].
pub struct MeshBuilder {
    pub name: String,
    pub vertices: Vec<u8>,
    pub indices: Vec<u8>,
    pub uv: Vec<u32>,
}

/// The message the builder fails with: the first unsupplied field among
/// vertices, indices and name.
pub open spec fn spec_build_error(b: MeshBuilder) -> Seq<char> {
    if b.vertices@.len() == 0 {
        "Error: Did not supply vertices"@
    } else if b.indices@.len() == 0 {
        "Error: Did not supply indices"@
    } else {
        "Error: Did not supply name"@
    }
}

impl MeshBuilder {
    /// Name the mesh.
    pub fn name(self, v: &str) -> (b: MeshBuilder)
        ensures
            b.name@ == v@,
            b.vertices@ == self.vertices@,
            b.indices@ == self.indices@,
            b.uv@ == self.uv@,
    {
        MeshBuilder { name: v.to_owned(), ..self }
    }

    /// Add vertices to the builder.
    pub fn vertices(self, v: Vec<u8>) -> (b: MeshBuilder)
        ensures
            b.name@ == self.name@,
            b.vertices@ == v@,
            b.indices@ == self.indices@,
            b.uv@ == self.uv@,
    {
        MeshBuilder { vertices: v, ..self }
    }

    /// Add indices to the builder, two bytes per index.
    pub fn indices(self, i: Vec<u8>) -> (b: MeshBuilder)
        ensures
            b.name@ == self.name@,
            b.vertices@ == self.vertices@,
            b.indices@ == i@,
            b.uv@ == self.uv@,
    {
        MeshBuilder { indices: i, ..self }
    }

    /// Add texture coordinates to the builder.
    pub fn uv(self, u: Vec<u32>) -> (b: MeshBuilder)
        ensures
            b.name@ == self.name@,
            b.vertices@ == self.vertices@,
            b.indices@ == self.indices@,
            b.uv@ == u@,
    {
        MeshBuilder { uv: u, ..self }
    }

    /// Converts the builder into a [`Mesh`].
    ///
    /// Errs exactly when vertices, indices or the name were not supplied,
    /// naming the first missing one, in that order. On success the mesh
    /// holds the supplied data, and its index count is the number of
    /// two-byte indices.
    pub fn build(self) -> (r: Result<Mesh, String>)
        ensures
            r is Err <==> self.vertices@.len() == 0 || self.indices@.len() == 0 || self.name@.len()
                == 0,
            match r {
                Err(msg) => msg@ == spec_build_error(self),
                Ok(m) => {
                    &&& m.vertices@ == self.vertices@
                    &&& m.indices@ == self.indices@
                    &&& m.uv@ == self.uv@
                    &&& m.index_count == self.indices@.len() / 2
                },
            },
    {
        if self.vertices.is_empty() {
            return Err("Error: Did not supply vertices".to_owned());
        }
        if self.indices.is_empty() {
            return Err("Error: Did not supply indices".to_owned());
        }
        if self.name.as_str().is_empty() {
            return Err("Error: Did not supply name".to_owned());
        }
        let index_count = self.indices.len() / 2;
        Ok(Mesh { vertices: self.vertices, indices: self.indices, uv: self.uv, index_count })
    }
}

/// The mesh representation: validated geometry, ready for the graphics
/// layer to upload.
#[derive(Debug)]
pub struct Mesh {
    pub vertices: Vec<u8>,
    pub indices: Vec<u8>,
    pub uv: Vec<u32>,
    /// Number of two-byte indices in `indices`.
    pub index_count: usize,
}

impl Mesh {
    /// Create a builder for a mesh.
    pub fn new() -> (b: MeshBuilder)
        ensures
            b.name@.len() == 0,
            b.vertices@.len() == 0,
            b.indices@.len() == 0,
            b.uv@.len() == 0,
    {
        MeshBuilder { name: String::new(), vertices: Vec::new(), indices: Vec::new(), uv: Vec::new() }
    }
}

/// Copy `length` bytes of `buffer` starting at `offset`: the window of a
/// buffer that one accessor of an imported model points at.
pub fn buffer_slice(buffer: &Vec<u8>, offset: usize, length: usize) -> (out: Vec<u8>)
    requires
        offset + length <= buffer@.len(),
    ensures
        out@ == buffer@.subrange(offset as int, offset as int + length as int),
{
    let blen = buffer.len();
    let mut out: Vec<u8> = Vec::new();
    let mut i: usize = 0;
    while i < length
        invariant
            i <= length,
            blen == buffer@.len(),
            offset + length <= blen,
            out@ == buffer@.subrange(offset as int, offset as int + i as int),
        decreases length - i,
    {
        out.push(buffer[offset + i]);
        proof {
            assert(out@ =~= buffer@.subrange(offset as int, offset as int + (i + 1)));
        }
        i = i + 1;
    }
    out
}

} // verus!
