//! Shader description and builder-style construction.
//!
//! A [`Shader`] here is the validated program description: vertex and
//! fragment source text and an optional projection. Compiling and linking
//! it against the graphics driver, and uploading projection matrices, is
//! the graphics layer's work; what is validated here is the builder
//! protocol — which fields are required, and which error names the first
//! missing one.

use vstd::prelude::*;

verus! {

/// Projection assigned to a shader, with the viewport size it was made
/// for.
#[derive(Clone, Copy, PartialEq, Eq, Structural, Debug)]
pub enum Projection {
    Perspective { width: u32, height: u32 },
    Orthographic { width: u32, height: u32 },
}

/// Why a shader could not be built: a required field was missing.
/// Compilation and link failures are the graphics layer's, reported
/// there.
#[derive(Clone, Copy, PartialEq, Eq, Structural, Debug)]
pub enum ShaderError {
    MissingVertex,
    MissingFragment,
}

impl ShaderError {
    /// The error's message text.
    pub open spec fn spec_message(&self) -> Seq<char> {
        match self {
            ShaderError::MissingVertex => "Vertex shader not supplied"@,
            ShaderError::MissingFragment => "Fragment shader not supplied"@,
        }
    }

    /// Render the error as its message text.
    pub fn message(&self) -> (r: String)
        ensures
            r@ == self.spec_message(),
    {
        match self {
            ShaderError::MissingVertex => "Vertex shader not supplied".to_owned(),
            ShaderError::MissingFragment => "Fragment shader not supplied".to_owned(),
        }
    }
}

/// A validated shader program description, ready for the graphics layer
/// to compile and link.
#[derive(Debug)]
pub struct Shader {
    pub vertex: Vec<u8>,
    pub fragment: Vec<u8>,
    pub perspective: Option<Projection>,
}

impl Shader {
    /// Creates a builder to build a shader from.
    pub fn new() -> (b: ShaderBuilder)
        ensures
            b.vertex is None,
            b.fragment is None,
            b.perspective is None,
    {
        ShaderBuilder { vertex: None, fragment: None, perspective: None }
    }
}

/// Builder to construct a [`Shader`]: accumulates the vertex source, the
/// fragment source and the projection, then validates on `build`.
pub struct ShaderBuilder {
    pub vertex: Option<Vec<u8>>,
    pub fragment: Option<Vec<u8>>,
    pub perspective: Option<Projection>,
}

impl ShaderBuilder {
    /// Supply the vertex shader source.
    pub fn vertex(&mut self, source: Vec<u8>) -> (ret: &mut ShaderBuilder)
        ensures
            *ret == (ShaderBuilder { vertex: Some(source), ..*old(self) }),
            *final(self) == *final(ret),
    {
        self.vertex = Some(source);
        self
    }

    /// Supply the fragment shader source.
    pub fn fragment(&mut self, source: Vec<u8>) -> (ret: &mut ShaderBuilder)
        ensures
            *ret == (ShaderBuilder { fragment: Some(source), ..*old(self) }),
            *final(self) == *final(ret),
    {
        self.fragment = Some(source);
        self
    }

    /// Sets the projection type to perspective.
    pub fn perspective(&mut self, width: u32, height: u32) -> (ret: &mut ShaderBuilder)
        ensures
            *ret == (ShaderBuilder {
                perspective: Some(Projection::Perspective { width, height }),
                ..*old(self)
            }),
            *final(self) == *final(ret),
    {
        self.perspective = Some(Projection::Perspective { width, height });
        self
    }

    /// Sets the projection type to orthographic.
    pub fn orthographic(&mut self, width: u32, height: u32) -> (ret: &mut ShaderBuilder)
        ensures
            *ret == (ShaderBuilder {
                perspective: Some(Projection::Orthographic { width, height }),
                ..*old(self)
            }),
            *final(self) == *final(ret),
    {
        self.perspective = Some(Projection::Orthographic { width, height });
        self
    }

    /// Builds the accumulated sources into a [`Shader`].
    ///
    /// Errs exactly when a required source is missing: the vertex source
    /// is checked first, then the fragment source. On success the sources
    /// are taken out of the builder and handed to the shader.
    pub fn build(&mut self) -> (r: Result<Shader, ShaderError>)
        ensures
            old(self).vertex is None ==> r == Result::<Shader, ShaderError>::Err(
                ShaderError::MissingVertex,
            ) && *final(self) == *old(self),
            old(self).vertex is Some && old(self).fragment is None ==> r == Result::<
                Shader,
                ShaderError,
            >::Err(ShaderError::MissingFragment) && *final(self) == *old(self),
            old(self).vertex is Some && old(self).fragment is Some ==> match r {
                Ok(sh) => {
                    &&& sh.vertex == old(self).vertex->Some_0
                    &&& sh.fragment == old(self).fragment->Some_0
                    &&& sh.perspective == old(self).perspective
                    &&& final(self).vertex is None
                    &&& final(self).fragment is None
                    &&& final(self).perspective == old(self).perspective
                },
                Err(_) => false,
            },
    {
        if self.vertex.is_none() {
            return Err(ShaderError::MissingVertex);
        }
        if self.fragment.is_none() {
            return Err(ShaderError::MissingFragment);
        }
        let vertex = match self.vertex.take() {
            Some(v) => v,
            None => {
                proof {
                    assert(false);
                }
                Vec::new()
            },
        };
        let fragment = match self.fragment.take() {
            Some(f) => f,
            None => {
                proof {
                    assert(false);
                }
                Vec::new()
            },
        };
        Ok(Shader { vertex, fragment, perspective: self.perspective })
    }
}

} // verus!
