use vstd::prelude::*;

use crate::error::CitraError;
use crate::math::{Float2, Float3, Float4};

verus! {

/// Which channels a texture-combiner stage works on.
#[derive(Clone, Copy, Debug, PartialEq, Eq, Structural)]
pub enum TexEnvMode {
    Rgb,
    Alpha,
    Both,
}

/// Where a texture-combiner stage takes a value from.
#[derive(Clone, Copy, Debug, PartialEq, Eq, Structural)]
pub enum TexEnvSource {
    PrimaryColor,
    FragmentPrimaryColor,
    FragmentSecondaryColor,
    Texture0,
    Texture1,
    Texture2,
    Texture3,
    PreviousBuffer,
    Constant,
    Previous,
}

/// How a texture-combiner stage combines its sources.
#[derive(Clone, Copy, Debug, PartialEq, Eq, Structural)]
pub enum TexEnvFunc {
    Replace,
    Modulate,
    Add,
    AddSigned,
    Interpolate,
    Subtract,
    Dot3Rgb,
}

/// The configuration of one texture-combiner stage.
#[derive(Clone, Copy, Debug, PartialEq, Eq, Structural)]
pub struct TexEnvCFG {
    pub src_mode: TexEnvMode,
    pub source0: TexEnvSource,
    pub source1: Option<TexEnvSource>,
    pub source2: Option<TexEnvSource>,
    pub func_mode: TexEnvMode,
    pub func: TexEnvFunc,
}

/// The kind of a shader input.
#[derive(Clone, Copy, Debug, PartialEq, Eq, Structural)]
pub enum ShaderInputDiscriminant {
    Texture2D,
    Float,
    Vec2,
    Vec3,
    Vec4,
}

/// A value that a material hands to its shader; numbers are single-precision bit patterns.
#[derive(Debug)]
pub enum ShaderInput {
    Texture2D(String),
    Float(u32),
    Vec2(Float2),
    Vec3(Float3),
    Vec4(Float4),
}

/// The kind of a shader input value.
pub open spec fn input_kind(i: ShaderInput) -> ShaderInputDiscriminant {
    match i {
        ShaderInput::Texture2D(_) => ShaderInputDiscriminant::Texture2D,
        ShaderInput::Float(_) => ShaderInputDiscriminant::Float,
        ShaderInput::Vec2(_) => ShaderInputDiscriminant::Vec2,
        ShaderInput::Vec3(_) => ShaderInputDiscriminant::Vec3,
        ShaderInput::Vec4(_) => ShaderInputDiscriminant::Vec4,
    }
}

/// The kinds of a list of shader input values.
pub open spec fn input_kinds(inputs: Seq<ShaderInput>) -> Seq<ShaderInputDiscriminant> {
    inputs.map_values(|i: ShaderInput| input_kind(i))
}

/// The name of a kind of shader input.
pub open spec fn kind_name(d: ShaderInputDiscriminant) -> Seq<char> {
    match d {
        ShaderInputDiscriminant::Texture2D => "Texture2D"@,
        ShaderInputDiscriminant::Float => "Float"@,
        ShaderInputDiscriminant::Vec2 => "Vec2"@,
        ShaderInputDiscriminant::Vec3 => "Vec3"@,
        ShaderInputDiscriminant::Vec4 => "Vec4"@,
    }
}

impl ShaderInputDiscriminant {
    /// The kind of a shader input value.
    pub fn from(value: &ShaderInput) -> (out: Self)
        ensures
            out == input_kind(*value),
    {
        match value {
            ShaderInput::Texture2D(_) => ShaderInputDiscriminant::Texture2D,
            ShaderInput::Float(_) => ShaderInputDiscriminant::Float,
            ShaderInput::Vec2(_) => ShaderInputDiscriminant::Vec2,
            ShaderInput::Vec3(_) => ShaderInputDiscriminant::Vec3,
            ShaderInput::Vec4(_) => ShaderInputDiscriminant::Vec4,
        }
    }

    /// The name of the kind, such as `"Texture2D"`.
    pub fn to_string(&self) -> (out: String)
        ensures
            out@ == kind_name(*self),
    {
        match self {
            ShaderInputDiscriminant::Texture2D => String::from_str("Texture2D"),
            ShaderInputDiscriminant::Float => String::from_str("Float"),
            ShaderInputDiscriminant::Vec2 => String::from_str("Vec2"),
            ShaderInputDiscriminant::Vec3 => String::from_str("Vec3"),
            ShaderInputDiscriminant::Vec4 => String::from_str("Vec4"),
        }
    }
}

impl ShaderInput {
    /// A copy of the input.
    pub fn duplicate(&self) -> (out: Self)
        ensures
            out == *self,
    {
        match self {
            ShaderInput::Texture2D(s) => ShaderInput::Texture2D(s.clone()),
            ShaderInput::Float(f) => ShaderInput::Float(*f),
            ShaderInput::Vec2(v) => ShaderInput::Vec2(*v),
            ShaderInput::Vec3(v) => ShaderInput::Vec3(*v),
            ShaderInput::Vec4(v) => ShaderInput::Vec4(*v),
        }
    }
}

/// A shader description: where its programs are, which inputs it takes and
/// how its texture combiner is set up.
#[derive(Debug)]
pub struct Shader {
    pub name: String,
    pub vertex_path: String,
    pub geo_path: Option<String>,
    pub inputs: Vec<ShaderInputDiscriminant>,
    pub env_cfg: [Option<TexEnvCFG>; 6],
}

/// A versioned shader description: the current version, or one that is not supported.
#[derive(Debug)]
pub enum ShaderVersion {
    Latest(Shader),
    NotSupported,
}

impl Shader {
    /// The shader of a versioned description; a version that is not supported is an error.
    pub fn try_from(value: ShaderVersion) -> (res: Result<Shader, CitraError>)
        ensures
            match value {
                ShaderVersion::Latest(s) => res == Ok::<Shader, CitraError>(s),
                ShaderVersion::NotSupported => res == Err::<Shader, CitraError>(CitraError::ShaderVersionNotSupported),
            },
    {
        match value {
            ShaderVersion::Latest(s) => Ok(s),
            ShaderVersion::NotSupported => Err(CitraError::ShaderVersionNotSupported),
        }
    }
}

/// A material: the shader file it uses and the values it hands to that shader.
#[derive(Debug)]
pub struct Material {
    pub shader_file: String,
    pub inputs: Vec<ShaderInput>,
}

impl Material {
    /// A copy of the material.
    pub fn duplicate(&self) -> (out: Self)
        ensures
            out.shader_file == self.shader_file,
            out.inputs@ == self.inputs@,
    {
        let n = self.inputs.len();
        let mut inputs: Vec<ShaderInput> = Vec::new();
        for i in 0..n
            invariant
                n == self.inputs@.len(),
                inputs@ == self.inputs@.take(i as int),
        {
            inputs.push(self.inputs[i].duplicate());
            proof {
                assert(inputs@ =~= self.inputs@.take(i + 1));
            }
        }
        proof {
            assert(self.inputs@.take(n as int) =~= self.inputs@);
        }
        Material { shader_file: self.shader_file.clone(), inputs }
    }

    /// Checks that the material's inputs are, in order, of the kinds that the
    /// shader takes; otherwise the error lists both.
    pub fn verify_inputs(&self, shader: &Shader) -> (res: Result<(), CitraError>)
        ensures
            res is Ok <==> input_kinds(self.inputs@) == shader.inputs@,
            res matches Err(e) ==> (e matches CitraError::IncompatibleShaderInputs { mat_inputs, shader_inputs }
                && mat_inputs@ == input_kinds(self.inputs@) && shader_inputs@ == shader.inputs@),
    {
        let n = self.inputs.len();
        let mut kinds: Vec<ShaderInputDiscriminant> = Vec::new();
        for i in 0..n
            invariant
                n == self.inputs@.len(),
                kinds@ == input_kinds(self.inputs@).take(i as int),
        {
            kinds.push(ShaderInputDiscriminant::from(&self.inputs[i]));
            proof {
                assert(kinds@ =~= input_kinds(self.inputs@).take(i + 1));
            }
        }
        proof {
            assert(input_kinds(self.inputs@).take(n as int) =~= input_kinds(self.inputs@));
        }
        if kinds.len() != shader.inputs.len() {
            return Err(CitraError::IncompatibleShaderInputs { mat_inputs: kinds, shader_inputs: copy_kinds(&shader.inputs) });
        }
        for i in 0..n
            invariant
                n == kinds@.len(),
                n == shader.inputs@.len(),
                kinds@ == input_kinds(self.inputs@),
                forall|j: int| 0 <= j < i ==> kinds@[j] == shader.inputs@[j],
        {
            if kinds[i] != shader.inputs[i] {
                return Err(CitraError::IncompatibleShaderInputs { mat_inputs: kinds, shader_inputs: copy_kinds(&shader.inputs) });
            }
        }
        proof {
            assert(kinds@ =~= shader.inputs@);
        }
        Ok(())
    }
}

/// A copy of a list of input kinds.
pub fn copy_kinds(v: &Vec<ShaderInputDiscriminant>) -> (out: Vec<ShaderInputDiscriminant>)
    ensures
        out@ == v@,
{
    let n = v.len();
    let mut out: Vec<ShaderInputDiscriminant> = Vec::new();
    for i in 0..n
        invariant
            n == v@.len(),
            out@ == v@.take(i as int),
    {
        out.push(v[i]);
        proof {
            assert(out@ =~= v@.take(i + 1));
        }
    }
    proof {
        assert(v@.take(n as int) =~= v@);
    }
    out
}

} // verus!
