use vstd::prelude::*;

use crate::scene::material::ShaderInputDiscriminant;

verus! {

/// The errors of the engine. Two errors are equal when they are of the same kind.
#[derive(Debug)]
pub enum CitraError {
    AssetNotFound(String),
    InvalidAssetFormat(String),
    ScriptError(String),
    RenderError(String),
    InvalidNodePath(String),
    InvalidMaterialIndex(String),
    InvalidMeshIndex(String),
    InvalidScriptName(String),
    PlaceholderPleaseImplement(String),
    SceneLoadingError(String),
    SceneVersionNotSupported,
    ShaderVersionNotSupported,
    IncompatibleShaderInputs {
        mat_inputs: Vec<ShaderInputDiscriminant>,
        shader_inputs: Vec<ShaderInputDiscriminant>,
    },
    MissingScriptArg(String, String),
    InvalidScriptArgType(String, String, String),
    ReadFileError(String),
    PlatformError(String),
    LoggerFetchError(String),
    StructInitializationError(String),
    Other(String),
}

impl CitraError {
    /// The kind of the error, numbered in declaration order.
    pub open spec fn kind(&self) -> nat {
        match self {
            CitraError::AssetNotFound(_) => 0,
            CitraError::InvalidAssetFormat(_) => 1,
            CitraError::ScriptError(_) => 2,
            CitraError::RenderError(_) => 3,
            CitraError::InvalidNodePath(_) => 4,
            CitraError::InvalidMaterialIndex(_) => 5,
            CitraError::InvalidMeshIndex(_) => 6,
            CitraError::InvalidScriptName(_) => 7,
            CitraError::PlaceholderPleaseImplement(_) => 8,
            CitraError::SceneLoadingError(_) => 9,
            CitraError::SceneVersionNotSupported => 10,
            CitraError::ShaderVersionNotSupported => 11,
            CitraError::IncompatibleShaderInputs { .. } => 12,
            CitraError::MissingScriptArg(_, _) => 13,
            CitraError::InvalidScriptArgType(_, _, _) => 14,
            CitraError::ReadFileError(_) => 15,
            CitraError::PlatformError(_) => 16,
            CitraError::LoggerFetchError(_) => 17,
            CitraError::StructInitializationError(_) => 18,
            CitraError::Other(_) => 19,
        }
    }

    /// The kind of the error, numbered in declaration order.
    pub fn kind_code(&self) -> (k: u8)
        ensures
            k == self.kind(),
    {
        match self {
            CitraError::AssetNotFound(_) => 0,
            CitraError::InvalidAssetFormat(_) => 1,
            CitraError::ScriptError(_) => 2,
            CitraError::RenderError(_) => 3,
            CitraError::InvalidNodePath(_) => 4,
            CitraError::InvalidMaterialIndex(_) => 5,
            CitraError::InvalidMeshIndex(_) => 6,
            CitraError::InvalidScriptName(_) => 7,
            CitraError::PlaceholderPleaseImplement(_) => 8,
            CitraError::SceneLoadingError(_) => 9,
            CitraError::SceneVersionNotSupported => 10,
            CitraError::ShaderVersionNotSupported => 11,
            CitraError::IncompatibleShaderInputs { .. } => 12,
            CitraError::MissingScriptArg(_, _) => 13,
            CitraError::InvalidScriptArgType(_, _, _) => 14,
            CitraError::ReadFileError(_) => 15,
            CitraError::PlatformError(_) => 16,
            CitraError::LoggerFetchError(_) => 17,
            CitraError::StructInitializationError(_) => 18,
            CitraError::Other(_) => 19,
        }
    }
}

/// `res` is the error for a path segment `seg` that names no object.
pub open spec fn is_missing_node<T>(res: Result<T, CitraError>, seg: Seq<char>) -> bool {
    match res {
        Err(CitraError::InvalidNodePath(msg)) => msg@ == "Node in path not found: "@ + seg,
        _ => false,
    }
}

impl PartialEq for CitraError {
    fn eq(&self, other: &Self) -> (res: bool) {
        self.kind_code() == other.kind_code()
    }
}

impl vstd::std_specs::cmp::PartialEqSpecImpl for CitraError {
    open spec fn obeys_eq_spec() -> bool {
        true
    }

    open spec fn eq_spec(&self, other: &Self) -> bool {
        self.kind() == other.kind()
    }
}

/// `prefix` followed by `msg`.
fn prefixed(prefix: &str, msg: &String) -> (out: String)
    ensures
        out@ == prefix@ + msg@,
{
    let mut out = String::from_str(prefix);
    out.append(msg.as_str());
    out
}

impl CitraError {
    /// The text that describes the error to a person.
    pub open spec fn message(&self) -> Seq<char> {
        match self {
            CitraError::AssetNotFound(m) => "Asset not found: "@ + m@,
            CitraError::InvalidAssetFormat(m) => "Invalid asset format: "@ + m@,
            CitraError::ScriptError(m) => "Script error: "@ + m@,
            CitraError::RenderError(m) => "Render error: "@ + m@,
            CitraError::InvalidNodePath(m) => "Invalid node path: "@ + m@,
            CitraError::InvalidMaterialIndex(m) => "Invalid Material Index: "@ + m@,
            CitraError::InvalidMeshIndex(m) => "Invalid Mesh Index: "@ + m@,
            CitraError::InvalidScriptName(m) => "Invalid Script Name: "@ + m@,
            CitraError::PlaceholderPleaseImplement(m) => "Placeholder Please Implement: "@ + m@,
            CitraError::SceneLoadingError(m) => "Scene Loading Error: "@ + m@,
            CitraError::SceneVersionNotSupported => "Scene Version Not Supported"@,
            CitraError::ShaderVersionNotSupported => "Shader Version Not Supported"@,
            CitraError::IncompatibleShaderInputs { .. } => "Incompatible Shader Inputs"@,
            CitraError::MissingScriptArg(script, arg) => "Missing Script Arg: "@ + script@ + ": "@
                + arg@,
            CitraError::InvalidScriptArgType(script, expected, got) => "Invalid Script Arg Type: "@
                + script@ + ": expected "@ + expected@ + ", got "@ + got@,
            CitraError::ReadFileError(m) => "Read File Error: "@ + m@,
            CitraError::PlatformError(m) => "Platform Error: "@ + m@,
            CitraError::LoggerFetchError(m) => "Logger Fetch Error: "@ + m@,
            CitraError::StructInitializationError(m) => "Struct Initialization Error: "@ + m@,
            CitraError::Other(m) => "Error: "@ + m@,
        }
    }

    /// The text that describes the error to a person.
    pub fn to_string(&self) -> (out: String)
        ensures
            out@ == self.message(),
    {
        match self {
            CitraError::AssetNotFound(m) => prefixed("Asset not found: ", m),
            CitraError::InvalidAssetFormat(m) => prefixed("Invalid asset format: ", m),
            CitraError::ScriptError(m) => prefixed("Script error: ", m),
            CitraError::RenderError(m) => prefixed("Render error: ", m),
            CitraError::InvalidNodePath(m) => prefixed("Invalid node path: ", m),
            CitraError::InvalidMaterialIndex(m) => prefixed("Invalid Material Index: ", m),
            CitraError::InvalidMeshIndex(m) => prefixed("Invalid Mesh Index: ", m),
            CitraError::InvalidScriptName(m) => prefixed("Invalid Script Name: ", m),
            CitraError::PlaceholderPleaseImplement(m) => prefixed(
                "Placeholder Please Implement: ",
                m,
            ),
            CitraError::SceneLoadingError(m) => prefixed("Scene Loading Error: ", m),
            CitraError::SceneVersionNotSupported => String::from_str("Scene Version Not Supported"),
            CitraError::ShaderVersionNotSupported => String::from_str(
                "Shader Version Not Supported",
            ),
            CitraError::IncompatibleShaderInputs { .. } => String::from_str(
                "Incompatible Shader Inputs",
            ),
            CitraError::MissingScriptArg(script, arg) => {
                let mut out = prefixed("Missing Script Arg: ", script);
                out.append(": ");
                out.append(arg.as_str());
                out
            },
            CitraError::InvalidScriptArgType(script, expected, got) => {
                let mut out = prefixed("Invalid Script Arg Type: ", script);
                out.append(": expected ");
                out.append(expected.as_str());
                out.append(", got ");
                out.append(got.as_str());
                out
            },
            CitraError::ReadFileError(m) => prefixed("Read File Error: ", m),
            CitraError::PlatformError(m) => prefixed("Platform Error: ", m),
            CitraError::LoggerFetchError(m) => prefixed("Logger Fetch Error: ", m),
            CitraError::StructInitializationError(m) => prefixed("Struct Initialization Error: ", m),
            CitraError::Other(m) => prefixed("Error: ", m),
        }
    }
}

} // verus!
