use vstd::prelude::*;

use crate::error::CitraError;

verus! {

/// The kinds of assets that the engine asks a platform for.
#[derive(Clone, Copy, Debug, PartialEq, Eq, Structural)]
pub enum AssetType {
    Script,
    Texture,
    Model,
    Shader,
    ShaderData,
    Music,
    Sfx,
    Scene,
    Logfile,
    Generic,
}

/// What a platform provides to the engine to find and read its assets.
pub trait AssetProvider {
    /// The platform path of an asset; does not check that the asset exists.
    fn get_asset_location(&self, asset_type: AssetType, path: String) -> String;

    /// The text of the file at a platform path.
    fn read_file_to_string(&self, path: String) -> Result<String, CitraError>;
}

/// The asset kinds that have a location on the console.
pub open spec fn has_location(asset_type: AssetType) -> bool {
    match asset_type {
        AssetType::Scene | AssetType::Texture | AssetType::Model | AssetType::Shader
        | AssetType::ShaderData | AssetType::Music => true,
        _ => false,
    }
}

/// The file extension of an asset kind that has a location.
pub open spec fn extension(asset_type: AssetType) -> Seq<char> {
    match asset_type {
        AssetType::Scene => ".json"@,
        AssetType::Texture => ".t3x"@,
        AssetType::Model => ".glb"@,
        AssetType::Shader => ".shbin"@,
        AssetType::ShaderData => ".json"@,
        _ => ".ogg"@,
    }
}

/// The console path of an asset of kind `asset_type` at `path`.
pub open spec fn asset_location(asset_type: AssetType, path: Seq<char>) -> Seq<char> {
    "romfs:"@ + path + extension(asset_type)
}

/// A location is formed from the asset's kind and path alone, without
/// looking at any file: for one kind, two paths share a location exactly
/// when they are the same path.
pub proof fn lemma_location_names_one_path(asset_type: AssetType, p: Seq<char>, q: Seq<char>)
    ensures
        asset_location(asset_type, p) == asset_location(asset_type, q) <==> p == q,
{
    let a = asset_location(asset_type, p);
    let b = asset_location(asset_type, q);
    let pre = "romfs:"@;
    let ext = extension(asset_type);
    if a == b {
        assert(a.len() == pre.len() + p.len() + ext.len());
        assert(b.len() == pre.len() + q.len() + ext.len());
        assert(p =~= a.subrange(pre.len() as int, (pre.len() + p.len()) as int));
        assert(q =~= b.subrange(pre.len() as int, (pre.len() + q.len()) as int));
    }
}

/// Where each kind of asset lies on the console: under `romfs:`, with the
/// path followed by `.json` for scenes and for shader data (both read as
/// JSON), `.t3x` for textures, `.glb` for models, `.shbin` for compiled
/// shaders and `.ogg` for music. Shader data and a scene at one path share a
/// location, and shader data never lies where the compiled shader does.
pub proof fn lemma_locations_of_each_kind(p: Seq<char>)
    ensures
        asset_location(AssetType::Scene, p) == "romfs:"@ + p + ".json"@,
        asset_location(AssetType::ShaderData, p) == "romfs:"@ + p + ".json"@,
        asset_location(AssetType::Texture, p) == "romfs:"@ + p + ".t3x"@,
        asset_location(AssetType::Model, p) == "romfs:"@ + p + ".glb"@,
        asset_location(AssetType::Shader, p) == "romfs:"@ + p + ".shbin"@,
        asset_location(AssetType::Music, p) == "romfs:"@ + p + ".ogg"@,
        asset_location(AssetType::ShaderData, p) == asset_location(AssetType::Scene, p),
        asset_location(AssetType::ShaderData, p) != asset_location(AssetType::Shader, p),
        asset_location(AssetType::ShaderData, p).len() == p.len() + 11,
{
    reveal_strlit("romfs:");
    reveal_strlit(".json");
    reveal_strlit(".shbin");
    assert(asset_location(AssetType::ShaderData, p).len() != asset_location(AssetType::Shader, p).len());
}

/// The console path of an asset: `"romfs:"`, the asset path and the
/// extension of its kind. Only scenes, textures, models, shaders, shader
/// data and music have one; the asset need not exist.
pub fn get_asset_location(asset_type: AssetType, path: String) -> (out: String)
    requires
        has_location(asset_type),
    ensures
        out@ == asset_location(asset_type, path@),
{
    let mut output = if asset_type == AssetType::Logfile {
        String::from_str("sdmc:")
    } else {
        String::from_str("romfs:")
    };
    output.append(path.as_str());
    match asset_type {
        AssetType::Scene => output.append(".json"),
        AssetType::Texture => output.append(".t3x"),
        AssetType::Model => output.append(".glb"),
        AssetType::Shader => output.append(".shbin"),
        AssetType::ShaderData => output.append(".json"),
        _ => output.append(".ogg"),
    }
    output
}

} // verus!
