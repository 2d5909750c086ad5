use vstd::prelude::*;
use crate::error::{invalid, internal, McpError};
use crate::text::{str_eq, byte_len, has_control, contains_control, ascii_lower_seq, seq_ends_with, ends_with};
use crate::outside::{json_string, json_string_text};
use crate::blender_paths::{BlenderArtifactScope, artifact_relative_path, is_leaf_name, scope_dir};
use crate::blender_ops::{file_name, file_name_of, extension, extension_of, to_ascii_lower};

verus! {

/// The Python code that loads a reference image into an image empty.
pub open spec fn reference_import_code(path_literal: Seq<char>, collection_literal: Seq<char>) -> Seq<char> {
    "# MASIHAWAM_ASSET_IMPORT_REFERENCE\nimport bpy\n_path = "@
        + path_literal
        + "\n_collection_name = "@
        + collection_literal
        + "\n_image = bpy.data.images.load(_path, check_existing=True)\n_empty = bpy.data.objects.new(\"Reference_\" + _image.name, None)\n_empty.empty_display_type = 'IMAGE'\n_empty.data = _image\n_collection = bpy.context.scene.collection\nif _collection_name:\n    _collection = bpy.data.collections.get(_collection_name)\n    if _collection is None:\n        _collection = bpy.data.collections.new(_collection_name)\n        bpy.context.scene.collection.children.link(_collection)\n_collection.objects.link(_empty)\nresult = {\"imported\":[_empty.name], \"kind\":\"reference_image\"}\n"@
}

/// Writes the Python code that loads a reference image into an image empty.
pub fn reference_import_script(path_literal: &str, collection_literal: &str) -> (code: String)
    ensures
        code@ == reference_import_code(path_literal@, collection_literal@),
{
    let mut code = String::from_str("# MASIHAWAM_ASSET_IMPORT_REFERENCE\nimport bpy\n_path = ");
    code.append(path_literal);
    code.append("\n_collection_name = ");
    code.append(collection_literal);
    code.append("\n_image = bpy.data.images.load(_path, check_existing=True)\n_empty = bpy.data.objects.new(\"Reference_\" + _image.name, None)\n_empty.empty_display_type = 'IMAGE'\n_empty.data = _image\n_collection = bpy.context.scene.collection\nif _collection_name:\n    _collection = bpy.data.collections.get(_collection_name)\n    if _collection is None:\n        _collection = bpy.data.collections.new(_collection_name)\n        bpy.context.scene.collection.children.link(_collection)\n_collection.objects.link(_empty)\nresult = {\"imported\":[_empty.name], \"kind\":\"reference_image\"}\n");
    code
}

/// The Python code that appends the objects of a `.blend` file.
pub open spec fn blend_import_code(path_literal: Seq<char>, collection_literal: Seq<char>) -> Seq<char> {
    "# MASIHAWAM_ASSET_IMPORT_BLEND\nimport bpy\n_path = "@
        + path_literal
        + "\n_collection_name = "@
        + collection_literal
        + "\n_before = set(bpy.data.objects.keys())\nwith bpy.data.libraries.load(_path, link=False) as (_data_from, _data_to):\n    _data_to.objects = list(_data_from.objects)[:256]\n_imported = [obj for obj in _data_to.objects if obj is not None]\n_collection = bpy.context.scene.collection\nif _collection_name:\n    _collection = bpy.data.collections.get(_collection_name)\n    if _collection is None:\n        _collection = bpy.data.collections.new(_collection_name)\n        bpy.context.scene.collection.children.link(_collection)\nfor _obj in _imported:\n    if len(_obj.users_collection) == 0:\n        _collection.objects.link(_obj)\nresult = {\"imported\":[obj.name for obj in _imported], \"kind\":\"blend\"}\n"@
}

/// Writes the Python code that appends the objects of a `.blend` file.
pub fn blend_import_script(path_literal: &str, collection_literal: &str) -> (code: String)
    ensures
        code@ == blend_import_code(path_literal@, collection_literal@),
{
    let mut code = String::from_str("# MASIHAWAM_ASSET_IMPORT_BLEND\nimport bpy\n_path = ");
    code.append(path_literal);
    code.append("\n_collection_name = ");
    code.append(collection_literal);
    code.append("\n_before = set(bpy.data.objects.keys())\nwith bpy.data.libraries.load(_path, link=False) as (_data_from, _data_to):\n    _data_to.objects = list(_data_from.objects)[:256]\n_imported = [obj for obj in _data_to.objects if obj is not None]\n_collection = bpy.context.scene.collection\nif _collection_name:\n    _collection = bpy.data.collections.get(_collection_name)\n    if _collection is None:\n        _collection = bpy.data.collections.new(_collection_name)\n        bpy.context.scene.collection.children.link(_collection)\nfor _obj in _imported:\n    if len(_obj.users_collection) == 0:\n        _collection.objects.link(_obj)\nresult = {\"imported\":[obj.name for obj in _imported], \"kind\":\"blend\"}\n");
    code
}

/// The Python code that runs an import operator and collects what it added.
pub open spec fn model_import_code(collection_literal: Seq<char>, operator: Seq<char>) -> Seq<char> {
    "# MASIHAWAM_ASSET_IMPORT\nimport bpy\n_collection_name = "@
        + collection_literal
        + "\n_before = set(bpy.data.objects.keys())\n"@
        + operator
        + "\n_imported = [bpy.data.objects[name] for name in bpy.data.objects.keys() if name not in _before]\nif _collection_name:\n    _collection = bpy.data.collections.get(_collection_name)\n    if _collection is None:\n        _collection = bpy.data.collections.new(_collection_name)\n        bpy.context.scene.collection.children.link(_collection)\n    for _obj in _imported:\n        for _existing in list(_obj.users_collection):\n            _existing.objects.unlink(_obj)\n        _collection.objects.link(_obj)\nresult = {\"imported\":[obj.name for obj in _imported], \"kind\":\"asset\"}\n"@
}

/// Writes the Python code that runs an import operator and collects what it added.
pub fn model_import_script(collection_literal: &str, operator: &str) -> (code: String)
    ensures
        code@ == model_import_code(collection_literal@, operator@),
{
    let mut code = String::from_str("# MASIHAWAM_ASSET_IMPORT\nimport bpy\n_collection_name = ");
    code.append(collection_literal);
    code.append("\n_before = set(bpy.data.objects.keys())\n");
    code.append(operator);
    code.append("\n_imported = [bpy.data.objects[name] for name in bpy.data.objects.keys() if name not in _before]\nif _collection_name:\n    _collection = bpy.data.collections.get(_collection_name)\n    if _collection is None:\n        _collection = bpy.data.collections.new(_collection_name)\n        bpy.context.scene.collection.children.link(_collection)\n    for _obj in _imported:\n        for _existing in list(_obj.users_collection):\n            _existing.objects.unlink(_obj)\n        _collection.objects.link(_obj)\nresult = {\"imported\":[obj.name for obj in _imported], \"kind\":\"asset\"}\n");
    code
}

/// The Python code that exports the selected objects with `operator`.
pub open spec fn export_code(selection_literal: Seq<char>, path_literal: Seq<char>, operator: Seq<char>, format_literal: Seq<char>) -> Seq<char> {
    "# MASIHAWAM_ASSET_EXPORT\nimport bpy\n_names = "@
        + selection_literal
        + "\n_path = "@
        + path_literal
        + "\n_missing = [name for name in _names if bpy.data.objects.get(name) is None]\nif _missing:\n    raise ValueError(\"export selection contains unknown objects\")\n_old_active = bpy.context.view_layer.objects.active\n_old_selected = [obj for obj in bpy.context.selected_objects]\ntry:\n    bpy.ops.object.select_all(action='DESELECT')\n    for _name in _names:\n        bpy.data.objects[_name].select_set(True)\n    bpy.context.view_layer.objects.active = bpy.data.objects[_names[0]]\n    "@
        + operator
        + "\n    result = {\"exported\": _names, \"format\": "@
        + format_literal
        + "}\nfinally:\n    bpy.ops.object.select_all(action='DESELECT')\n    for _obj in _old_selected:\n        if _obj.name in bpy.data.objects:\n            _obj.select_set(True)\n    if _old_active is not None and _old_active.name in bpy.data.objects:\n        bpy.context.view_layer.objects.active = _old_active\n"@
}

/// Writes the Python code that exports the selected objects with `operator`.
pub fn export_script(selection_literal: &str, path_literal: &str, operator: &str, format_literal: &str) -> (code: String)
    ensures
        code@ == export_code(selection_literal@, path_literal@, operator@, format_literal@),
{
    let mut code = String::from_str("# MASIHAWAM_ASSET_EXPORT\nimport bpy\n_names = ");
    code.append(selection_literal);
    code.append("\n_path = ");
    code.append(path_literal);
    code.append("\n_missing = [name for name in _names if bpy.data.objects.get(name) is None]\nif _missing:\n    raise ValueError(\"export selection contains unknown objects\")\n_old_active = bpy.context.view_layer.objects.active\n_old_selected = [obj for obj in bpy.context.selected_objects]\ntry:\n    bpy.ops.object.select_all(action='DESELECT')\n    for _name in _names:\n        bpy.data.objects[_name].select_set(True)\n    bpy.context.view_layer.objects.active = bpy.data.objects[_names[0]]\n    ");
    code.append(operator);
    code.append("\n    result = {\"exported\": _names, \"format\": ");
    code.append(format_literal);
    code.append("}\nfinally:\n    bpy.ops.object.select_all(action='DESELECT')\n    for _obj in _old_selected:\n        if _obj.name in bpy.data.objects:\n            _obj.select_set(True)\n    if _old_active is not None and _old_active.name in bpy.data.objects:\n        bpy.context.view_layer.objects.active = _old_active\n");
    code
}

} // verus!

verus! {

// ---------------------------------------------------------------------------
// Literals

/// Text for a structured string field: 1 to `max` bytes without control characters.
pub open spec fn py_text_ok(value: Seq<char>, max: int) -> bool {
    value.len() > 0 && byte_len(value) <= max && !has_control(value)
}

/// Quotes bounded text as a Python string literal, by way of its JSON text.
pub fn py_string(value: &str, max: usize) -> (r: Result<String, McpError>)
    ensures
        match r {
            Ok(s) => py_text_ok(value@, max as int) && s@ == json_string_text(value@),
            Err(e) => e is InvalidRequest && !py_text_ok(value@, max as int),
        },
{
    if value.is_empty() || value.len() > max || contains_control(value) {
        return Err(invalid("Blender structured string exceeds allowed bounds"));
    }
    match json_string(value) {
        Some(s) => Ok(s),
        None => Err(internal("Blender structured string could not be encoded")),
    }
}

// ---------------------------------------------------------------------------
// Imports

/// The lowercase extension of a path's file name, where it has a non-empty one.
pub open spec fn lower_extension(path: Seq<char>) -> Option<Seq<char>> {
    match file_name_of(path) {
        Some(n) => match extension_of(n) {
            Some(e) => if e.len() > 0 { Some(ascii_lower_seq(e)) } else { None },
            None => None,
        },
        None => None,
    }
}

/// The lowercase extension of a path's file name.
pub fn file_extension(path: &str) -> (r: Result<String, McpError>)
    ensures
        match r {
            Ok(e) => lower_extension(path@) == Some(e@),
            Err(err) => err is InvalidRequest && lower_extension(path@) is None,
        },
{
    let name = match file_name(path) {
        Some(n) => n,
        None => { return Err(invalid("Blender asset has no reviewed file extension")); },
    };
    let ext = match extension(name.as_str()) {
        Some(e) => e,
        None => { return Err(invalid("Blender asset has no reviewed file extension")); },
    };
    if ext.as_str().is_empty() {
        return Err(invalid("Blender asset has no reviewed file extension"));
    }
    let lower = to_ascii_lower(ext.as_str());
    Ok(lower)
}

/// An image format that can be a reference.
pub open spec fn is_reference_extension(e: Seq<char>) -> bool {
    e == "png"@ || e == "jpg"@ || e == "jpeg"@ || e == "exr"@ || e == "webp"@ || e == "tif"@ || e == "tiff"@ || e == "bmp"@
}

/// A model format that can be imported as an asset.
pub open spec fn is_model_extension(e: Seq<char>) -> bool {
    e == "fbx"@ || e == "obj"@ || e == "gltf"@ || e == "glb"@ || e == "usd"@ || e == "usda"@ || e == "usdc"@ || e == "usdz"@ || e == "blend"@
}

/// Whether an import of the asset at `source` for `purpose`, under `target` if named,
/// is refused.
pub open spec fn import_refused(source: Seq<char>, purpose: Seq<char>, target: Option<Seq<char>>) -> bool {
    ||| lower_extension(source) is None
    ||| (target matches Some(t) && lower_extension(t) != lower_extension(source))
    ||| !((purpose == "reference"@ && is_reference_extension(lower_extension(source)->0))
        || (purpose == "asset"@ && is_model_extension(lower_extension(source)->0)))
}

fn is_reference_ext(e: &str) -> (r: bool)
    ensures
        r == is_reference_extension(e@),
{
    str_eq(e, "png") || str_eq(e, "jpg") || str_eq(e, "jpeg") || str_eq(e, "exr") || str_eq(e, "webp")
        || str_eq(e, "tif") || str_eq(e, "tiff") || str_eq(e, "bmp")
}

fn is_model_ext(e: &str) -> (r: bool)
    ensures
        r == is_model_extension(e@),
{
    str_eq(e, "fbx") || str_eq(e, "obj") || str_eq(e, "gltf") || str_eq(e, "glb") || str_eq(e, "usd")
        || str_eq(e, "usda") || str_eq(e, "usdc") || str_eq(e, "usdz") || str_eq(e, "blend")
}

/// Checks an import into Blender and returns the format it keeps: the source's
/// extension, which a target name may not change, and which must suit the purpose.
pub fn import_extension(source_relative_path: &str, purpose: &str, target_name: Option<&str>) -> (r: Result<String, McpError>)
    ensures
        match r {
            Ok(e) => !import_refused(source_relative_path@, purpose@, match target_name { Some(t) => Some(t@), None => None })
                && lower_extension(source_relative_path@) == Some(e@),
            Err(err) => err is InvalidRequest
                && import_refused(source_relative_path@, purpose@, match target_name { Some(t) => Some(t@), None => None }),
        },
{
    proof {
        reveal_strlit("reference");
        reveal_strlit("asset");
    }
    let source = match file_extension(source_relative_path) {
        Ok(e) => e,
        Err(e) => { return Err(e); },
    };
    if let Some(t) = target_name {
        let target = match file_extension(t) {
            Ok(e) => e,
            Err(e) => { return Err(e); },
        };
        if !str_eq(target.as_str(), source.as_str()) {
            return Err(invalid("Blender materialization cannot change the source file format"));
        }
    }
    if str_eq(purpose, "reference") {
        if !is_reference_ext(source.as_str()) {
            assert("reference"@.len() != "asset"@.len());
            return Err(invalid("Blender reference import supports reviewed image formats only"));
        }
    } else if str_eq(purpose, "asset") {
        if !is_model_ext(source.as_str()) {
            return Err(invalid("Blender asset import format is unsupported"));
        }
    } else {
        return Err(invalid("Blender asset purpose must be reference or asset"));
    }
    Ok(source)
}

/// An import is accepted for each reviewed format, and keeps the source's format: a
/// model in FBX, OBJ, glTF, GLB, USD, USDA, USDC, USDZ or Blend format imports as an
/// asset, and an image in PNG, JPEG, EXR, WebP, TIFF or BMP format as a reference,
/// where no target name changes the extension.
pub proof fn law_reviewed_formats_are_imported(source: Seq<char>, target: Option<Seq<char>>, e: Seq<char>)
    requires
        lower_extension(source) == Some(e),
        target matches Some(t) ==> lower_extension(t) == Some(e),
    ensures
        e == "fbx"@ ==> !import_refused(source, "asset"@, target),
        e == "obj"@ ==> !import_refused(source, "asset"@, target),
        e == "gltf"@ ==> !import_refused(source, "asset"@, target),
        e == "glb"@ ==> !import_refused(source, "asset"@, target),
        e == "usd"@ ==> !import_refused(source, "asset"@, target),
        e == "usda"@ ==> !import_refused(source, "asset"@, target),
        e == "usdc"@ ==> !import_refused(source, "asset"@, target),
        e == "usdz"@ ==> !import_refused(source, "asset"@, target),
        e == "blend"@ ==> !import_refused(source, "asset"@, target),
        e == "png"@ ==> !import_refused(source, "reference"@, target),
        e == "jpg"@ ==> !import_refused(source, "reference"@, target),
        e == "jpeg"@ ==> !import_refused(source, "reference"@, target),
        e == "exr"@ ==> !import_refused(source, "reference"@, target),
        e == "webp"@ ==> !import_refused(source, "reference"@, target),
        e == "tif"@ ==> !import_refused(source, "reference"@, target),
        e == "tiff"@ ==> !import_refused(source, "reference"@, target),
        e == "bmp"@ ==> !import_refused(source, "reference"@, target),
{
}

/// The operator that imports a model of extension `e` from `path_literal`.
pub open spec fn import_operator(e: Seq<char>, path_literal: Seq<char>) -> Option<Seq<char>> {
    if e == "fbx"@ {
        Some("bpy.ops.import_scene.fbx(filepath="@ + path_literal + ")"@)
    } else if e == "obj"@ {
        Some("bpy.ops.wm.obj_import(filepath="@ + path_literal + ")"@)
    } else if e == "gltf"@ || e == "glb"@ {
        Some("bpy.ops.import_scene.gltf(filepath="@ + path_literal + ")"@)
    } else if e == "usd"@ || e == "usda"@ || e == "usdc"@ || e == "usdz"@ {
        Some("bpy.ops.wm.usd_import(filepath="@ + path_literal + ")"@)
    } else {
        None
    }
}

fn wrap_call(head: &str, path_literal: &str) -> (r: String)
    ensures
        r@ == head@ + path_literal@ + ")"@,
{
    let mut r = String::from_str(head);
    r.append(path_literal);
    r.append(")");
    r
}

/// The Python code that imports a model: `.blend` files are appended, other formats go
/// through their import operator.
pub fn asset_import_code(extension: &str, path_literal: &str, collection_literal: &str) -> (r: Result<String, McpError>)
    ensures
        match r {
            Ok(code) => if extension@ == "blend"@ {
                code@ == blend_import_code(path_literal@, collection_literal@)
            } else {
                import_operator(extension@, path_literal@) matches Some(op)
                    && code@ == model_import_code(collection_literal@, op)
            },
            Err(e) => e is InvalidRequest && extension@ != "blend"@ && import_operator(extension@, path_literal@) is None,
        },
{
    proof {
        reveal_strlit("fbx");
        reveal_strlit("obj");
        reveal_strlit("gltf");
        reveal_strlit("glb");
        reveal_strlit("usd");
        reveal_strlit("usda");
        reveal_strlit("usdc");
        reveal_strlit("usdz");
        reveal_strlit("blend");
    }
    if str_eq(extension, "blend") {
        return Ok(blend_import_script(path_literal, collection_literal));
    }
    let operator = if str_eq(extension, "fbx") {
        wrap_call("bpy.ops.import_scene.fbx(filepath=", path_literal)
    } else if str_eq(extension, "obj") {
        wrap_call("bpy.ops.wm.obj_import(filepath=", path_literal)
    } else if str_eq(extension, "gltf") || str_eq(extension, "glb") {
        wrap_call("bpy.ops.import_scene.gltf(filepath=", path_literal)
    } else if str_eq(extension, "usd") || str_eq(extension, "usda") || str_eq(extension, "usdc") || str_eq(extension, "usdz") {
        wrap_call("bpy.ops.wm.usd_import(filepath=", path_literal)
    } else {
        return Err(invalid("Blender asset import format is unsupported"));
    };
    assert(import_operator(extension@, path_literal@) == Some(operator@));
    Ok(model_import_script(collection_literal, operator.as_str()))
}

/// The Python code of an import for `purpose`.
pub fn import_script(purpose: &str, extension: &str, path_literal: &str, collection_literal: &str) -> (r: Result<String, McpError>)
    ensures
        purpose@ == "reference"@ ==> (r matches Ok(code) && code@ == reference_import_code(path_literal@, collection_literal@)),
        purpose@ != "reference"@ ==> match r {
            Ok(code) => if extension@ == "blend"@ {
                code@ == blend_import_code(path_literal@, collection_literal@)
            } else {
                import_operator(extension@, path_literal@) matches Some(op)
                    && code@ == model_import_code(collection_literal@, op)
            },
            Err(e) => e is InvalidRequest && extension@ != "blend"@ && import_operator(extension@, path_literal@) is None,
        },
{
    if str_eq(purpose, "reference") {
        Ok(reference_import_script(path_literal, collection_literal))
    } else {
        asset_import_code(extension, path_literal, collection_literal)
    }
}

/// Where a materialized copy of an asset goes for `purpose`: references and assets each
/// have their directory.
pub fn materialized_path(purpose: &str, file_name: &str) -> (r: Result<String, McpError>)
    ensures
        match r {
            Ok(p) => is_leaf_name(file_name@) && (
                (purpose@ == "reference"@ && p@ == scope_dir(BlenderArtifactScope::Reference) + "/"@ + file_name@)
                || (purpose@ == "asset"@ && p@ == scope_dir(BlenderArtifactScope::Asset) + "/"@ + file_name@)),
            Err(e) => e is InvalidRequest && ((purpose@ != "reference"@ && purpose@ != "asset"@) || !is_leaf_name(file_name@)),
        },
{
    let scope = if str_eq(purpose, "reference") {
        BlenderArtifactScope::Reference
    } else if str_eq(purpose, "asset") {
        BlenderArtifactScope::Asset
    } else {
        return Err(invalid("Blender asset purpose must be reference or asset"));
    };
    artifact_relative_path(scope, file_name)
}

// ---------------------------------------------------------------------------
// Exports

/// The file extension of an export format.
pub open spec fn export_extension(format: Seq<char>) -> Option<Seq<char>> {
    if format == "glb"@ || format == "gltf"@ || format == "fbx"@ || format == "obj"@ || format == "usd"@ || format == "usdz"@ {
        Some(format)
    } else {
        None
    }
}

/// The operator that exports the selection in `format`.
pub open spec fn export_operator_text(format: Seq<char>) -> Option<Seq<char>> {
    if format == "glb"@ {
        Some("bpy.ops.export_scene.gltf(filepath=_path, export_format='GLB', use_selection=True)"@)
    } else if format == "gltf"@ {
        Some("bpy.ops.export_scene.gltf(filepath=_path, export_format='GLTF_EMBEDDED', use_selection=True)"@)
    } else if format == "fbx"@ {
        Some("bpy.ops.export_scene.fbx(filepath=_path, use_selection=True)"@)
    } else if format == "obj"@ {
        Some("bpy.ops.wm.obj_export(filepath=_path, export_selected_objects=True, export_materials=False)"@)
    } else if format == "usd"@ || format == "usdz"@ {
        Some("bpy.ops.wm.usd_export(filepath=_path, selected_objects_only=True)"@)
    } else {
        None
    }
}

/// The operator that exports the selection in `format`.
pub fn export_operator(format: &str) -> (r: Result<String, McpError>)
    ensures
        match r {
            Ok(op) => export_operator_text(format@) == Some(op@),
            Err(e) => e is InvalidRequest && export_operator_text(format@) is None,
        },
{
    if str_eq(format, "glb") {
        Ok(String::from_str("bpy.ops.export_scene.gltf(filepath=_path, export_format='GLB', use_selection=True)"))
    } else if str_eq(format, "gltf") {
        Ok(String::from_str("bpy.ops.export_scene.gltf(filepath=_path, export_format='GLTF_EMBEDDED', use_selection=True)"))
    } else if str_eq(format, "fbx") {
        Ok(String::from_str("bpy.ops.export_scene.fbx(filepath=_path, use_selection=True)"))
    } else if str_eq(format, "obj") {
        Ok(String::from_str("bpy.ops.wm.obj_export(filepath=_path, export_selected_objects=True, export_materials=False)"))
    } else if str_eq(format, "usd") || str_eq(format, "usdz") {
        Ok(String::from_str("bpy.ops.wm.usd_export(filepath=_path, selected_objects_only=True)"))
    } else {
        Err(invalid("unsupported Blender export format"))
    }
}

/// The media type an export format registers as.
pub open spec fn export_media_type(format: Seq<char>) -> Seq<char> {
    if format == "glb"@ {
        "model/gltf-binary"@
    } else if format == "gltf"@ {
        "model/gltf+json"@
    } else if format == "fbx"@ {
        "application/vnd.autodesk.fbx"@
    } else if format == "obj"@ {
        "model/obj"@
    } else if format == "usd"@ {
        "model/vnd.usd"@
    } else {
        "model/vnd.usdz+zip"@
    }
}

/// Formats that can carry animation.
pub open spec fn animation_capable(format: Seq<char>) -> bool {
    format == "glb"@ || format == "gltf"@ || format == "fbx"@ || format == "usd"@ || format == "usdz"@
}

/// Everything an export needs besides the bridge call.
pub struct ExportPlan {
    pub relative_path: String,
    pub media_type: String,
    pub role: String,
    pub artifact_kind: String,
    pub operator: String,
}

pub open spec fn export_scope(output_scope: Seq<char>) -> BlenderArtifactScope {
    if output_scope == "animation"@ { BlenderArtifactScope::Animation } else { BlenderArtifactScope::Export }
}

/// Whether an export of `selection_len` objects in `format` to `file_name` is refused.
pub open spec fn export_refused(selection_len: int, format: Seq<char>, output_scope: Seq<char>, file_name: Seq<char>) -> bool {
    ||| selection_len == 0
    ||| selection_len > 128
    ||| export_extension(format) is None
    ||| !seq_ends_with(ascii_lower_seq(file_name), "."@ + export_extension(format)->0)
    ||| !(output_scope == "export"@ || (output_scope == "animation"@ && animation_capable(format)))
    ||| !is_leaf_name(file_name)
}

/// Plans an export: the format fixes the file extension, the media type and the
/// operator; an animation export needs a format that carries animation.
pub fn plan_export(selection_len: usize, format: &str, output_scope: &str, file_name: &str) -> (r: Result<ExportPlan, McpError>)
    ensures
        match r {
            Ok(p) => {
                &&& !export_refused(selection_len as int, format@, output_scope@, file_name@)
                &&& p.relative_path@ == scope_dir(export_scope(output_scope@)) + "/"@ + file_name@
                &&& p.media_type@ == export_media_type(format@)
                &&& p.role@ == (if output_scope@ == "animation"@ { "blender_animation_export"@ } else { "blender_export"@ })
                &&& p.artifact_kind@ == "blender_"@ + output_scope@ + "_"@ + format@
                &&& export_operator_text(format@) == Some(p.operator@)
            },
            Err(e) => e is InvalidRequest && export_refused(selection_len as int, format@, output_scope@, file_name@),
        },
{
    proof {
        reveal_strlit("glb");
        reveal_strlit("gltf");
        reveal_strlit("fbx");
        reveal_strlit("obj");
        reveal_strlit("usd");
        reveal_strlit("usdz");
        reveal_strlit("animation");
        reveal_strlit("export");
    }
    if selection_len == 0 || selection_len > 128 {
        return Err(invalid("Blender export selection is outside allowed bounds"));
    }
    let known = str_eq(format, "glb") || str_eq(format, "gltf") || str_eq(format, "fbx") || str_eq(format, "obj")
        || str_eq(format, "usd") || str_eq(format, "usdz");
    if !known {
        return Err(invalid("unsupported Blender export format"));
    }
    let mut dotted = String::from_str(".");
    dotted.append(format);
    let lower = to_ascii_lower(file_name);
    if !ends_with(lower.as_str(), dotted.as_str()) {
        return Err(invalid("Blender export file extension does not match the selected format"));
    }
    let capable = str_eq(format, "glb") || str_eq(format, "gltf") || str_eq(format, "fbx") || str_eq(format, "usd")
        || str_eq(format, "usdz");
    let is_animation = str_eq(output_scope, "animation");
    let scope = if str_eq(output_scope, "export") {
        BlenderArtifactScope::Export
    } else if is_animation && capable {
        BlenderArtifactScope::Animation
    } else if is_animation {
        return Err(invalid("Blender animation export requires an animation-capable reviewed format"));
    } else {
        return Err(invalid("Blender export output_scope must be export or animation"));
    };
    let relative_path = artifact_relative_path(scope, file_name)?;
    let media_type = if str_eq(format, "glb") {
        String::from_str("model/gltf-binary")
    } else if str_eq(format, "gltf") {
        String::from_str("model/gltf+json")
    } else if str_eq(format, "fbx") {
        String::from_str("application/vnd.autodesk.fbx")
    } else if str_eq(format, "obj") {
        String::from_str("model/obj")
    } else if str_eq(format, "usd") {
        String::from_str("model/vnd.usd")
    } else {
        String::from_str("model/vnd.usdz+zip")
    };
    let role = if is_animation { String::from_str("blender_animation_export") } else { String::from_str("blender_export") };
    let mut artifact_kind = String::from_str("blender_");
    artifact_kind.append(output_scope);
    artifact_kind.append("_");
    artifact_kind.append(format);
    let operator = export_operator(format)?;
    Ok(ExportPlan { relative_path, media_type, role, artifact_kind, operator })
}

} // verus!

verus! {

use crate::assets::{AssetEntry, AssetRegistrationInput, register_asset, registration_refused, registered_entry};
use crate::contracts::{AssetSource, AssetState, AssetSurface};

/// An output that a Blender operation wrote and that the project registers.
pub struct GeneratedOutputRegistration<'a> {
    pub relative_path: &'a str,
    pub media_type: &'a str,
    pub role: &'a str,
    pub artifact_kind: &'a str,
    pub parent_asset_id: Option<String>,
}

/// The registration of a Blender output of `file_bytes` bytes with digest `checksum`:
/// a generated candidate from the Blender surface.
pub open spec fn generated_input(reg: GeneratedOutputRegistration, file_bytes: u64, checksum: String, input: AssetRegistrationInput) -> bool {
    &&& input.relative_path@ == reg.relative_path@
    &&& input.file_bytes == file_bytes
    &&& input.checksum_sha256 == checksum
    &&& input.media_type@ == reg.media_type@
    &&& input.role@ == reg.role@
    &&& input.source == AssetSource::GeneratedAsset
    &&& input.source_surface == AssetSurface::Blender
    &&& input.state == AssetState::Candidate
    &&& input.job_id is None
    &&& input.parent_asset_id == reg.parent_asset_id
    &&& input.element_id is None
    &&& input.dependency_element_ids@.len() == 0
    &&& input.artifact_kind matches Some(k) && k@ == reg.artifact_kind@
    &&& input.artifact_version is None
}

/// Registers a verified Blender output as a generated candidate asset.
pub fn register_generated_output(
    assets: &mut Vec<AssetEntry>,
    job_ids: &Vec<String>,
    element_ids: &Vec<String>,
    registration: GeneratedOutputRegistration,
    file_bytes: u64,
    checksum_sha256: String,
) -> (r: Result<String, McpError>)
    ensures
        exists|input: AssetRegistrationInput| generated_input(registration, file_bytes, checksum_sha256, input) && {
            &&& (r is Err <==> registration_refused(old(assets)@, job_ids@, element_ids@, input))
            &&& (r is Err ==> final(assets)@ == old(assets)@)
            &&& (r matches Ok(id) ==> final(assets)@.drop_last() == old(assets)@
                && exists|now: u128| registered_entry(input, id@, final(assets)@.last(), now))
        },
{
    let input = AssetRegistrationInput {
        relative_path: registration.relative_path.to_owned(),
        file_bytes,
        checksum_sha256,
        media_type: registration.media_type.to_owned(),
        role: registration.role.to_owned(),
        source: AssetSource::GeneratedAsset,
        source_surface: AssetSurface::Blender,
        state: AssetState::Candidate,
        job_id: None,
        parent_asset_id: registration.parent_asset_id,
        element_id: None,
        dependency_element_ids: Vec::new(),
        artifact_kind: Some(registration.artifact_kind.to_owned()),
        artifact_version: None,
    };
    let ghost g = input;
    let r = register_asset(assets, job_ids, element_ids, input);
    assert(generated_input(registration, file_bytes, checksum_sha256, g));
    r
}

} // verus!

verus! {

use crate::outside::{sha256_digest, sha256_of};
use crate::text::{hex_encode, hex_lower};

/// Bytes that are what an asset was registered with: as many, with the same SHA-256
/// digest.
pub open spec fn matches_provenance(bytes: Seq<u8>, a: AssetEntry) -> bool {
    bytes.len() == a.bytes && hex_lower(sha256_of(bytes)) == a.checksum_sha256@
}

/// Whether `bytes` are what `asset` was registered with.
pub fn bytes_match_provenance(bytes: &[u8], asset: &AssetEntry) -> (r: bool)
    ensures
        r == matches_provenance(bytes@, *asset),
{
    if bytes.len() as u64 != asset.bytes {
        return false;
    }
    let digest = sha256_digest(bytes);
    let hex = hex_encode(&digest);
    str_eq(hex.as_str(), asset.checksum_sha256.as_str())
}

/// The registration of a Blender copy of `source` for `purpose` at `relative_path`: a
/// candidate from the Blender surface whose parent is the source.
pub open spec fn materialized_input(source: AssetEntry, purpose: Seq<char>, relative_path: Seq<char>, input: AssetRegistrationInput) -> bool {
    &&& input.relative_path@ == relative_path
    &&& input.file_bytes == source.bytes
    &&& input.checksum_sha256 == source.checksum_sha256
    &&& input.media_type == source.media_type
    &&& input.role@ == "blender_"@ + purpose
    &&& input.source == AssetSource::BlenderMaterialized
    &&& input.source_surface == AssetSurface::Blender
    &&& input.state == AssetState::Candidate
    &&& input.job_id is None
    &&& input.parent_asset_id matches Some(p) && p@ == source.asset_id@
    &&& input.element_id == source.element_id
    &&& input.dependency_element_ids@ == source.dependency_element_ids@
    &&& input.artifact_kind matches Some(k) && k@ == "blender_materialized"@
    &&& input.artifact_version == source.artifact_version
}

/// The registration of a Blender copy of `source`.
pub fn materialized_registration(source: &AssetEntry, purpose: &str, relative_path: &str) -> (input: AssetRegistrationInput)
    ensures
        materialized_input(*source, purpose@, relative_path@, input),
{
    let mut role = String::from_str("blender_");
    role.append(purpose);
    let element_id = match &source.element_id { Some(e) => Some(e.clone()), None => None };
    let artifact_version = match &source.artifact_version { Some(v) => Some(v.clone()), None => None };
    AssetRegistrationInput {
        relative_path: relative_path.to_owned(),
        file_bytes: source.bytes,
        checksum_sha256: source.checksum_sha256.clone(),
        media_type: source.media_type.clone(),
        role,
        source: AssetSource::BlenderMaterialized,
        source_surface: AssetSurface::Blender,
        state: AssetState::Candidate,
        job_id: None,
        parent_asset_id: Some(source.asset_id.clone()),
        element_id,
        dependency_element_ids: crate::assets::copy_strings(&source.dependency_element_ids),
        artifact_kind: Some(String::from_str("blender_materialized")),
        artifact_version,
    }
}

} // verus!
