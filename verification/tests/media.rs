use image::{ImageFormat, RgbaImage as Buffer};
use rust_tools::media::{
    apply_reference_tint, enforce_dimensions, invert, load_asset_image, overlay_centered, procedural_image,
    prompt_seed, raster_capability, raster_role, remove_background, render_raster, requested_dimensions,
    variant_seed, DimensionParam, RasterCapability, RasterParams, RasterSources, RgbaImage,
};
use std::io::Cursor;

fn counting_seed() -> Vec<u8> {
    (0u8..32).collect()
}

fn png(width: u32, height: u32, pixels: Vec<u8>) -> Vec<u8> {
    let buffer = Buffer::from_raw(width, height, pixels).unwrap();
    let mut out = Cursor::new(Vec::new());
    buffer.write_to(&mut out, ImageFormat::Png).unwrap();
    out.into_inner()
}

fn decode(bytes: &[u8]) -> (u32, u32, Vec<u8>) {
    let img = image::load_from_memory(bytes).unwrap().to_rgba8();
    (img.width(), img.height(), img.into_raw())
}

fn params(asset_id: Option<&str>) -> RasterParams {
    RasterParams {
        element_id: None,
        asset_id: asset_id.map(|s| s.to_string()),
        mask_asset_id: None,
        reference_asset_ids: None,
        width: DimensionParam::Absent,
        height: DimensionParam::Absent,
        prompt: None,
    }
}

#[test]
fn procedural_pixels_come_from_the_seed() {
    let img = procedural_image(2, 2, &counting_seed());
    assert_eq!((img.width, img.height), (2, 2));
    assert_eq!(img.pixels, vec![0, 0, 0, 255, 1, 3, 7, 255, 1, 5, 11, 255, 2, 8, 18, 255]);
}

#[test]
fn colour_operations() {
    let mut img = RgbaImage { width: 1, height: 2, pixels: vec![1, 3, 7, 200, 250, 245, 241, 255] };
    apply_reference_tint(&mut img, &counting_seed());
    assert_eq!(img.pixels, vec![0, 2, 5, 200, 187, 184, 181, 255]);
    invert(&mut img);
    assert_eq!(img.pixels, vec![255, 253, 250, 200, 68, 71, 74, 255]);
    let mut white = RgbaImage { width: 2, height: 1, pixels: vec![240, 240, 240, 255, 239, 255, 255, 255] };
    remove_background(&mut white);
    assert_eq!(white.pixels, vec![240, 240, 240, 0, 239, 255, 255, 255]);
}

#[test]
fn overlay_is_centered() {
    let canvas = RgbaImage { width: 3, height: 3, pixels: vec![0; 36] };
    let source = RgbaImage { width: 1, height: 1, pixels: vec![9, 9, 9, 9] };
    let out = overlay_centered(&canvas, &source);
    let mut expected = vec![0u8; 36];
    expected[16..20].copy_from_slice(&[9, 9, 9, 9]);
    assert_eq!(out.pixels, expected);
}

#[test]
fn dimensions_and_names() {
    assert!(enforce_dimensions(4096, 4096).is_ok());
    assert!(enforce_dimensions(0, 10).is_err());
    assert!(enforce_dimensions(4097, 1).is_err());
    assert_eq!(requested_dimensions(DimensionParam::Absent, DimensionParam::Integer(20), 10, 10).unwrap(), (10, 20));
    assert!(requested_dimensions(DimensionParam::NotInteger, DimensionParam::Absent, 10, 10).is_err());
    assert!(requested_dimensions(DimensionParam::Integer(5000), DimensionParam::Absent, 10, 10).is_err());
    assert_eq!(raster_role("image.remove_background"), "image_remove_background");
    assert_eq!(raster_capability("image.edit"), Some(RasterCapability::Edit));
    assert_eq!(raster_capability("image.unknown"), None);
}

#[test]
fn seeds_are_digests() {
    let abc = prompt_seed(Some("abc"));
    assert_eq!(abc[0..4].to_vec(), vec![0xba, 0x78, 0x16, 0xbf]);
    let empty = prompt_seed(None);
    assert_eq!(empty, prompt_seed(Some("")));
    assert_eq!(empty[0..2].to_vec(), vec![0xe3, 0xb0]);
    let v0 = variant_seed(Some("cat"), "wf", "a", 0);
    let v1 = variant_seed(Some("cat"), "wf", "a", 1);
    assert_eq!(v0.len(), 32);
    assert_ne!(v0, v1);
}

#[test]
fn loaded_images_keep_their_pixels() {
    let bytes = png(2, 1, vec![10, 20, 30, 255, 40, 50, 60, 128]);
    let img = load_asset_image(&bytes).unwrap();
    assert_eq!((img.width, img.height), (2, 1));
    assert_eq!(img.pixels, vec![10, 20, 30, 255, 40, 50, 60, 128]);
    assert!(load_asset_image(b"not an image").is_err());
}

#[test]
fn rendered_edits_are_png() {
    let bytes = png(2, 1, vec![10, 20, 30, 255, 40, 50, 60, 128]);
    let sources = RasterSources { parent: Some("a1".to_string()), mask: None };
    let out = render_raster(RasterCapability::Edit, "image.edit", &params(Some("a1")), &sources, &bytes, &[]).unwrap();
    assert_eq!((out.width, out.height), (2, 1));
    assert_eq!(out.role, "image_edit");
    assert_eq!(out.parent_asset_id.as_deref(), Some("a1"));
    assert_eq!(decode(&out.bytes), (2, 1, vec![245, 235, 225, 255, 215, 205, 195, 128]));
    let generated = render_raster(
        RasterCapability::Generate,
        "image.generate",
        &RasterParams { width: DimensionParam::Integer(2), height: DimensionParam::Integer(2), ..params(None) },
        &RasterSources { parent: None, mask: None },
        &[],
        &[],
    )
    .unwrap();
    let seed = prompt_seed(None);
    assert_eq!(decode(&generated.bytes).2, procedural_image(2, 2, &seed).pixels);
    assert!(render_raster(RasterCapability::Edit, "image.edit", &params(Some("a1")), &sources, b"junk", &[]).is_err());
}
