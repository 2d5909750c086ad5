use vstd::prelude::*;
use crate::error::{invalid, invalid_with, McpError};
use crate::production::text_ok;
use crate::scenes::opt_text_ok;
use crate::text::validate_text;

verus! {

/// The descriptive media metadata of an asset. Its frame rate is a decimal number; what
/// the rules ask of it, that it is finite and from 1 to 240 where given, comes as
/// `frame_rate_within_bounds`.
#[derive(Clone, Debug)]
pub struct AssetMetadata {
    pub width: Option<u32>,
    pub height: Option<u32>,
    pub duration_ms: Option<u64>,
    pub frame_rate_within_bounds: bool,
    pub language: Option<String>,
    pub sample_rate_hz: Option<u32>,
    pub channels: Option<u16>,
    pub artifact_kind: Option<String>,
    pub artifact_version: Option<String>,
    pub license_notes: Option<String>,
}

/// Metadata that a project accepts.
/// The media measures of the metadata are within bounds.
pub open spec fn media_bounds_ok(m: AssetMetadata) -> bool {
    &&& (m.width matches Some(w) ==> 0 < w <= 16384)
    &&& (m.height matches Some(h) ==> 0 < h <= 16384)
    &&& (m.duration_ms matches Some(d) ==> 0 < d <= 86400000)
    &&& m.frame_rate_within_bounds
    &&& (m.sample_rate_hz matches Some(s) ==> 8000 <= s <= 384000)
    &&& (m.channels matches Some(c) ==> 0 < c <= 32)
}

pub open spec fn metadata_ok(m: AssetMetadata) -> bool {
    &&& (m.width matches Some(w) ==> 0 < w <= 16384)
    &&& (m.height matches Some(h) ==> 0 < h <= 16384)
    &&& (m.duration_ms matches Some(d) ==> 0 < d <= 86400000)
    &&& m.frame_rate_within_bounds
    &&& (m.sample_rate_hz matches Some(s) ==> 8000 <= s <= 384000)
    &&& (m.channels matches Some(c) ==> 0 < c <= 32)
    &&& opt_text_ok(m.language, 1, 32)
    &&& opt_text_ok(m.artifact_kind, 1, 64)
    &&& opt_text_ok(m.artifact_version, 1, 128)
    &&& opt_text_ok(m.license_notes, 1, 1024)
}

fn opt_text(v: &Option<String>, max: usize) -> (r: bool)
    ensures
        r == opt_text_ok(*v, 1, max as int),
{
    match v {
        Some(s) => validate_text(s.as_str(), 1, max, "metadata text").is_ok(),
        None => true,
    }
}

/// Checks an asset's media metadata.
pub fn validate_asset_metadata(m: &AssetMetadata) -> (r: Result<(), McpError>)
    ensures
        r is Ok <==> metadata_ok(*m),
        r matches Err(e) ==> invalid_with(e, if media_bounds_ok(*m) {
            "creative asset metadata text is outside allowed bounds"@
        } else {
            "creative asset media metadata is outside allowed bounds"@
        }),
{
    let dims_bad = match m.width { Some(w) => w == 0 || w > 16384, None => false }
        || match m.height { Some(h) => h == 0 || h > 16384, None => false }
        || match m.duration_ms { Some(d) => d == 0 || d > 86400000, None => false }
        || !m.frame_rate_within_bounds
        || match m.sample_rate_hz { Some(s) => s < 8000 || s > 384000, None => false }
        || match m.channels { Some(c) => c == 0 || c > 32, None => false };
    if dims_bad {
        return Err(invalid("creative asset media metadata is outside allowed bounds"));
    }
    if !opt_text(&m.language, 32) || !opt_text(&m.artifact_kind, 64) || !opt_text(&m.artifact_version, 128)
        || !opt_text(&m.license_notes, 1024) {
        return Err(invalid("creative asset metadata text is outside allowed bounds"));
    }
    Ok(())
}

/// Every asset's metadata is accepted.
pub open spec fn all_metadata_ok(ms: Seq<AssetMetadata>) -> bool {
    forall|i: int| 0 <= i < ms.len() ==> metadata_ok(#[trigger] ms[i])
}

/// Whether every asset's metadata is accepted.
pub fn check_asset_metadata(ms: &Vec<AssetMetadata>) -> (r: bool)
    ensures
        r == all_metadata_ok(ms@),
{
    let mut i: usize = 0;
    while i < ms.len()
        invariant
            i <= ms.len(),
            forall|k: int| 0 <= k < i ==> metadata_ok(#[trigger] ms@[k]),
        decreases ms.len() - i,
    {
        if validate_asset_metadata(&ms[i]).is_err() {
            return false;
        }
        i += 1;
    }
    true
}

} // verus!
