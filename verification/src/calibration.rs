//! Screen calibration records and the pixel checks made before a region or a
//! point is normalized against a screenshot.
use vstd::prelude::*;
use crate::text::{join_path, joined, owned};

verus! {

/// The file the calibration is saved in.
pub const CALIBRATION_FILE_NAME: &'static str = "screen-calibration.json";

#[derive(Debug, Clone, Copy, PartialEq, Eq, Structural)]
pub struct ScreenshotSize {
    pub width: u32,
    pub height: u32,
}

#[derive(Debug, Clone, Copy, PartialEq, Eq, Structural)]
pub enum CoordinateSpace {
    Normalized,
}

#[derive(Debug, Clone, Copy, PartialEq, Eq, Structural)]
pub struct PixelRect {
    pub x: u32,
    pub y: u32,
    pub width: u32,
    pub height: u32,
}

/// Where the calibration of an application data directory is kept.
pub open spec fn spec_calibration_config_path(app_data_dir: Seq<char>) -> Seq<char> {
    joined(joined(app_data_dir, "calibration"@), CALIBRATION_FILE_NAME@)
}

/// Where the calibration of an application data directory is kept.
pub fn calibration_config_path(app_data_dir: &str) -> (r: String)
    ensures
        r@ == spec_calibration_config_path(app_data_dir@),
{
    let dir = join_path(app_data_dir, "calibration");
    join_path(dir.as_str(), CALIBRATION_FILE_NAME)
}

/// Why a pixel region cannot be normalized against a screenshot: an empty
/// screenshot, an empty region, or a region reaching past the screenshot (its
/// right and bottom edges computed with saturation).
pub open spec fn spec_pixel_rect_check(x: u32, y: u32, width: u32, height: u32, size: ScreenshotSize) -> Result<(), Seq<char>> {
    if size.width == 0 || size.height == 0 {
        Err("截图尺寸不能为 0"@)
    } else if width == 0 || height == 0 {
        Err("区域尺寸不能为 0"@)
    } else if x.saturating_add(width) > size.width || y.saturating_add(height) > size.height {
        Err("区域超出截图尺寸"@)
    } else {
        Ok(())
    }
}

/// The checks a pixel region passes before it is normalized.
pub fn check_pixel_rect(x: u32, y: u32, width: u32, height: u32, size: ScreenshotSize) -> (r: Result<(), String>)
    ensures
        match (r, spec_pixel_rect_check(x, y, width, height, size)) {
            (Ok(()), Ok(())) => true,
            (Err(e), Err(m)) => e@ == m,
            _ => false,
        },
{
    if size.width == 0 || size.height == 0 {
        return Err(owned("截图尺寸不能为 0"));
    }
    if width == 0 || height == 0 {
        return Err(owned("区域尺寸不能为 0"));
    }
    if x.saturating_add(width) > size.width || y.saturating_add(height) > size.height {
        return Err(owned("区域超出截图尺寸"));
    }
    Ok(())
}

/// Why a pixel point cannot be normalized against a screenshot: an empty
/// screenshot, or a point past its right or bottom edge.
pub open spec fn spec_pixel_point_check(x: u32, y: u32, size: ScreenshotSize) -> Result<(), Seq<char>> {
    if size.width == 0 || size.height == 0 {
        Err("截图尺寸不能为 0"@)
    } else if x > size.width || y > size.height {
        Err("点位超出截图尺寸"@)
    } else {
        Ok(())
    }
}

/// The checks a pixel point passes before it is normalized.
pub fn check_pixel_point(x: u32, y: u32, size: ScreenshotSize) -> (r: Result<(), String>)
    ensures
        match (r, spec_pixel_point_check(x, y, size)) {
            (Ok(()), Ok(())) => true,
            (Err(e), Err(m)) => e@ == m,
            _ => false,
        },
{
    if size.width == 0 || size.height == 0 {
        return Err(owned("截图尺寸不能为 0"));
    }
    if x > size.width || y > size.height {
        return Err(owned("点位超出截图尺寸"));
    }
    Ok(())
}

/// A region that passes the checks, and whose edges do not saturate, lies
/// inside the screenshot and is not empty.
pub proof fn lemma_checked_rect_inside(x: u32, y: u32, width: u32, height: u32, size: ScreenshotSize)
    requires
        spec_pixel_rect_check(x, y, width, height, size) is Ok,
        x + width <= u32::MAX,
        y + height <= u32::MAX,
    ensures
        x + width <= size.width,
        y + height <= size.height,
        width > 0 && height > 0,
{
}

} // verus!
