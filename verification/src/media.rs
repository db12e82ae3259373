//! The rules for a character's focus workspace media: where its files lie,
//! which images it accepts, and how a 2×2 views image is cut into its four
//! views.

use vstd::prelude::*;
use crate::action::{owned, str_eq};
use crate::project::joined_path;
use crate::gates::join;

verus! {

/// The most bytes of a feedback image.
pub const MAX_FEEDBACK_IMAGE_BYTES: usize = 16777216;

/// The most pixels of a feedback image.
pub const MAX_FEEDBACK_IMAGE_PIXELS: u64 = 40000000;

/// The most bytes of a generated image taken into the workspace.
pub const MAX_GENERATED_IMAGE_BYTES: usize = 33554432;

/// The image formats the workspace takes.
#[derive(Debug, Clone, Copy, PartialEq, Eq, Structural)]
pub enum ImageKind {
    Png,
    Jpeg,
    WebP,
    /// Any other format an image's content shows.
    Other,
}

/// The file extension of an accepted format.
pub open spec fn extension_text(kind: ImageKind) -> Seq<char> {
    match kind {
        ImageKind::Png => "png"@,
        ImageKind::Jpeg => "jpg"@,
        ImageKind::WebP => "webp"@,
        ImageKind::Other => Seq::empty(),
    }
}

fn extension(kind: ImageKind) -> (r: &'static str)
    requires
        kind != ImageKind::Other,
    ensures
        r@ == extension_text(kind),
{
    match kind {
        ImageKind::Png => "png",
        ImageKind::Jpeg => "jpg",
        ImageKind::WebP => "webp",
        ImageKind::Other => "",
    }
}

/// The format a feedback image declares by its MIME type, if it is one the
/// workspace takes.
pub open spec fn declared_kind(mime: Seq<char>) -> Option<ImageKind> {
    if mime == "image/png"@ {
        Some(ImageKind::Png)
    } else if mime == "image/jpeg"@ {
        Some(ImageKind::Jpeg)
    } else if mime == "image/webp"@ {
        Some(ImageKind::WebP)
    } else {
        None
    }
}

/// The format a feedback image of `byte_len` bytes must show, by its declared
/// MIME type; the image is then read to see what its content shows.
pub fn feedback_image_kind(mime: &str, byte_len: usize) -> (r: Result<ImageKind, String>)
    ensures
        byte_len == 0 || byte_len > MAX_FEEDBACK_IMAGE_BYTES ==> (r matches Err(m) && m@
            == "feedback image is empty or exceeds 16 MiB"@),
        0 < byte_len <= MAX_FEEDBACK_IMAGE_BYTES ==> match declared_kind(mime@) {
            Some(k) => r == Ok::<ImageKind, String>(k),
            None => r matches Err(m) && m@ == "feedback image must be PNG, JPEG, or WebP"@,
        },
{
    if byte_len == 0 || byte_len > MAX_FEEDBACK_IMAGE_BYTES {
        return Err(owned("feedback image is empty or exceeds 16 MiB"));
    }
    if str_eq(mime, "image/png") {
        Ok(ImageKind::Png)
    } else if str_eq(mime, "image/jpeg") {
        Ok(ImageKind::Jpeg)
    } else if str_eq(mime, "image/webp") {
        Ok(ImageKind::WebP)
    } else {
        Err(owned("feedback image must be PNG, JPEG, or WebP"))
    }
}

/// Checks what a feedback image's content shows against its declared format:
/// the same format, and no more than the pixel limit. Gives the extension it
/// is kept under.
pub fn check_feedback_image(expected: ImageKind, shown: Option<ImageKind>, width: u32, height: u32) -> (r: Result<
    &'static str,
    String,
>)
    requires
        expected != ImageKind::Other,
    ensures
        shown != Some(expected) ==> (r matches Err(m) && m@ == "feedback image MIME does not match its file content"@),
        shown == Some(expected) && width * height > MAX_FEEDBACK_IMAGE_PIXELS ==> (r matches Err(m) && m@
            == "feedback image exceeds the pixel limit"@),
        shown == Some(expected) && width * height <= MAX_FEEDBACK_IMAGE_PIXELS ==> (r matches Ok(e) && e@
            == extension_text(expected)),
{
    if shown != Some(expected) {
        return Err(owned("feedback image MIME does not match its file content"));
    }
    assert(width as u64 * height as u64 <= 0xffff_ffff_u64 * 0xffff_ffff_u64) by (nonlinear_arith);
    let pixels: u64 = width as u64 * height as u64;
    if pixels > MAX_FEEDBACK_IMAGE_PIXELS {
        return Err(owned("feedback image exceeds the pixel limit"));
    }
    Ok(extension(expected))
}

/// The extension a generated image of `byte_len` bytes is archived under,
/// by the format its content shows.
pub fn generated_media_extension(byte_len: usize, shown: ImageKind) -> (r: Result<&'static str, String>)
    ensures
        byte_len == 0 || byte_len > MAX_GENERATED_IMAGE_BYTES ==> (r matches Err(m) && m@
            == "generated image is empty or exceeds 32 MiB"@),
        0 < byte_len <= MAX_GENERATED_IMAGE_BYTES ==> (if shown == ImageKind::Other {
            r matches Err(m) && m@ == "generated media must be PNG, JPEG, or WebP"@
        } else {
            r matches Ok(e) && e@ == extension_text(shown)
        }),
{
    if byte_len == 0 || byte_len > MAX_GENERATED_IMAGE_BYTES {
        return Err(owned("generated image is empty or exceeds 32 MiB"));
    }
    if shown == ImageKind::Other {
        return Err(owned("generated media must be PNG, JPEG, or WebP"));
    }
    Ok(extension(shown))
}

/// The name a workspace file is kept under: its content hash and extension.
pub fn media_file_name(hash: &str, extension: &str) -> (r: String)
    ensures
        r@ == hash@ + "."@ + extension@,
{
    let mut name = owned(hash);
    name.append(".");
    name.append(extension);
    name
}

// --- the workspace ------------------------------------------------------------------------

/// The focus workspace of a character: `tmp/focus` in its directory.
pub open spec fn focus_root(project_root: Seq<char>, dir_name: Seq<char>) -> Seq<char> {
    joined_path(joined_path(project_root, dir_name), "tmp/focus"@)
}

/// The directory of the workspace's media for `stage`, if the stage keeps
/// media: the renders and the views.
pub open spec fn stage_media_dir(project_root: Seq<char>, dir_name: Seq<char>, stage: Seq<char>) -> Option<Seq<char>> {
    if stage == "render"@ {
        Some(joined_path(focus_root(project_root, dir_name), "media/render"@))
    } else if stage == "views"@ {
        Some(joined_path(focus_root(project_root, dir_name), "media/views"@))
    } else {
        None
    }
}

/// Where a character's focus workspace lies.
pub fn focus_workspace(project_root: &str, dir_name: &str) -> (r: String)
    ensures
        r@ == focus_root(project_root@, dir_name@),
{
    let character = join(project_root, dir_name);
    join(character.as_str(), "tmp/focus")
}

/// Where the workspace keeps media of `stage`.
pub fn stage_media(project_root: &str, dir_name: &str, stage: &str) -> (r: Result<String, String>)
    ensures
        match stage_media_dir(project_root@, dir_name@, stage@) {
            Some(d) => r matches Ok(x) && x@ == d,
            None => r matches Err(m) && m@ == "unsupported focus media stage"@,
        },
{
    let focus = focus_workspace(project_root, dir_name);
    if str_eq(stage, "render") {
        Ok(join(focus.as_str(), "media/render"))
    } else if str_eq(stage, "views") {
        Ok(join(focus.as_str(), "media/views"))
    } else {
        Err(owned("unsupported focus media stage"))
    }
}

/// Where a feedback image is kept, relative to the project: in the focus
/// workspace's `media/references`, named by the hexadecimal SHA-256 digest of
/// its bytes and the extension of its format.
pub open spec fn feedback_image_path_text(dir_name: Seq<char>, bytes: Seq<u8>, extension: Seq<char>) -> Seq<char> {
    joined_path(
        joined_path(joined_path(dir_name, "tmp/focus"@), "media/references"@),
        crate::text::hex_lower(crate::audit::sha256_digest(bytes)) + "."@ + extension,
    )
}

/// The path, relative to the project, under which the feedback image `bytes`
/// of a character is kept.
pub fn feedback_image_path(dir_name: &str, bytes: &[u8], extension: &str) -> (r: String)
    ensures
        r@ == feedback_image_path_text(dir_name@, bytes@, extension@),
{
    let hash = crate::audit::bytes_hash(bytes);
    let name = media_file_name(hash.as_str(), extension);
    let focus = join(dir_name, "tmp/focus");
    let references = join(focus.as_str(), "media/references");
    join(references.as_str(), name.as_str())
}

// --- cutting a views image -----------------------------------------------------------------

/// Where each view lies in a 2×2 views image, by column and row; the side
/// views are named from the character's own facing.
pub open spec fn quad_cell(i: int) -> (Seq<char>, nat, nat) {
    if i == 0 {
        ("front"@, 0, 0)
    } else if i == 1 {
        ("right"@, 1, 0)
    } else if i == 2 {
        ("back"@, 0, 1)
    } else {
        ("left"@, 1, 1)
    }
}

/// One view cut from a views image: its name and its rectangle.
#[derive(Debug, Clone, PartialEq, Eq)]
pub struct QuadCrop {
    pub view: String,
    pub x: u32,
    pub y: u32,
    pub width: u32,
    pub height: u32,
}

/// The four views cut from a `width`×`height` views image, in the order
/// front, right, back, left; both sides must be even.
pub fn quad_crops(width: u32, height: u32) -> (r: Result<Vec<QuadCrop>, String>)
    ensures
        (width < 2 || height < 2 || width % 2 != 0 || height % 2 != 0) ==> (r matches Err(m) && m@
            == "quad view image dimensions must be even"@),
        !(width < 2 || height < 2 || width % 2 != 0 || height % 2 != 0) ==> (r matches Ok(v) && v@.len() == 4
            && forall|i: int| 0 <= i < 4 ==> {
                let (name, column, row) = quad_cell(i);
                &&& (#[trigger] v@[i]).view@ == name
                &&& v@[i].x == (if column == 1 { width / 2 } else { 0 })
                &&& v@[i].y == (if row == 1 { height / 2 } else { 0 })
                &&& v@[i].width == width / 2
                &&& v@[i].height == height / 2
            }),
{
    if width < 2 || height < 2 || width % 2 != 0 || height % 2 != 0 {
        return Err(owned("quad view image dimensions must be even"));
    }
    let w = width / 2;
    let h = height / 2;
    let mut v: Vec<QuadCrop> = Vec::new();
    v.push(QuadCrop { view: owned("front"), x: 0, y: 0, width: w, height: h });
    v.push(QuadCrop { view: owned("right"), x: w, y: 0, width: w, height: h });
    v.push(QuadCrop { view: owned("back"), x: 0, y: h, width: w, height: h });
    v.push(QuadCrop { view: owned("left"), x: w, y: h, width: w, height: h });
    proof {
        reveal_strlit("front");
        assert forall|i: int| 0 <= i < 4 implies {
            let (name, column, row) = quad_cell(i);
            &&& (#[trigger] v@[i]).view@ == name
            &&& v@[i].x == (if column == 1 { width / 2 } else { 0 })
            &&& v@[i].y == (if row == 1 { height / 2 } else { 0 })
            &&& v@[i].width == width / 2
            &&& v@[i].height == height / 2
        } by {
            if i == 0 {
            } else if i == 1 {
            } else if i == 2 {
            } else {
            }
        }
    }
    Ok(v)
}

/// The four views of a views image tile it exactly: each rectangle stays
/// inside the image, and no two views take the same cell.
pub proof fn law_quad_views_tile_the_image(width: nat, height: nat, i: int, j: int)
    requires
        width >= 2 && height >= 2 && width % 2 == 0 && height % 2 == 0,
        0 <= i < 4,
        0 <= j < 4,
        i != j,
    ensures
        (if quad_cell(i).1 == 1 { width / 2 } else { 0 }) + width / 2 <= width,
        (if quad_cell(i).2 == 1 { height / 2 } else { 0 }) + height / 2 <= height,
        quad_cell(i).1 != quad_cell(j).1 || quad_cell(i).2 != quad_cell(j).2,
{
}

} // verus!
