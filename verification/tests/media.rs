use game_runtime::media::{
    check_feedback_image, feedback_image_kind, feedback_image_path, focus_workspace, generated_media_extension,
    media_file_name, quad_crops, stage_media, ImageKind, MAX_FEEDBACK_IMAGE_BYTES,
};

#[test]
fn feedback_images_must_be_what_they_declare() {
    assert_eq!(feedback_image_kind("image/png", 10), Ok(ImageKind::Png));
    assert_eq!(feedback_image_kind("image/jpeg", 10), Ok(ImageKind::Jpeg));
    assert_eq!(feedback_image_kind("image/webp", 10), Ok(ImageKind::WebP));
    assert_eq!(
        feedback_image_kind("image/gif", 10),
        Err("feedback image must be PNG, JPEG, or WebP".to_string())
    );
    assert_eq!(
        feedback_image_kind("image/png", 0),
        Err("feedback image is empty or exceeds 16 MiB".to_string())
    );
    assert_eq!(
        feedback_image_kind("image/png", MAX_FEEDBACK_IMAGE_BYTES + 1),
        Err("feedback image is empty or exceeds 16 MiB".to_string())
    );
    assert_eq!(check_feedback_image(ImageKind::Jpeg, Some(ImageKind::Jpeg), 2, 2), Ok("jpg"));
    assert_eq!(
        check_feedback_image(ImageKind::Jpeg, Some(ImageKind::Png), 2, 2),
        Err("feedback image MIME does not match its file content".to_string())
    );
    assert_eq!(
        check_feedback_image(ImageKind::Png, None, 2, 2),
        Err("feedback image MIME does not match its file content".to_string())
    );
    assert_eq!(check_feedback_image(ImageKind::Png, Some(ImageKind::Png), 8000, 5000), Ok("png"));
    assert_eq!(
        check_feedback_image(ImageKind::Png, Some(ImageKind::Png), 8000, 5001),
        Err("feedback image exceeds the pixel limit".to_string())
    );
    assert_eq!(
        check_feedback_image(ImageKind::WebP, Some(ImageKind::WebP), u32::MAX, u32::MAX),
        Err("feedback image exceeds the pixel limit".to_string())
    );
}

#[test]
fn generated_media_is_archived_by_format() {
    assert_eq!(generated_media_extension(100, ImageKind::WebP), Ok("webp"));
    assert_eq!(
        generated_media_extension(100, ImageKind::Other),
        Err("generated media must be PNG, JPEG, or WebP".to_string())
    );
    assert_eq!(
        generated_media_extension(0, ImageKind::Png),
        Err("generated image is empty or exceeds 32 MiB".to_string())
    );
    assert_eq!(media_file_name("ab12", "png"), "ab12.png");
    assert_eq!(
        focus_workspace("/game", "characters/heroes/wukong"),
        "/game/characters/heroes/wukong/tmp/focus"
    );
    assert_eq!(
        stage_media("/game", "characters/wukong", "views"),
        Ok("/game/characters/wukong/tmp/focus/media/views".to_string())
    );
    assert_eq!(
        stage_media("/game", "characters/wukong", "spec"),
        Err("unsupported focus media stage".to_string())
    );
}

#[test]
fn a_views_image_is_cut_into_four_views() {
    let crops = quad_crops(4, 6).unwrap();
    let cells: Vec<(&str, u32, u32, u32, u32)> = crops
        .iter()
        .map(|c| (c.view.as_str(), c.x, c.y, c.width, c.height))
        .collect();
    assert_eq!(
        cells,
        vec![
            ("front", 0, 0, 2, 3),
            ("right", 2, 0, 2, 3),
            ("back", 0, 3, 2, 3),
            ("left", 2, 3, 2, 3),
        ]
    );
    for (w, h) in [(5, 4), (4, 5), (0, 4), (1, 1)] {
        assert_eq!(
            quad_crops(w, h),
            Err("quad view image dimensions must be even".to_string())
        );
    }
}

/// The bytes of a small PNG image: its signature and a header chunk that
/// declares 2×2 pixels.
fn png_bytes() -> Vec<u8> {
    let mut bytes = vec![0x89, b'P', b'N', b'G', 0x0d, 0x0a, 0x1a, 0x0a];
    bytes.extend_from_slice(&[0, 0, 0, 13, b'I', b'H', b'D', b'R', 0, 0, 0, 2, 0, 0, 0, 2, 8, 2, 0, 0, 0]);
    bytes
}

#[test]
fn feedback_image_validates_declared_mime() {
    let bytes = png_bytes();
    // what the image's content shows, as the image reader sees it
    let shown = Some(ImageKind::Png);

    let declared = feedback_image_kind("image/jpeg", bytes.len()).expect("a supported type");
    assert!(check_feedback_image(declared, shown, 2, 2).is_err());

    let declared = feedback_image_kind("image/png", bytes.len()).expect("a supported type");
    let extension = check_feedback_image(declared, shown, 2, 2).expect("save feedback image");
    let path = feedback_image_path("hero", &bytes, extension);
    assert!(path.contains("tmp/focus/media/references/"));
    assert!(path.starts_with("hero/tmp/focus/media/references/"));
    assert!(path.ends_with(".png"));
    assert_eq!(path.len() - "hero/tmp/focus/media/references/".len() - ".png".len(), 64);
}

type Pixel = [u8; 4];

/// Cuts the `width`×`height` rectangle at (`x`, `y`) out of `image`, a row-major
/// grid of `image_width` columns.
fn cut(image: &[Pixel], image_width: u32, x: u32, y: u32, width: u32, height: u32) -> Vec<Vec<Pixel>> {
    (y..y + height)
        .map(|row| {
            (x..x + width)
                .map(|column| image[(row * image_width + column) as usize])
                .collect()
        })
        .collect()
}

#[test]
fn splits_quad_into_named_png_views() {
    let mut quad: Vec<Pixel> = vec![[0, 0, 0, 0]; 16];
    let colors = [
        ("front", 0u32, 0u32, [255, 0, 0, 255]),
        ("right", 2, 0, [0, 255, 0, 255]),
        ("back", 0, 2, [0, 0, 255, 255]),
        ("left", 2, 2, [255, 255, 0, 255]),
    ];
    for (_, origin_x, origin_y, color) in colors {
        for y in origin_y..origin_y + 2 {
            for x in origin_x..origin_x + 2 {
                quad[(y * 4 + x) as usize] = color;
            }
        }
    }
    let crops = quad_crops(4, 4).expect("split quad image");
    let actual = crops
        .iter()
        .map(|c| {
            let view = cut(&quad, 4, c.x, c.y, c.width, c.height);
            (
                c.view.as_str(),
                (view[0].len() as u32, view.len() as u32),
                view[0][0],
            )
        })
        .collect::<Vec<_>>();
    assert_eq!(
        actual,
        vec![
            ("front", (2, 2), [255, 0, 0, 255]),
            ("right", (2, 2), [0, 255, 0, 255]),
            ("back", (2, 2), [0, 0, 255, 255]),
            ("left", (2, 2), [255, 255, 0, 255]),
        ]
    );
    let names = colors.iter().map(|(view, _, _, _)| format!("views-{view}.png")).collect::<Vec<_>>();
    assert_eq!(names[0], "views-front.png");
}

#[test]
fn rejects_odd_quad_dimensions_before_writing_outputs() {
    let error = quad_crops(5, 4).expect_err("odd dimensions must be rejected");
    assert_eq!(error, "quad view image dimensions must be even");
}
