use game_runtime::domain::GenerationReviewStatus;
use game_runtime::images::{add_candidate, confirm_images, review_image, ImageRecord};

fn image(id: &str, stage: &str, hash: Option<&str>) -> ImageRecord {
    ImageRecord {
        id: id.to_string(),
        stage: stage.to_string(),
        file_hash: hash.map(str::to_string),
        review_status: GenerationReviewStatus::Pending,
        review_feedback: None,
        reviewed_at: None,
        is_final: false,
    }
}

fn status(images: &[ImageRecord], id: &str) -> GenerationReviewStatus {
    images.iter().find(|i| i.id == id).unwrap().review_status
}

fn is_final(images: &[ImageRecord], id: &str) -> bool {
    images.iter().find(|i| i.id == id).unwrap().is_final
}

#[test]
fn duplicate_images_are_taken_in_once() {
    let mut images = Vec::new();
    assert!(add_candidate(&mut images, image("g1", "render", Some("hash-a")), 1));
    assert!(!add_candidate(&mut images, image("g2", "render", Some("hash-a")), 2));
    assert_eq!(images.len(), 1);
    assert_eq!(status(&images, "g1"), GenerationReviewStatus::Pending);
    assert!(add_candidate(&mut images, image("g3", "views", Some("hash-a")), 3));
    assert!(add_candidate(&mut images, image("g4", "render", None), 4));
    assert!(add_candidate(&mut images, image("g5", "render", None), 5));
    assert_eq!(images.len(), 4);
}

#[test]
fn new_candidates_retire_what_they_replace() {
    let mut images = Vec::new();
    add_candidate(&mut images, image("r1", "render", Some("a")), 1);
    add_candidate(&mut images, image("r2", "render", Some("b")), 2);
    assert_eq!(status(&images, "r1"), GenerationReviewStatus::Superseded);
    assert_eq!(images[0].reviewed_at, Some(2));
    assert_eq!(status(&images, "r2"), GenerationReviewStatus::Pending);

    confirm_images(&mut images, "render", &["r2".to_string()], 3).unwrap();
    add_candidate(&mut images, image("v1", "views", Some("c")), 4);
    confirm_images(&mut images, "views", &["v1".to_string()], 5).unwrap();
    assert!(is_final(&images, "v1") && is_final(&images, "r2"));
    assert!(!is_final(&images, "r1"));

    add_candidate(&mut images, image("r3", "render", Some("d")), 6);
    assert_eq!(status(&images, "v1"), GenerationReviewStatus::Superseded);
    assert!(!is_final(&images, "v1"));
    assert_eq!(status(&images, "r2"), GenerationReviewStatus::Accepted);
}

#[test]
fn only_pending_images_are_reviewed() {
    let mut images = Vec::new();
    add_candidate(&mut images, image("r1", "render", Some("a")), 1);
    review_image(&mut images, "r1", GenerationReviewStatus::RevisionRequested, Some("颜色不对".to_string()), 2)
        .unwrap();
    assert_eq!(status(&images, "r1"), GenerationReviewStatus::RevisionRequested);
    assert_eq!(images[0].review_feedback.as_deref(), Some("颜色不对"));
    assert_eq!(
        review_image(&mut images, "r1", GenerationReviewStatus::Accepted, None, 3),
        Err("generation r1 is not pending".to_string())
    );
    assert_eq!(
        review_image(&mut images, "zz", GenerationReviewStatus::Accepted, None, 3),
        Err("generation zz is not pending".to_string())
    );
}

#[test]
fn confirming_an_unknown_image_changes_nothing() {
    let mut images = Vec::new();
    add_candidate(&mut images, image("r1", "render", Some("a")), 1);
    let before = images.clone();
    assert_eq!(
        confirm_images(&mut images, "render", &["r1".to_string(), "v9".to_string()], 2),
        Err("generation v9".to_string())
    );
    assert_eq!(images, before);
    assert_eq!(
        confirm_images(&mut images, "views", &["r1".to_string()], 2),
        Err("generation r1".to_string())
    );
}
