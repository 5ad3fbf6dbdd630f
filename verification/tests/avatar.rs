use omarchygram_ui::avatar::{
    center_crop, color_index, cover_dimensions, initials, photo_target, Avatar,
};

#[test]
fn initials_cover_single_multi_and_empty_names() {
    assert_eq!(initials("Marta"), "MA");
    assert_eq!(initials("Arch Linux ARM"), "AA");
    assert_eq!(initials("  Leo   Test "), "LT");
    assert_eq!(initials(""), "?");
}

#[test]
fn negative_ids_still_map_to_the_palette() {
    assert_eq!(color_index(-1), 6);
    assert_eq!(color_index(-7), 0);
}

#[test]
fn cover_dimensions_scale_the_short_edge_to_the_target() {
    assert_eq!(cover_dimensions(256, 150, 88), (151, 88));
    assert_eq!(cover_dimensions(150, 256, 88), (88, 151));
    assert_eq!(cover_dimensions(100, 100, 44), (44, 44));
}

#[test]
fn letters_that_grow_in_upper_case_stay_whole() {
    assert_eq!(initials("ß"), "SS");
    assert_eq!(initials("ärger über"), "ÄÜ");
}

#[test]
fn pictures_are_cropped_in_the_middle() {
    let crop = center_crop(151, 88, 88);
    assert_eq!((crop.x, crop.y, crop.size), (31, 0, 88));
}

#[test]
fn photos_are_loaded_in_the_scale_of_the_screen() {
    assert_eq!(photo_target(44, 2), 88);
    assert_eq!(photo_target(44, 1), 44);
}

#[test]
fn a_photo_of_an_earlier_chat_is_not_shown() {
    let mut avatar = Avatar::new(44);
    let first = avatar.bind(1, "Marta", true).unwrap();
    let second = avatar.bind(2, "Leo", true).unwrap();
    assert!(!avatar.photo_loaded(1, first));
    assert!(!avatar.shows_photo);
    assert!(avatar.photo_loaded(2, second));
    assert!(avatar.shows_photo);
    assert_eq!(avatar.key(), 2);
    assert!(avatar.bind(3, "Nobody", false).is_none());
    assert!(!avatar.shows_photo);
}
