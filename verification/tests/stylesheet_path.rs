use tile_server::stylesheet::{split_stylesheet_path, StylesheetPathError};

#[test]
fn path_splits_into_base_and_name() {
    let r = split_stylesheet_path(b"styles/default.mapcss");
    assert_eq!(r, Ok((b"styles".to_vec(), b"default.mapcss".to_vec())));
}

#[test]
fn nested_path_keeps_all_but_last_segment() {
    let r = split_stylesheet_path(b"/etc/renderer/styles/day.mapcss");
    assert_eq!(r, Ok((b"/etc/renderer/styles".to_vec(), b"day.mapcss".to_vec())));
}

#[test]
fn bare_file_name_has_empty_base() {
    let r = split_stylesheet_path(b"day.mapcss");
    assert_eq!(r, Ok((b"".to_vec(), b"day.mapcss".to_vec())));
}

#[test]
fn absolute_file_keeps_absolute_base() {
    let r = split_stylesheet_path(b"/day.mapcss");
    assert_eq!(r, Ok((b"/".to_vec(), b"day.mapcss".to_vec())));
}

#[test]
fn trailing_separator_names_the_directory() {
    // As the platform path type reads it: `/a/b/` names `b`.
    assert_eq!(split_stylesheet_path(b"/a/b/"), Ok((b"/a".to_vec(), b"b".to_vec())));
    assert_eq!(split_stylesheet_path(b"styles/"), Ok((b"".to_vec(), b"styles".to_vec())));
}

#[test]
fn trailing_dot_components_are_ignored() {
    assert_eq!(split_stylesheet_path(b"styles/."), Ok((b"".to_vec(), b"styles".to_vec())));
    assert_eq!(
        split_stylesheet_path(b"day.mapcss/.//"),
        Ok((b"".to_vec(), b"day.mapcss".to_vec()))
    );
}

#[test]
fn paths_without_a_component_are_refused() {
    assert_eq!(split_stylesheet_path(b""), Err(StylesheetPathError::NoFileName));
    assert_eq!(split_stylesheet_path(b"/"), Err(StylesheetPathError::NoFileName));
    assert_eq!(split_stylesheet_path(b"."), Err(StylesheetPathError::NoFileName));
    assert_eq!(split_stylesheet_path(b"./"), Err(StylesheetPathError::NoFileName));
}

#[test]
fn paths_ending_in_parent_component_are_refused() {
    assert_eq!(split_stylesheet_path(b".."), Err(StylesheetPathError::NoFileName));
    assert_eq!(split_stylesheet_path(b"a/.."), Err(StylesheetPathError::NoFileName));
    assert_eq!(split_stylesheet_path(b"a/../."), Err(StylesheetPathError::NoFileName));
}

#[test]
fn hidden_file_name_is_kept() {
    let r = split_stylesheet_path(b"styles/.mapcss");
    assert_eq!(r, Ok((b"styles".to_vec(), b".mapcss".to_vec())));
}
