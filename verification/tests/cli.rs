use librsvg::cli::{check_input_count, keep_image_data, lookup_id, page_size, Format};

#[test]
fn image_data_is_kept_for_paged_formats_unless_refused() {
    assert!(keep_image_data(Format::Pdf, false, false));
    assert!(!keep_image_data(Format::Ps, true, true));
    assert!(keep_image_data(Format::Eps, false, false));
    assert!(!keep_image_data(Format::Png, false, false));
    assert!(keep_image_data(Format::Svg, true, false));
}

#[test]
fn exported_ids_get_a_hash() {
    assert_eq!(lookup_id("foo".to_string()), "#foo");
    assert_eq!(lookup_id("#foo".to_string()), "#foo");
    assert_eq!(lookup_id(String::new()), "#");
}

#[test]
fn page_size_needs_both_sides() {
    assert_eq!(page_size::<u32, u32>(None, None), Ok(None));
    assert_eq!(page_size(Some(1u32), Some(2u32)), Ok(Some((1, 2))));
    let msg = "Please specify both the --page-width and --page-height options together.".to_string();
    assert_eq!(page_size::<u32, u32>(Some(1), None), Err(msg.clone()));
    assert_eq!(page_size::<u32, u32>(None, Some(2)), Err(msg));
}

#[test]
fn only_paged_formats_take_several_inputs() {
    assert_eq!(check_input_count(1, Format::Png), Ok(()));
    assert_eq!(check_input_count(3, Format::Pdf), Ok(()));
    assert_eq!(check_input_count(2, Format::Eps), Ok(()));
    assert_eq!(
        check_input_count(2, Format::Svg),
        Err("Multiple SVG files are only allowed for PDF and (E)PS output.".to_string())
    );
}
