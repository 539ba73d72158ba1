use proxytools::rewriter::rewrite_exports;

#[test]
fn truncation_example() {
    let mut image = b"foo_external\0".to_vec();
    rewrite_exports(&mut image);
    assert_eq!(image, b"foo\0external\0".to_vec());
}

#[test]
fn truncated_name_is_readable_at_the_same_offset() {
    let mut image = b"foo_external\0".to_vec();
    rewrite_exports(&mut image);
    let name: Vec<u8> = image.iter().copied().take_while(|b| *b != 0).collect();
    assert_eq!(name, b"foo".to_vec());
}

#[test]
fn multiple_occurrences_are_each_truncated() {
    let mut image = b"bar_external\0XYZbar_external\0tail".to_vec();
    rewrite_exports(&mut image);
    assert_eq!(image, b"bar\0external\0XYZbar\0external\0tail".to_vec());
}

#[test]
fn image_without_marker_is_unchanged() {
    let original = b"no markers here, just bytes \x01\x02\x03".to_vec();
    let mut image = original.clone();
    rewrite_exports(&mut image);
    assert_eq!(image, original);
}

#[test]
fn length_never_changes() {
    let inputs: Vec<Vec<u8>> = vec![
        Vec::new(),
        b"foo_external\0".to_vec(),
        b"_external\0".to_vec(),
        b"a_external\0b_external\0".to_vec(),
        b"half_external".to_vec(),
    ];
    for input in inputs {
        let mut image = input.clone();
        rewrite_exports(&mut image);
        assert_eq!(image.len(), input.len());
    }
}

#[test]
fn suffix_without_terminator_is_not_a_marker() {
    let original = b"foo_external!".to_vec();
    let mut image = original.clone();
    rewrite_exports(&mut image);
    assert_eq!(image, original);
}

#[test]
fn different_suffix_is_invisible() {
    let original = b"foo_externaX\0".to_vec();
    let mut image = original.clone();
    rewrite_exports(&mut image);
    assert_eq!(image, original);
}

#[test]
fn marker_at_start_of_image() {
    let mut image = b"_external\0rest".to_vec();
    rewrite_exports(&mut image);
    assert_eq!(image, b"\0external\0rest".to_vec());
}

#[test]
fn marker_at_end_of_image() {
    let mut image = b"prefix_external\0".to_vec();
    rewrite_exports(&mut image);
    assert_eq!(image, b"prefix\0external\0".to_vec());
}

#[test]
fn empty_image_stays_empty() {
    let mut image: Vec<u8> = Vec::new();
    rewrite_exports(&mut image);
    assert!(image.is_empty());
}

#[test]
fn unrelated_bytes_around_markers_are_untouched() {
    let mut image = Vec::new();
    image.extend_from_slice(&[0xde, 0xad]);
    image.extend_from_slice(b"open_external\0");
    image.extend_from_slice(&[0xbe, 0xef]);
    let mut expected = Vec::new();
    expected.extend_from_slice(&[0xde, 0xad]);
    expected.extend_from_slice(b"open\0external\0");
    expected.extend_from_slice(&[0xbe, 0xef]);
    rewrite_exports(&mut image);
    assert_eq!(image, expected);
}
