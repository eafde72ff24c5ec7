use qem_unzip::extract::{check_prefix_write, plan_entry, resolve_path, EntryAction, Warning};

fn header_extra(length: u32, access: u8, ftype: u8, datalen: u32) -> Vec<u8> {
    let mut v = vec![0u8; 84];
    v[0] = 0x4A;
    v[1] = 0xFB;
    v[2] = 72;
    v[12..16].copy_from_slice(&length.to_be_bytes());
    v[16] = access;
    v[17] = ftype;
    v[18..22].copy_from_slice(&datalen.to_be_bytes());
    v
}

#[test]
fn plain_entry_is_extracted_in_place() {
    let p = plan_entry("dir/file.txt", 5, &[], false, "");
    assert!(p.warnings.is_empty());
    assert_eq!(
        p.action,
        EntryAction::Extract { path: "dir_file.txt".to_string(), prefix: None }
    );
}

#[test]
fn escaped_entry_goes_under_directory() {
    let p = plan_entry("dir/file.txt", 5, &[], true, "out");
    assert_eq!(
        p.action,
        EntryAction::Extract { path: "out/dir_file_txt".to_string(), prefix: None }
    );
    assert_eq!(resolve_path("a:b", true, "d"), "d/-noASCII-!a 3A!b");
    assert_eq!(resolve_path("", true, ""), "-noname-");
}

#[test]
fn directory_entry_is_skipped_with_one_warning() {
    let p = plan_entry("sub/", 0, &[], false, "out");
    assert_eq!(p.warnings, vec![Warning::NoDirectory("sub/".to_string())]);
    assert_eq!(p.action, EntryAction::Skip);
}

#[test]
fn size_mismatch_warns_once_and_extracts() {
    let p = plan_entry("prog_bas", 100, &header_extra(120, 0, 1, 64), false, "");
    assert_eq!(p.warnings, vec![Warning::SizeMismatch { zip: 100, qdos: 120 }]);
    let mut want = b"]!QDOS File Header".to_vec();
    want.extend_from_slice(&[0, 15, 0, 1, 0, 0, 0, 64, 0, 0, 0, 0]);
    assert_eq!(
        p.action,
        EntryAction::Extract { path: "prog_bas".to_string(), prefix: Some(want) }
    );
}

#[test]
fn negative_length_is_a_mismatch() {
    let p = plan_entry("f", 0, &header_extra(0xFFFF_FFFF, 0, 0, 0), false, "");
    assert_eq!(p.warnings, vec![Warning::SizeMismatch { zip: 0, qdos: -1 }]);
}

#[test]
fn zero_attributes_write_no_prefix() {
    let p = plan_entry("f", 7, &header_extra(7, 0, 0, 0), false, "");
    assert!(p.warnings.is_empty());
    assert_eq!(p.action, EntryAction::Extract { path: "f".to_string(), prefix: None });
}

#[test]
fn bad_size_tag_warns_and_extracts_plain() {
    let mut e = header_extra(7, 1, 1, 1);
    e[2] = 64;
    let p = plan_entry("f", 7, &e, false, "");
    assert_eq!(p.warnings, vec![Warning::BadHeaderSize(64)]);
    assert_eq!(p.action, EntryAction::Extract { path: "f".to_string(), prefix: None });
}

#[test]
fn malformed_block_aborts() {
    let e = header_extra(7, 1, 1, 1);
    let p = plan_entry("f", 7, &e[..40], false, "");
    assert!(p.warnings.is_empty());
    assert_eq!(p.action, EntryAction::Abort);
}

#[test]
fn directory_with_mismatched_header_warns_twice() {
    let p = plan_entry("d/", 0, &header_extra(3, 0, 0, 0), false, "");
    assert_eq!(
        p.warnings,
        vec![
            Warning::SizeMismatch { zip: 0, qdos: 3 },
            Warning::NoDirectory("d/".to_string())
        ]
    );
    assert_eq!(p.action, EntryAction::Skip);
}

#[test]
fn short_prefix_write_warns() {
    assert_eq!(check_prefix_write(30), None);
    assert_eq!(check_prefix_write(12), Some(Warning::ShortHeaderWrite));
    assert_eq!(check_prefix_write(0), Some(Warning::ShortHeaderWrite));
}
