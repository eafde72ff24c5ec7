use qem_unzip::header::{
    derive_target, emitted_prefix, find_header, pack_qemu, HeaderLookup, QdosHeader,
};

const MAGIC: &[u8; 18] = b"]!QDOS File Header";

/// An extra field with the marker, the given size tag and `len` bytes in all,
/// whose header fields are filled with recognisable values.
fn extra(tag: u16, len: usize) -> Vec<u8> {
    let mut v = vec![0u8; len];
    v[0] = 0x4A;
    v[1] = 0xFB;
    if len >= 4 {
        v[2] = (tag & 0xff) as u8;
        v[3] = (tag >> 8) as u8;
    }
    for (i, b) in v.iter_mut().enumerate().skip(4) {
        *b = (i % 251) as u8;
    }
    v
}

fn full_header() -> Vec<u8> {
    let mut v = extra(72, 84);
    // file length 0x00000100
    v[12..16].copy_from_slice(&[0, 0, 1, 0]);
    v[16] = 3; // access
    v[17] = 1; // type
    v[18..22].copy_from_slice(&[0x01, 0x02, 0x03, 0x04]); // data length
    v[22..26].copy_from_slice(&[0xFF, 0xFF, 0xFF, 0xFE]); // reserved: -2
    v[26..28].copy_from_slice(&[0x00, 0x05]); // name length
    v[28..64].copy_from_slice(&[b'x'; 36]);
    v[64..68].copy_from_slice(&[0x80, 0, 0, 0]);
    v[68..72].copy_from_slice(&[0, 0, 0, 9]);
    v[72..76].copy_from_slice(&[0x7F, 0xFF, 0xFF, 0xFF]);
    v
}

#[test]
fn empty_extra_has_no_header() {
    assert_eq!(find_header(&[]), HeaderLookup::Absent);
}

#[test]
fn other_marker_has_no_header() {
    assert_eq!(find_header(&[0x55, 0x54, 0x05, 0x00]), HeaderLookup::Absent);
    assert_eq!(find_header(&[0x4A]), HeaderLookup::Absent);
}

#[test]
fn wrong_size_tag_is_reported() {
    assert_eq!(find_header(&extra(64, 84)), HeaderLookup::BadSize(64));
    assert_eq!(find_header(&extra(0x1234, 10)), HeaderLookup::BadSize(0x1234));
}

#[test]
fn short_tagged_block_is_malformed() {
    for len in [2usize, 3, 4, 12, 76, 83] {
        assert_eq!(find_header(&extra(72, len)), HeaderLookup::Malformed, "len {}", len);
    }
}

#[test]
fn full_block_decodes_big_endian() {
    let h = match find_header(&full_header()) {
        HeaderLookup::Decoded(h) => h,
        other => panic!("not decoded: {:?}", other),
    };
    assert_eq!(
        h,
        QdosHeader {
            f_length: 256,
            f_access: 3,
            f_type: 1,
            f_datalen: 0x01020304,
            f_reserved: -2,
            f_szname: 5,
            f_name: [b'x'; 36],
            f_update: i32::MIN,
            f_refdate: 9,
            f_backup: i32::MAX,
        }
    );
}

#[test]
fn target_header_packs_to_thirty_bytes() {
    let mut src = match find_header(&full_header()) {
        HeaderLookup::Decoded(h) => h,
        _ => panic!("not decoded"),
    };
    src.f_datalen = -1;
    let t = derive_target(&src);
    assert_eq!(&t.h_header, MAGIC);
    assert_eq!(t.h_wordlen, 15);
    let bytes = pack_qemu(&t);
    let mut want = MAGIC.to_vec();
    want.extend_from_slice(&[0, 15, 3, 1, 0xFF, 0xFF, 0xFF, 0xFF, 0, 0, 0, 0]);
    assert_eq!(bytes, want);
}

#[test]
fn prefix_ignores_other_fields() {
    let a = full_header();
    let mut b = a.clone();
    for i in (4..16).chain(22..84) {
        b[i] = b[i].wrapping_add(17);
    }
    let pa = match find_header(&a) {
        HeaderLookup::Decoded(h) => emitted_prefix(&h),
        _ => panic!("not decoded"),
    };
    let pb = match find_header(&b) {
        HeaderLookup::Decoded(h) => emitted_prefix(&h),
        _ => panic!("not decoded"),
    };
    assert_eq!(pa, pb);
    let mut want = MAGIC.to_vec();
    want.extend_from_slice(&[0, 15, 3, 1, 1, 2, 3, 4, 0, 0, 0, 0]);
    assert_eq!(pa, Some(want));
}

#[test]
fn zero_attributes_give_no_prefix() {
    let mut v = full_header();
    v[16] = 0;
    v[17] = 0;
    v[18..22].copy_from_slice(&[0x80, 0, 0, 0]);
    match find_header(&v) {
        HeaderLookup::Decoded(h) => assert_eq!(emitted_prefix(&h), None),
        _ => panic!("not decoded"),
    }
}
