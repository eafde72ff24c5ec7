use vstd::prelude::*;

verus! {

/// The two bytes that open a QDOS block in an entry's extra field.
pub const MARKER_0: u8 = 0x4A;
pub const MARKER_1: u8 = 0xFB;

/// The only size tag under which the block is decoded.
pub const HEADER_SIZE_TAG: u16 = 72;

/// Offset of the QDOS header inside the extra field.
pub const HEADER_OFFSET: usize = 12;

/// Fewest extra-field bytes under which a tagged block is decoded.
pub const EXTRA_MIN_LEN: usize = 84;

/// Width of the emulator file prefix.
pub const PREFIX_LEN: usize = 30;

/// Word-length tag written into the emulator file prefix.
pub const WORD_LENGTH_TAG: u8 = 15;

/// The QDOS file header carried in an archive entry's extra field.
#[derive(Clone, Copy, Debug, PartialEq, Eq)]
pub struct QdosHeader {
    pub f_length: i32,
    pub f_access: u8,
    pub f_type: u8,
    pub f_datalen: i32,
    pub f_reserved: i32,
    pub f_szname: i16,
    pub f_name: [u8; 36],
    pub f_update: i32,
    pub f_refdate: i32,
    pub f_backup: i32,
}

/// The header that an emulator expects in front of a file's content.
#[derive(Clone, Copy, Debug, PartialEq, Eq)]
pub struct QemuHeader {
    pub h_header: [u8; 18],
    pub h_res: u8,
    pub h_wordlen: u8,
    pub f_access: u8,
    pub f_type: u8,
    pub f_datalen: i32,
    pub f_res: u32,
}

/// What the extra field of an entry says about a QDOS header.
#[derive(Clone, Copy, Debug, PartialEq, Eq)]
pub enum HeaderLookup {
    /// No QDOS block: the field is empty or does not start with the marker.
    Absent,
    /// A QDOS block whose size tag is not the expected one; treated as no header.
    BadSize(u16),
    /// A QDOS block too short to hold the header it announces.
    Malformed,
    /// A decoded header.
    Decoded(QdosHeader),
}

/// Unsigned value of four big-endian bytes of `s` from `i`.
pub open spec fn be_u32_at(s: Seq<u8>, i: int) -> int {
    s[i] as int * 16777216 + s[i + 1] as int * 65536 + s[i + 2] as int * 256 + s[i + 3] as int
}

/// Two's-complement value of four big-endian bytes of `s` from `i`.
pub open spec fn be_i32_at(s: Seq<u8>, i: int) -> int {
    let u = be_u32_at(s, i);
    if u >= 0x8000_0000 {
        u - 0x1_0000_0000
    } else {
        u
    }
}

/// Two's-complement value of two big-endian bytes of `s` from `i`.
pub open spec fn be_i16_at(s: Seq<u8>, i: int) -> int {
    let u = s[i] as int * 256 + s[i + 1] as int;
    if u >= 0x8000 {
        u - 0x1_0000
    } else {
        u
    }
}

/// The four big-endian bytes of a 32-bit value `v` (taken modulo 2^32).
pub open spec fn be_bytes(v: int) -> Seq<u8> {
    let u = if v < 0 { v + 0x1_0000_0000 } else { v };
    seq![
        (u / 16777216 % 256) as u8,
        (u / 65536 % 256) as u8,
        (u / 256 % 256) as u8,
        (u % 256) as u8,
    ]
}

/// The block opens with the QDOS marker.
pub open spec fn has_marker(s: Seq<u8>) -> bool {
    s.len() >= 2 && s[0] == MARKER_0 && s[1] == MARKER_1
}

/// The little-endian size tag that follows the marker.
pub open spec fn size_tag(s: Seq<u8>) -> int {
    s[2] as int + s[3] as int * 256
}

/// `h` holds the fields laid out big-endian in `s` from `HEADER_OFFSET` on.
pub open spec fn decodes_to(s: Seq<u8>, h: QdosHeader) -> bool {
    let o = HEADER_OFFSET as int;
    &&& h.f_length as int == be_i32_at(s, o)
    &&& h.f_access == s[o + 4]
    &&& h.f_type == s[o + 5]
    &&& h.f_datalen as int == be_i32_at(s, o + 6)
    &&& h.f_reserved as int == be_i32_at(s, o + 10)
    &&& h.f_szname as int == be_i16_at(s, o + 14)
    &&& h.f_name@ == s.subrange(o + 16, o + 52)
    &&& h.f_update as int == be_i32_at(s, o + 52)
    &&& h.f_refdate as int == be_i32_at(s, o + 56)
    &&& h.f_backup as int == be_i32_at(s, o + 60)
}

/// What `find_header` returns for the extra field `s`.
pub open spec fn lookup_spec(s: Seq<u8>, r: HeaderLookup) -> bool {
    if !has_marker(s) {
        r is Absent
    } else if s.len() < 4 {
        r is Malformed
    } else if size_tag(s) != HEADER_SIZE_TAG {
        r == HeaderLookup::BadSize(size_tag(s) as u16)
    } else if s.len() < EXTRA_MIN_LEN {
        r is Malformed
    } else {
        r is Decoded && decodes_to(s, r->Decoded_0)
    }
}

/// The eighteen bytes of the emulator header's magic text.
pub open spec fn qemu_magic() -> Seq<u8> {
    seq![
        0x5Du8, 0x21, 0x51, 0x44, 0x4F, 0x53, 0x20, 0x46, 0x69, 0x6C, 0x65, 0x20, 0x48,
        0x65, 0x61, 0x64, 0x65, 0x72,
    ]
}

/// The bytes of `h`, in the emulator's layout.
pub open spec fn qemu_layout(h: QemuHeader) -> Seq<u8> {
    h.h_header@ + seq![h.h_res, h.h_wordlen, h.f_access, h.f_type] + be_bytes(
        h.f_datalen as int,
    ) + be_bytes(h.f_res as int)
}

/// The emulator prefix that stands for a file with these QDOS attributes.
pub open spec fn prefix_for(access: u8, ftype: u8, datalen: i32) -> Seq<u8> {
    qemu_magic() + seq![0u8, WORD_LENGTH_TAG, access, ftype] + be_bytes(datalen as int)
        + be_bytes(0)
}

/// A header whose attributes call for an emulator prefix.
pub open spec fn needs_prefix(h: QdosHeader) -> bool {
    h.f_datalen > 0 || h.f_access > 0 || h.f_type > 0
}

fn read_be_u32(s: &[u8], i: usize) -> (r: u32)
    requires
        i + 4 <= s@.len(),
    ensures
        r as int == be_u32_at(s@, i as int),
{
    (s[i] as u32) * 16777216 + (s[i + 1] as u32) * 65536 + (s[i + 2] as u32) * 256 + (
    s[i + 3] as u32)
}

fn read_be_i32(s: &[u8], i: usize) -> (r: i32)
    requires
        i + 4 <= s@.len(),
    ensures
        r as int == be_i32_at(s@, i as int),
{
    let u = read_be_u32(s, i);
    if u >= 0x8000_0000 {
        let d: u32 = u - 0x8000_0000;
        (d as i32) - 0x7fff_ffff - 1
    } else {
        u as i32
    }
}

fn read_be_i16(s: &[u8], i: usize) -> (r: i16)
    requires
        i + 2 <= s@.len(),
    ensures
        r as int == be_i16_at(s@, i as int),
{
    let u: u16 = (s[i] as u16) * 256 + (s[i + 1] as u16);
    if u >= 0x8000 {
        let d: u16 = u - 0x8000;
        (d as i16) - 0x7fff - 1
    } else {
        u as i16
    }
}

/// Decodes the QDOS header laid out in `s` from `HEADER_OFFSET` on.
pub fn unpack_qdos(s: &[u8]) -> (h: QdosHeader)
    requires
        s@.len() >= EXTRA_MIN_LEN,
    ensures
        decodes_to(s@, h),
{
    let o = HEADER_OFFSET;
    let mut name = [0u8; 36];
    let mut k: usize = 0;
    while k < 36
        invariant
            0 <= k <= 36,
            o == HEADER_OFFSET,
            s@.len() >= EXTRA_MIN_LEN,
            forall|j: int| 0 <= j < k ==> name@[j] == s@[o + 16 + j],
        decreases 36 - k,
    {
        name[k] = s[o + 16 + k];
        k = k + 1;
    }
    assert(name@ =~= s@.subrange(o + 16, o + 52));
    QdosHeader {
        f_length: read_be_i32(s, o),
        f_access: s[o + 4],
        f_type: s[o + 5],
        f_datalen: read_be_i32(s, o + 6),
        f_reserved: read_be_i32(s, o + 10),
        f_szname: read_be_i16(s, o + 14),
        f_name: name,
        f_update: read_be_i32(s, o + 52),
        f_refdate: read_be_i32(s, o + 56),
        f_backup: read_be_i32(s, o + 60),
    }
}

/// Looks for a QDOS header in the extra field `extra` of an archive entry.
pub fn find_header(extra: &[u8]) -> (r: HeaderLookup)
    ensures
        lookup_spec(extra@, r),
{
    if extra.len() < 2 || extra[0] != MARKER_0 || extra[1] != MARKER_1 {
        return HeaderLookup::Absent;
    }
    if extra.len() < 4 {
        return HeaderLookup::Malformed;
    }
    let size: u16 = (extra[2] as u16) + (extra[3] as u16) * 256;
    if size != HEADER_SIZE_TAG {
        HeaderLookup::BadSize(size)
    } else if extra.len() < EXTRA_MIN_LEN {
        HeaderLookup::Malformed
    } else {
        HeaderLookup::Decoded(unpack_qdos(extra))
    }
}

/// The emulator header for a file with the QDOS attributes of `src`.
pub fn derive_target(src: &QdosHeader) -> (t: QemuHeader)
    ensures
        t.h_header@ == qemu_magic(),
        t.h_res == 0,
        t.h_wordlen == WORD_LENGTH_TAG,
        t.f_access == src.f_access,
        t.f_type == src.f_type,
        t.f_datalen == src.f_datalen,
        t.f_res == 0,
{
    let magic: [u8; 18] = [
        0x5D, 0x21, 0x51, 0x44, 0x4F, 0x53, 0x20, 0x46, 0x69, 0x6C, 0x65, 0x20, 0x48, 0x65,
        0x61, 0x64, 0x65, 0x72,
    ];
    assert(magic@ =~= qemu_magic());
    QemuHeader {
        h_header: magic,
        h_res: 0,
        h_wordlen: WORD_LENGTH_TAG,
        f_access: src.f_access,
        f_type: src.f_type,
        f_datalen: src.f_datalen,
        f_res: 0,
    }
}

fn push_be_u32(out: &mut Vec<u8>, u: u32)
    ensures
        final(out)@ == old(out)@ + be_bytes(u as int),
{
    out.push((u / 16777216 % 256) as u8);
    out.push((u / 65536 % 256) as u8);
    out.push((u / 256 % 256) as u8);
    out.push((u % 256) as u8);
    assert(final(out)@ =~= old(out)@ + be_bytes(u as int));
}

fn push_be_i32(out: &mut Vec<u8>, v: i32)
    ensures
        final(out)@ == old(out)@ + be_bytes(v as int),
{
    let u: u32 = if v < 0 {
        let w: u32 = (v + 0x7fff_ffff + 1) as u32;
        w + 0x8000_0000
    } else {
        v as u32
    };
    push_be_u32(out, u);
    assert(be_bytes(u as int) =~= be_bytes(v as int));
}

/// The bytes of `h` in the emulator's layout: thirty of them, multi-byte fields big-endian.
pub fn pack_qemu(h: &QemuHeader) -> (r: Vec<u8>)
    ensures
        r@ == qemu_layout(*h),
        r@.len() == PREFIX_LEN,
{
    let mut r: Vec<u8> = Vec::new();
    let mut k: usize = 0;
    while k < 18
        invariant
            0 <= k <= 18,
            r@ == h.h_header@.subrange(0, k as int),
        decreases 18 - k,
    {
        r.push(h.h_header[k]);
        k = k + 1;
        assert(r@ =~= h.h_header@.subrange(0, k as int));
    }
    assert(r@ =~= h.h_header@);
    r.push(h.h_res);
    r.push(h.h_wordlen);
    r.push(h.f_access);
    r.push(h.f_type);
    assert(r@ =~= h.h_header@ + seq![h.h_res, h.h_wordlen, h.f_access, h.f_type]);
    push_be_i32(&mut r, h.f_datalen);
    push_be_u32(&mut r, h.f_res);
    r
}

/// The prefix to write in front of the content of a file with header `h`:
/// none where its data length, access byte and type byte are all zero or less.
pub fn emitted_prefix(h: &QdosHeader) -> (r: Option<Vec<u8>>)
    ensures
        needs_prefix(*h) ==> r is Some && r->Some_0@ == prefix_for(h.f_access, h.f_type, h.f_datalen),
        !needs_prefix(*h) ==> r is None,
{
    if h.f_datalen > 0 || h.f_access > 0 || h.f_type > 0 {
        let t = derive_target(h);
        let bytes = pack_qemu(&t);
        assert(bytes@ =~= prefix_for(h.f_access, h.f_type, h.f_datalen));
        Some(bytes)
    } else {
        None
    }
}

/// A tagged extra field too short to hold the header is malformed, never a warning,
/// wherever the size tag can be read and is the expected one; a field too short to
/// hold the tag itself is malformed too.
pub proof fn lemma_short_block_is_malformed(s: Seq<u8>, r: HeaderLookup)
    requires
        has_marker(s),
        s.len() < EXTRA_MIN_LEN,
        s.len() < 4 || size_tag(s) == HEADER_SIZE_TAG,
        lookup_spec(s, r),
    ensures
        r is Malformed,
{
}

/// The emulator prefix made from a decoded header depends on the access byte, the
/// type byte and the data length alone: two extra fields that agree on those bytes
/// give the same prefix, whatever their other fields hold.
pub proof fn lemma_prefix_depends_on_attributes(
    s1: Seq<u8>,
    s2: Seq<u8>,
    h1: QdosHeader,
    h2: QdosHeader,
)
    requires
        lookup_spec(s1, HeaderLookup::Decoded(h1)),
        lookup_spec(s2, HeaderLookup::Decoded(h2)),
        s1.subrange(16, 22) == s2.subrange(16, 22),
    ensures
        needs_prefix(h1) == needs_prefix(h2),
        prefix_for(h1.f_access, h1.f_type, h1.f_datalen) == prefix_for(
            h2.f_access,
            h2.f_type,
            h2.f_datalen,
        ),
{
    assert(s1[16] == s1.subrange(16, 22)[0]);
    assert(s1[17] == s1.subrange(16, 22)[1]);
    assert(s1[18] == s1.subrange(16, 22)[2]);
    assert(s1[19] == s1.subrange(16, 22)[3]);
    assert(s1[20] == s1.subrange(16, 22)[4]);
    assert(s1[21] == s1.subrange(16, 22)[5]);
    assert(s2[16] == s2.subrange(16, 22)[0]);
    assert(s2[17] == s2.subrange(16, 22)[1]);
    assert(s2[18] == s2.subrange(16, 22)[2]);
    assert(s2[19] == s2.subrange(16, 22)[3]);
    assert(s2[20] == s2.subrange(16, 22)[4]);
    assert(s2[21] == s2.subrange(16, 22)[5]);
}

} // verus!
