use fdt::{align_up, Fdt, FdtError, MemoryReservation, StructItem};
use fdt::utf8::is_valid_utf8;

const MAGIC: u32 = 0xd00dfeed;
const TAG_BEGIN: u32 = 0x1;
const TAG_END_NODE: u32 = 0x2;
const TAG_PROP: u32 = 0x3;
const TAG_NOP: u32 = 0x4;
const TAG_END: u32 = 0x9;

fn be32(v: &mut Vec<u8>, x: u32) {
    v.extend_from_slice(&x.to_be_bytes());
}

fn be64(v: &mut Vec<u8>, x: u64) {
    v.extend_from_slice(&x.to_be_bytes());
}

fn pad4(v: &mut Vec<u8>) {
    while v.len() % 4 != 0 {
        v.push(0);
    }
}

fn begin_node(v: &mut Vec<u8>, name: &str) {
    be32(v, TAG_BEGIN);
    v.extend_from_slice(name.as_bytes());
    v.push(0);
    pad4(v);
}

fn end_node(v: &mut Vec<u8>) {
    be32(v, TAG_END_NODE);
}

fn prop(v: &mut Vec<u8>, nameoff: u32, value: &[u8]) {
    be32(v, TAG_PROP);
    be32(v, value.len() as u32);
    be32(v, nameoff);
    v.extend_from_slice(value);
    pad4(v);
}

/// Assembles a blob: header, then reservation records (a zero sentinel is
/// appended), then the struct block, then the strings block.
fn build_blob(reservations: &[(u64, u64)], struct_block: &[u8], strings: &[u8]) -> Vec<u8> {
    let off_mem_rsvmap = 40u32;
    let rsv_size = 16 * (reservations.len() as u32 + 1);
    let off_dt_struct = off_mem_rsvmap + rsv_size;
    let off_dt_strings = off_dt_struct + struct_block.len() as u32;
    let totalsize = off_dt_strings + strings.len() as u32;

    let mut v = Vec::new();
    be32(&mut v, MAGIC);
    be32(&mut v, totalsize);
    be32(&mut v, off_dt_struct);
    be32(&mut v, off_dt_strings);
    be32(&mut v, off_mem_rsvmap);
    be32(&mut v, 17); // version
    be32(&mut v, 16); // last compatible version
    be32(&mut v, 0); // boot cpu
    be32(&mut v, strings.len() as u32);
    be32(&mut v, struct_block.len() as u32);
    for &(a, s) in reservations {
        be64(&mut v, a);
        be64(&mut v, s);
    }
    be64(&mut v, 0);
    be64(&mut v, 0);
    v.extend_from_slice(struct_block);
    v.extend_from_slice(strings);
    v
}

/// Header with correct magic and version, one root node with one property
/// "compatible" = b"test\0": no reservations, one property, no children.
#[test]
fn scenario_single_property_root() {
    let mut st = Vec::new();
    begin_node(&mut st, "");
    prop(&mut st, 0, b"test\0");
    end_node(&mut st);
    be32(&mut st, TAG_END);
    let blob = build_blob(&[], &st, b"compatible\0");

    let dt = Fdt::from_bytes(&blob).unwrap();

    let mut rsv = dt.memory_reservations();
    assert_eq!(rsv.next().unwrap(), None);

    let root = dt.root_node().unwrap();
    assert_eq!(root.name, b"".to_vec());

    let mut props = root.properties();
    let p = props.next().unwrap().unwrap();
    assert_eq!(p.name, b"compatible".to_vec());
    assert_eq!(p.value, vec![b't', b'e', b's', b't', 0]);
    assert_eq!(props.next().unwrap(), None);

    let mut children = root.children();
    assert!(children.next().unwrap().is_none());
}

/// Struct block `root{ a{} c{} }`: children "a" then "c", each childless.
#[test]
fn scenario_two_children_in_order() {
    let mut st = Vec::new();
    begin_node(&mut st, "");
    begin_node(&mut st, "a");
    end_node(&mut st);
    begin_node(&mut st, "c");
    end_node(&mut st);
    end_node(&mut st);
    be32(&mut st, TAG_END);
    let blob = build_blob(&[], &st, b"");

    let dt = Fdt::from_bytes(&blob).unwrap();
    let root = dt.root_node().unwrap();

    let mut children = root.children();
    let a = children.next().unwrap().unwrap();
    assert_eq!(a.name, b"a".to_vec());
    let c = children.next().unwrap().unwrap();
    assert_eq!(c.name, b"c".to_vec());
    assert!(children.next().unwrap().is_none());
    assert!(children.next().unwrap().is_none());

    assert!(a.children().next().unwrap().is_none());
    assert!(c.children().next().unwrap().is_none());
}

/// Two non-zero reservation records before the zero record: exactly those
/// two come out, in input order.
#[test]
fn scenario_two_reservations() {
    let mut st = Vec::new();
    begin_node(&mut st, "");
    end_node(&mut st);
    be32(&mut st, TAG_END);
    let blob = build_blob(&[(0x8000_0000, 0x1000), (0x9000_0000, 0x2000)], &st, b"");

    let dt = Fdt::from_bytes(&blob).unwrap();
    let mut rsv = dt.memory_reservations();
    assert_eq!(
        rsv.next().unwrap(),
        Some(MemoryReservation { address: 0x8000_0000, size: 0x1000 })
    );
    assert_eq!(
        rsv.next().unwrap(),
        Some(MemoryReservation { address: 0x9000_0000, size: 0x2000 })
    );
    assert_eq!(rsv.next().unwrap(), None);
    assert_eq!(rsv.next().unwrap(), None);
}

/// Enumerating children twice from the same node yields the same sequence.
#[test]
fn children_enumeration_is_restartable() {
    let mut st = Vec::new();
    begin_node(&mut st, "");
    begin_node(&mut st, "first");
    prop(&mut st, 0, &[1, 2, 3, 4]);
    begin_node(&mut st, "nested");
    end_node(&mut st);
    end_node(&mut st);
    begin_node(&mut st, "second");
    end_node(&mut st);
    end_node(&mut st);
    be32(&mut st, TAG_END);
    let blob = build_blob(&[], &st, b"x\0");

    let dt = Fdt::from_bytes(&blob).unwrap();
    let root = dt.root_node().unwrap();

    let mut names1 = Vec::new();
    let mut it = root.children();
    while let Some(c) = it.next().unwrap() {
        names1.push(c.name);
    }
    let mut names2 = Vec::new();
    let mut it = root.children();
    while let Some(c) = it.next().unwrap() {
        names2.push(c.name);
    }
    assert_eq!(names1, vec![b"first".to_vec(), b"second".to_vec()]);
    assert_eq!(names1, names2);
}

/// Reading properties first (fully or partly) never changes the children.
#[test]
fn properties_and_children_do_not_interfere() {
    let mut st = Vec::new();
    begin_node(&mut st, "");
    prop(&mut st, 0, b"one");
    prop(&mut st, 2, b"two-longer");
    begin_node(&mut st, "kid");
    end_node(&mut st);
    end_node(&mut st);
    be32(&mut st, TAG_END);
    let blob = build_blob(&[], &st, b"p\0q\0");

    let dt = Fdt::from_bytes(&blob).unwrap();
    let root = dt.root_node().unwrap();

    let mut direct = Vec::new();
    let mut it = root.children();
    while let Some(c) = it.next().unwrap() {
        direct.push(c.name);
    }

    let mut props = root.properties();
    assert_eq!(props.next().unwrap().unwrap().name, b"p".to_vec());
    assert_eq!(props.next().unwrap().unwrap().name, b"q".to_vec());
    assert_eq!(props.next().unwrap(), None);

    let mut after = Vec::new();
    let mut it = root.children();
    while let Some(c) = it.next().unwrap() {
        after.push(c.name);
    }
    assert_eq!(direct, vec![b"kid".to_vec()]);
    assert_eq!(direct, after);
}

/// The aligned byte lengths of all records tile the struct block exactly:
/// after the tokenizer finishes, its cursor stands at the declared size.
#[test]
fn token_lengths_tile_struct_block() {
    let mut st = Vec::new();
    begin_node(&mut st, "odd"); // name length forces padding
    be32(&mut st, TAG_NOP);
    prop(&mut st, 0, b"12345"); // value length forces padding
    be32(&mut st, TAG_NOP);
    end_node(&mut st);
    be32(&mut st, TAG_END);
    let blob = build_blob(&[], &st, b"name\0");

    let dt = Fdt::from_bytes(&blob).unwrap();
    let mut iter = dt.struct_items();
    let mut seen: usize = 0;
    while let Some(_) = iter.next().unwrap() {
        seen += 1;
    }
    assert_eq!(seen, 3);
    assert_eq!(iter.pos, st.len());
}

/// A buffer whose first word is not the magic number fails with
/// InvalidMagic, whatever else it holds.
#[test]
fn wrong_magic_is_rejected() {
    let mut st = Vec::new();
    begin_node(&mut st, "");
    end_node(&mut st);
    be32(&mut st, TAG_END);
    let mut blob = build_blob(&[], &st, b"");
    blob[0] = 0x12;
    assert_eq!(Fdt::from_bytes(&blob).err(), Some(FdtError::InvalidMagic));

    let tiny = [0u8, 1, 2];
    assert_eq!(Fdt::from_bytes(&tiny).err(), Some(FdtError::TruncatedRecord));
}

#[test]
fn unsupported_versions_are_rejected() {
    let mut st = Vec::new();
    begin_node(&mut st, "");
    end_node(&mut st);
    be32(&mut st, TAG_END);
    let blob = build_blob(&[], &st, b"");

    let mut old_version = blob.clone();
    old_version[20..24].copy_from_slice(&16u32.to_be_bytes());
    assert_eq!(Fdt::from_bytes(&old_version).err(), Some(FdtError::UnsupportedVersion));

    let mut new_floor = blob.clone();
    new_floor[24..28].copy_from_slice(&18u32.to_be_bytes());
    assert_eq!(Fdt::from_bytes(&new_floor).err(), Some(FdtError::UnsupportedVersion));
}

#[test]
fn blocks_outside_total_size_are_rejected() {
    let mut st = Vec::new();
    begin_node(&mut st, "");
    end_node(&mut st);
    be32(&mut st, TAG_END);
    let blob = build_blob(&[], &st, b"");

    // totalsize larger than the buffer
    let mut overlong = blob.clone();
    overlong[4..8].copy_from_slice(&(blob.len() as u32 + 4).to_be_bytes());
    assert_eq!(Fdt::from_bytes(&overlong).err(), Some(FdtError::OutOfBounds));

    // struct block passing the end of totalsize
    let mut stray = blob.clone();
    stray[36..40].copy_from_slice(&(blob.len() as u32).to_be_bytes());
    assert_eq!(Fdt::from_bytes(&stray).err(), Some(FdtError::OutOfBounds));
}

#[test]
fn unknown_tag_is_malformed() {
    let mut st = Vec::new();
    be32(&mut st, 0x7);
    let blob = build_blob(&[], &st, b"");
    let dt = Fdt::from_bytes(&blob).unwrap();
    assert_eq!(dt.root_node().err(), Some(FdtError::MalformedToken));
}

#[test]
fn bytes_after_end_tag_are_malformed() {
    let mut st = Vec::new();
    begin_node(&mut st, "");
    end_node(&mut st);
    be32(&mut st, TAG_END);
    be32(&mut st, TAG_NOP); // trailing word after the end tag
    let blob = build_blob(&[], &st, b"");
    let dt = Fdt::from_bytes(&blob).unwrap();
    let root = dt.root_node().unwrap();
    let mut children = root.children();
    assert!(children.next().unwrap().is_none());
    // a raw token scan runs into the misplaced end tag
    let mut iter = dt.struct_items();
    assert!(matches!(iter.next(), Ok(Some(StructItem::BeginNode { .. }))));
    assert!(matches!(iter.next(), Ok(Some(StructItem::EndNode))));
    assert_eq!(iter.next(), Err(FdtError::MalformedToken));
}

#[test]
fn property_name_offset_outside_strings_block() {
    let mut st = Vec::new();
    begin_node(&mut st, "");
    prop(&mut st, 100, b"v");
    end_node(&mut st);
    be32(&mut st, TAG_END);
    let blob = build_blob(&[], &st, b"ok\0");
    let dt = Fdt::from_bytes(&blob).unwrap();
    let root = dt.root_node().unwrap();
    let mut props = root.properties();
    assert_eq!(props.next(), Err(FdtError::OutOfBounds));
}

#[test]
fn property_name_without_terminator() {
    let mut st = Vec::new();
    begin_node(&mut st, "");
    prop(&mut st, 0, b"v");
    end_node(&mut st);
    be32(&mut st, TAG_END);
    let blob = build_blob(&[], &st, b"noterm"); // no NUL anywhere after offset 0
    let dt = Fdt::from_bytes(&blob).unwrap();
    let root = dt.root_node().unwrap();
    let mut props = root.properties();
    assert_eq!(props.next(), Err(FdtError::InvalidText));
}

#[test]
fn node_name_with_invalid_utf8() {
    let mut st = Vec::new();
    be32(&mut st, TAG_BEGIN);
    st.extend_from_slice(&[0xFF, 0xFE, 0]); // not UTF-8
    pad4(&mut st);
    end_node(&mut st);
    be32(&mut st, TAG_END);
    let blob = build_blob(&[], &st, b"");
    let dt = Fdt::from_bytes(&blob).unwrap();
    assert_eq!(dt.root_node().err(), Some(FdtError::InvalidText));
}

#[test]
fn property_value_longer_than_block() {
    let mut st = Vec::new();
    begin_node(&mut st, "");
    be32(&mut st, TAG_PROP);
    be32(&mut st, 1000); // declared value length passes the block's end
    be32(&mut st, 0);
    end_node(&mut st);
    be32(&mut st, TAG_END);
    let blob = build_blob(&[], &st, b"n\0");
    let dt = Fdt::from_bytes(&blob).unwrap();
    let root = dt.root_node().unwrap();
    let mut props = root.properties();
    assert_eq!(props.next(), Err(FdtError::TruncatedRecord));
}

/// A reservation block that runs out of bytes before any zero sentinel.
#[test]
fn reservations_without_sentinel_are_truncated() {
    let mut st = Vec::new();
    begin_node(&mut st, "");
    end_node(&mut st);
    be32(&mut st, TAG_END);
    let mut blob = build_blob(&[(0x1000, 0x10)], &st, b"");
    // point the reservation block near the blob's end: no room for a record
    let off = (blob.len() - 8) as u32;
    blob[16..20].copy_from_slice(&off.to_be_bytes());
    let dt = Fdt::from_bytes(&blob).unwrap();
    let mut rsv = dt.memory_reservations();
    assert_eq!(rsv.next(), Err(FdtError::TruncatedRecord));
}

/// The first struct token must begin the root node.
#[test]
fn missing_root_begin_is_malformed() {
    let mut st = Vec::new();
    end_node(&mut st);
    be32(&mut st, TAG_END);
    let blob = build_blob(&[], &st, b"");
    let dt = Fdt::from_bytes(&blob).unwrap();
    assert_eq!(dt.root_node().err(), Some(FdtError::MalformedToken));
}

/// No-op words are skipped silently, wherever they stand.
#[test]
fn nop_words_are_skipped() {
    let mut st = Vec::new();
    be32(&mut st, TAG_NOP);
    begin_node(&mut st, "");
    be32(&mut st, TAG_NOP);
    be32(&mut st, TAG_NOP);
    begin_node(&mut st, "kid");
    end_node(&mut st);
    end_node(&mut st);
    be32(&mut st, TAG_END);
    let blob = build_blob(&[], &st, b"");
    let dt = Fdt::from_bytes(&blob).unwrap();
    let root = dt.root_node().unwrap();
    assert_eq!(root.name, b"".to_vec());
    let mut children = root.children();
    assert_eq!(children.next().unwrap().unwrap().name, b"kid".to_vec());
    assert!(children.next().unwrap().is_none());
}

#[test]
fn align_up_rounds_to_boundary() {
    assert_eq!(align_up(0, 4), 0);
    assert_eq!(align_up(1, 4), 4);
    assert_eq!(align_up(4, 4), 4);
    assert_eq!(align_up(5, 4), 8);
    assert_eq!(align_up(11, 4), 12);
    assert_eq!(align_up(7, 8), 8);
}

#[test]
fn utf8_validation_follows_the_table() {
    assert!(is_valid_utf8(b""));
    assert!(is_valid_utf8(b"compatible"));
    assert!(is_valid_utf8("héllo, wörld — ©".as_bytes()));
    assert!(is_valid_utf8("日本語".as_bytes()));
    assert!(is_valid_utf8("𝄞".as_bytes())); // four-byte sequence
    assert!(!is_valid_utf8(&[0xC0, 0x80])); // overlong
    assert!(!is_valid_utf8(&[0xED, 0xA0, 0x80])); // surrogate
    assert!(!is_valid_utf8(&[0xF4, 0x90, 0x80, 0x80])); // above U+10FFFF
    assert!(!is_valid_utf8(&[0xFF]));
    assert!(!is_valid_utf8(&[0xE2, 0x82])); // cut short
}
