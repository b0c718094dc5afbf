use pdbstore::container::Container;
use pdbstore::error::{DecodeError, PathError, ResolveError};
use pdbstore::report::{report_field, report_line};
use pdbstore::resolver::{resolve_field_path, resolve_symbol};
use pdbstore::store::{parse_pdb, Store};
use pdbstore::symbols::{decode_symbols, SymbolKind, SymbolRecord};
use pdbstore::types::{decode_types, EnumMember, Field, TypeEntry, TypeRecord, FIRST_TYPE_INDEX};

fn put16(v: &mut Vec<u8>, x: u16) {
    v.extend_from_slice(&x.to_le_bytes());
}

fn put32(v: &mut Vec<u8>, x: u32) {
    v.extend_from_slice(&x.to_le_bytes());
}

fn put_name(v: &mut Vec<u8>, name: &str) {
    v.push(name.len() as u8);
    v.extend_from_slice(name.as_bytes());
}

fn record(tag: u16, body: &[u8]) -> Vec<u8> {
    let mut v = Vec::new();
    put16(&mut v, (body.len() + 2) as u16);
    put16(&mut v, tag);
    v.extend_from_slice(body);
    v
}

fn symbol(tag: u16, first: u32, offset: u32, section: u16, name: &str) -> Vec<u8> {
    let mut body = Vec::new();
    put32(&mut body, first);
    put32(&mut body, offset);
    put16(&mut body, section);
    body.extend_from_slice(name.as_bytes());
    record(tag, &body)
}

fn aggregate(tag: u16, size: u32, name: &str, fields: &[(u32, u32, &str)]) -> Vec<u8> {
    let mut body = Vec::new();
    put32(&mut body, size);
    put_name(&mut body, name);
    for (offset, ty, field) in fields {
        put32(&mut body, *offset);
        put32(&mut body, *ty);
        put_name(&mut body, field);
    }
    record(tag, &body)
}

fn forward_ref(name: &str) -> Vec<u8> {
    let mut body = Vec::new();
    put_name(&mut body, name);
    record(0x1509, &body)
}

fn pointer(target: u32) -> Vec<u8> {
    record(0x1002, &target.to_le_bytes())
}

fn modifier(target: u32, qualifiers: u16) -> Vec<u8> {
    let mut body = Vec::new();
    put32(&mut body, target);
    put16(&mut body, qualifiers);
    record(0x1001, &body)
}

fn field(name: &str, offset_bytes: u32, type_index: u32) -> Field {
    Field { name: name.as_bytes().to_vec(), offset_bytes, type_index }
}

fn container(page_size: u32, streams: &[Vec<u8>]) -> Vec<u8> {
    let ps = page_size as usize;
    let mut pages: Vec<Vec<u8>> = vec![vec![0u8; ps]];
    let mut dir: Vec<u8> = Vec::new();
    put32(&mut dir, streams.len() as u32);
    for s in streams {
        put32(&mut dir, s.len() as u32);
        for chunk in s.chunks(ps) {
            put32(&mut dir, pages.len() as u32);
            let mut page = chunk.to_vec();
            page.resize(ps, 0);
            pages.push(page);
        }
    }
    let dir_page = pages.len() as u32;
    for chunk in dir.chunks(ps) {
        let mut page = chunk.to_vec();
        page.resize(ps, 0);
        pages.push(page);
    }
    let mut header: Vec<u8> = b"MSF7".to_vec();
    put32(&mut header, page_size);
    put32(&mut header, pages.len() as u32);
    put32(&mut header, dir_page);
    put32(&mut header, dir.len() as u32);
    pages[0][..header.len()].copy_from_slice(&header);
    pages.concat()
}

fn store_of(symbols: &[Vec<u8>], types: &[Vec<u8>]) -> Store {
    let built = Store::build(decode_symbols(&symbols.concat()), decode_types(&types.concat()));
    match built {
        Ok(store) => store,
        Err(e) => panic!("build failed: {:?}", e),
    }
}

fn kprcb_types() -> Vec<Vec<u8>> {
    vec![
        aggregate(0x1505, 0x40, "KTHREAD", &[(0x0, 0x75, "Header"), (0x18, 0x75, "Stack")]),
        pointer(0x1000),
        modifier(0x1000, 1),
        aggregate(
            0x1505,
            0x100,
            "KPRCB",
            &[(0x0, 0x75, "MxCsr"), (0x8, 0x1001, "CurrentThread"), (0x20, 0x1002, "Idle")],
        ),
    ]
}

#[test]
fn open_reads_every_stream_with_its_declared_length() {
    let a: Vec<u8> = (0..1000u32).map(|i| (i % 251) as u8).collect();
    let b: Vec<u8> = vec![7, 8, 9];
    let c: Vec<u8> = Vec::new();
    let d: Vec<u8> = (0..512u32).map(|i| (i % 13) as u8).collect();
    let bytes = container(512, &[a.clone(), b.clone(), c.clone(), d.clone()]);
    let handle = Container::open(bytes).unwrap();
    assert_eq!(handle.page_size(), 512);
    assert_eq!(handle.page_count(), 6);
    assert_eq!(handle.stream_count(), 4);
    assert_eq!(handle.stream_length(0), Some(1000));
    assert_eq!(handle.stream_length(4), None);
    assert_eq!(handle.read_stream(0), Ok(a));
    assert_eq!(handle.read_stream(1), Ok(b));
    assert_eq!(handle.read_stream(2), Ok(c));
    assert_eq!(handle.read_stream(3), Ok(d));
}

#[test]
fn streams_are_gathered_from_scattered_pages() {
    let mut bytes = vec![0u8; 4 * 512];
    let mut header: Vec<u8> = b"MSF7".to_vec();
    put32(&mut header, 512);
    put32(&mut header, 4);
    put32(&mut header, 2);
    put32(&mut header, 16);
    bytes[..20].copy_from_slice(&header);
    for i in 0..512 {
        bytes[512 + i] = 0xBB;
        bytes[3 * 512 + i] = 0xAA;
    }
    let mut dir = Vec::new();
    put32(&mut dir, 1);
    put32(&mut dir, 514);
    put32(&mut dir, 3);
    put32(&mut dir, 1);
    bytes[1024..1040].copy_from_slice(&dir);
    let handle = Container::open(bytes).unwrap();
    let stream = handle.read_stream(0).unwrap();
    assert_eq!(stream.len(), 514);
    assert_eq!(stream[0], 0xAA);
    assert_eq!(stream[511], 0xAA);
    assert_eq!(stream[512], 0xBB);
    assert_eq!(stream[513], 0xBB);
}

#[test]
fn read_stream_past_the_directory_is_out_of_range() {
    let handle = Container::open(container(512, &[vec![1, 2, 3]])).unwrap();
    assert_eq!(handle.read_stream(1), Err(DecodeError::OutOfRange));
}

#[test]
fn open_rejects_a_wrong_signature() {
    let mut bytes = container(512, &[vec![1]]);
    bytes[3] = b'8';
    assert!(matches!(Container::open(bytes), Err(DecodeError::MalformedContainer)));
}

#[test]
fn open_rejects_a_page_size_that_is_no_power_of_two() {
    let mut bytes = container(512, &[vec![1]]);
    bytes[4..8].copy_from_slice(&768u32.to_le_bytes());
    assert!(matches!(Container::open(bytes), Err(DecodeError::MalformedContainer)));
    let mut small = container(512, &[vec![1]]);
    small[4..8].copy_from_slice(&256u32.to_le_bytes());
    assert!(matches!(Container::open(small), Err(DecodeError::MalformedContainer)));
}

#[test]
fn open_rejects_a_short_header() {
    assert!(matches!(Container::open(b"MSF7".to_vec()), Err(DecodeError::TruncatedInput)));
    assert!(matches!(Container::open(Vec::new()), Err(DecodeError::TruncatedInput)));
}

#[test]
fn open_rejects_more_pages_than_the_buffer_holds() {
    let mut bytes = container(512, &[vec![1]]);
    bytes.truncate(1024 + 100);
    assert!(matches!(Container::open(bytes), Err(DecodeError::TruncatedInput)));
}

#[test]
fn open_rejects_a_page_index_past_the_last_page() {
    let mut bytes = container(512, &[vec![1, 2, 3]]);
    let dir = 2 * 512;
    bytes[dir + 8..dir + 12].copy_from_slice(&3u32.to_le_bytes());
    assert!(matches!(Container::open(bytes), Err(DecodeError::OutOfRange)));
}

#[test]
fn open_rejects_a_directory_page_past_the_last_page() {
    let mut bytes = container(512, &[vec![1, 2, 3]]);
    bytes[12..16].copy_from_slice(&3u32.to_le_bytes());
    assert!(matches!(Container::open(bytes), Err(DecodeError::OutOfRange)));
}

#[test]
fn declared_stream_length_past_the_buffer_is_truncated_input() {
    let mut bytes = container(512, &[vec![1, 2, 3]]);
    let dir = 2 * 512;
    bytes[dir + 4..dir + 8].copy_from_slice(&5000u32.to_le_bytes());
    assert!(matches!(Container::open(bytes.clone()), Err(DecodeError::TruncatedInput)));
    assert!(matches!(parse_pdb(bytes), Err(DecodeError::TruncatedInput)));
}

#[test]
fn directory_cut_short_is_truncated_input() {
    let mut bytes = container(512, &[vec![1, 2, 3]]);
    bytes[16..20].copy_from_slice(&8u32.to_le_bytes());
    assert!(matches!(Container::open(bytes), Err(DecodeError::TruncatedInput)));
}

#[test]
fn symbols_decode_in_order_and_unknown_kinds_are_skipped() {
    let stream = [
        symbol(0x110E, 2, 0x1234, 1, "KeBugCheck"),
        record(0x1125, &[1, 2, 3, 4, 5]),
        symbol(0x110D, 0x1003, 0x20, 2, "KiTable"),
        record(0x0006, &[]),
        symbol(0x110C, 0x74, 0x30, 3, "local"),
        symbol(0x1113, 0x75, 0x40, 4, "tls"),
    ]
    .concat();
    let symbols = decode_symbols(&stream).unwrap();
    assert_eq!(
        symbols,
        vec![
            SymbolRecord {
                name: b"KeBugCheck".to_vec(),
                kind: SymbolKind::Public,
                section_index: 1,
                section_offset: 0x1234,
                type_ref: None,
            },
            SymbolRecord {
                name: b"KiTable".to_vec(),
                kind: SymbolKind::Global,
                section_index: 2,
                section_offset: 0x20,
                type_ref: Some(0x1003),
            },
            SymbolRecord {
                name: b"local".to_vec(),
                kind: SymbolKind::Local,
                section_index: 3,
                section_offset: 0x30,
                type_ref: Some(0x74),
            },
            SymbolRecord {
                name: b"tls".to_vec(),
                kind: SymbolKind::Other,
                section_index: 4,
                section_offset: 0x40,
                type_ref: Some(0x75),
            },
        ]
    );
}

#[test]
fn empty_symbol_stream_has_no_symbols() {
    assert_eq!(decode_symbols(&[]), Ok(Vec::new()));
}

#[test]
fn symbol_record_reaching_past_the_stream_is_truncated_input() {
    let mut stream = symbol(0x110E, 0, 1, 1, "Foo");
    stream.pop();
    assert_eq!(decode_symbols(&stream), Err(DecodeError::TruncatedInput));
    let mut unknown = record(0x1125, &[1, 2, 3]);
    unknown.pop();
    assert_eq!(decode_symbols(&unknown), Err(DecodeError::TruncatedInput));
    assert_eq!(decode_symbols(&[4, 0, 0x0E]), Err(DecodeError::TruncatedInput));
}

#[test]
fn symbol_record_too_short_for_its_fields_is_truncated_input() {
    let stream = record(0x110E, &[0, 0, 0, 0, 1, 0, 0, 0]);
    assert_eq!(decode_symbols(&stream), Err(DecodeError::TruncatedInput));
    assert_eq!(decode_symbols(&[1, 0, 0x0E, 0x11]), Err(DecodeError::TruncatedInput));
}

#[test]
fn struct_with_two_fields_decodes_in_declaration_order() {
    let stream = aggregate(0x1505, 8, "S", &[(0, 0x75, "a"), (4, 0x75, "b")]);
    let types = decode_types(&stream).unwrap();
    assert_eq!(
        types,
        vec![TypeEntry {
            index: 0x1000,
            record: TypeRecord::Struct {
                name: b"S".to_vec(),
                size_bytes: 8,
                fields: vec![field("a", 0, 0x75), field("b", 4, 0x75)],
            },
            layout_consistent: true,
        }]
    );
}

#[test]
fn every_kind_of_type_record_decodes_and_gets_the_next_index() {
    let mut enum_body = Vec::new();
    put32(&mut enum_body, 0x74);
    put_name(&mut enum_body, "Color");
    put32(&mut enum_body, 0);
    put_name(&mut enum_body, "Red");
    put32(&mut enum_body, 5);
    put_name(&mut enum_body, "Blue");
    let mut array_body = Vec::new();
    put32(&mut array_body, 0x1000);
    put32(&mut array_body, 16);
    let stream = [
        forward_ref("U"),
        aggregate(0x1506, 4, "U", &[(0, 0x75, "x"), (0, 0x20, "y")]),
        record(0x1507, &enum_body),
        pointer(0x1001),
        record(0x1503, &array_body),
        modifier(0x1001, 3),
        record(0x1201, &[9, 9, 9]),
    ]
    .concat();
    let types = decode_types(&stream).unwrap();
    let records: Vec<TypeRecord> = types.iter().map(|e| e.record.clone()).collect();
    let indices: Vec<u32> = types.iter().map(|e| e.index).collect();
    assert_eq!(indices, vec![0x1000, 0x1001, 0x1002, 0x1003, 0x1004, 0x1005, 0x1006]);
    assert_eq!(FIRST_TYPE_INDEX, 0x1000);
    assert_eq!(
        records,
        vec![
            TypeRecord::ForwardRef { name: b"U".to_vec() },
            TypeRecord::Union {
                name: b"U".to_vec(),
                size_bytes: 4,
                fields: vec![field("x", 0, 0x75), field("y", 0, 0x20)],
            },
            TypeRecord::Enum {
                name: b"Color".to_vec(),
                underlying_type: 0x74,
                members: vec![
                    EnumMember { name: b"Red".to_vec(), value: 0 },
                    EnumMember { name: b"Blue".to_vec(), value: 5 },
                ],
            },
            TypeRecord::Pointer { target: 0x1001 },
            TypeRecord::Array { element: 0x1000, count: 16 },
            TypeRecord::Modifier { target: 0x1001, qualifiers: 3 },
            TypeRecord::Other { tag: 0x1201 },
        ]
    );
    assert!(types.iter().all(|e| e.layout_consistent));
}

#[test]
fn field_outside_the_declared_size_is_flagged_not_refused() {
    let mut empty_array = Vec::new();
    put32(&mut empty_array, 0x75);
    put32(&mut empty_array, 0);
    let mut full_array = Vec::new();
    put32(&mut full_array, 0x75);
    put32(&mut full_array, 4);
    let stream = [
        record(0x1503, &empty_array),
        record(0x1503, &full_array),
        aggregate(0x1505, 8, "Bad", &[(0, 0x75, "a"), (12, 0x75, "b")]),
        aggregate(0x1505, 8, "Tail", &[(0, 0x75, "a"), (8, 0x1000, "rest")]),
        aggregate(0x1505, 8, "Mid", &[(8, 0x1000, "a"), (0, 0x75, "b")]),
        aggregate(0x1505, 8, "Over", &[(0, 0x75, "a"), (8, 0x1001, "rest")]),
        aggregate(0x1505, 8, "Plain", &[(0, 0x75, "a"), (8, 0x75, "rest")]),
        aggregate(0x1505, 8, "Ahead", &[(0, 0x75, "a"), (8, 0x1008, "rest")]),
        record(0x1503, &empty_array),
        aggregate(0x1505, 0, "Empty", &[]),
    ]
    .concat();
    let types = decode_types(&stream).unwrap();
    let flags: Vec<bool> = types.iter().map(|e| e.layout_consistent).collect();
    assert_eq!(flags, vec![true, true, false, true, false, false, false, false, true, true]);
}

#[test]
fn type_record_cut_short_is_truncated_input() {
    let mut stream = aggregate(0x1505, 8, "S", &[(0, 0x75, "a")]);
    stream.pop();
    assert_eq!(decode_types(&stream), Err(DecodeError::TruncatedInput));
    assert_eq!(decode_types(&record(0x1002, &[1, 2])), Err(DecodeError::TruncatedInput));
    assert_eq!(decode_types(&record(0x1503, &[1, 2, 3, 4])), Err(DecodeError::TruncatedInput));
    assert_eq!(decode_types(&record(0x1001, &[1, 2, 3, 4])), Err(DecodeError::TruncatedInput));
    assert_eq!(decode_types(&record(0x1509, &[5, b'a'])), Err(DecodeError::TruncatedInput));
    assert_eq!(decode_types(&record(0x1505, &[8, 0, 0, 0, 1, b'S', 0, 0, 0])), Err(DecodeError::TruncatedInput));
}

#[test]
fn forward_reference_resolves_to_the_later_definition() {
    let store = store_of(&[], &[forward_ref("S"), aggregate(0x1505, 8, "S", &[(0, 0x75, "a"), (4, 0x75, "b")])]);
    assert_eq!(store.lookup_type(b"S"), Some(0x1001));
    assert!(matches!(store.resolve(0x1001), Some(TypeRecord::Struct { size_bytes: 8, .. })));
    assert_eq!(store.unresolved_forward_refs(), Vec::<u32>::new());
    assert_eq!(store.type_count(), 2);
}

#[test]
fn forward_reference_without_a_definition_is_reported_and_kept() {
    let store = store_of(&[], &[pointer(0x75), forward_ref("Ghost"), forward_ref("S"), aggregate(0x1506, 4, "S", &[])]);
    assert_eq!(store.unresolved_forward_refs(), vec![0x1001]);
    assert_eq!(store.lookup_type(b"Ghost"), Some(0x1001));
    assert_eq!(store.lookup_definition(b"Ghost"), None);
    assert!(!store.has_definition(b"Ghost"));
    assert!(store.has_definition(b"S"));
    assert_eq!(store.resolve(0x1001), Some(&TypeRecord::ForwardRef { name: b"Ghost".to_vec() }));
    assert_eq!(store.lookup_type(b"Nobody"), None);
}

#[test]
fn resolve_knows_no_built_in_type_and_no_index_past_the_end() {
    let store = store_of(&[], &[pointer(0x75)]);
    assert_eq!(store.resolve(0x75), None);
    assert_eq!(store.resolve(0x0FFF), None);
    assert_eq!(store.resolve(0x1000), Some(&TypeRecord::Pointer { target: 0x75 }));
    assert_eq!(store.resolve(0x1001), None);
    assert_eq!(store.entry(0x1000).map(|e| e.index), Some(0x1000));
}

#[test]
fn public_symbol_wins_whatever_the_decode_order() {
    let public = symbol(0x110E, 0, 0x100, 1, "Foo");
    let local = symbol(0x110C, 0x75, 0x200, 2, "Foo");
    let first = store_of(&[public.clone(), local.clone()], &[]);
    let second = store_of(&[local, public], &[]);
    for store in [&first, &second] {
        let found = store.lookup_symbol(b"Foo").unwrap();
        assert_eq!(found.kind, SymbolKind::Public);
        assert_eq!(found.section_offset, 0x100);
    }
    assert_eq!(first.symbol_count(), 2);
    assert_eq!(first.find_symbol(b"Foo", SymbolKind::Local), Some(1));
    assert_eq!(second.find_symbol(b"Foo", SymbolKind::Local), Some(0));
    assert_eq!(first.find_symbol(b"Foo", SymbolKind::Global), None);
}

#[test]
fn symbol_kinds_rank_and_the_first_of_a_kind_is_kept() {
    let store = store_of(
        &[
            symbol(0x1112, 0x75, 1, 1, "A"),
            symbol(0x110C, 0x75, 2, 1, "A"),
            symbol(0x110D, 0x75, 3, 1, "A"),
            symbol(0x110D, 0x75, 4, 1, "A"),
            symbol(0x1113, 0x75, 5, 1, "B"),
            symbol(0x110C, 0x75, 6, 1, "B"),
            symbol(0x1112, 0x75, 7, 1, "C"),
            symbol(0x1113, 0x75, 8, 1, "C"),
        ],
        &[],
    );
    assert_eq!(store.lookup_symbol(b"A").map(|s| s.section_offset), Some(3));
    assert_eq!(store.lookup_symbol(b"B").map(|s| s.section_offset), Some(6));
    assert_eq!(store.lookup_symbol(b"C").map(|s| s.section_offset), Some(7));
    assert_eq!(store.lookup_symbol(b"D"), None);
}

#[test]
fn dangling_reference_fails_the_build() {
    let dangling_type = Store::build(Ok(Vec::new()), decode_types(&pointer(0x1001)));
    assert!(matches!(dangling_type, Err(DecodeError::OutOfRange)));
    let dangling_field = Store::build(Ok(Vec::new()), decode_types(&aggregate(0x1505, 8, "S", &[(0, 0x1005, "a")])));
    assert!(matches!(dangling_field, Err(DecodeError::OutOfRange)));
    let dangling_symbol = Store::build(decode_symbols(&symbol(0x110D, 0x1000, 0, 1, "g")), Ok(Vec::new()));
    assert!(matches!(dangling_symbol, Err(DecodeError::OutOfRange)));
    let self_reference = Store::build(Ok(Vec::new()), decode_types(&pointer(0x1000)));
    assert!(self_reference.is_ok());
}

#[test]
fn entries_with_wrong_indices_fail_the_build() {
    let entry = TypeEntry { index: 0x1001, record: TypeRecord::Pointer { target: 0x75 }, layout_consistent: true };
    assert!(matches!(Store::build(Ok(Vec::new()), Ok(vec![entry])), Err(DecodeError::OutOfRange)));
}

#[test]
fn build_fails_where_either_stream_failed() {
    let types = || decode_types(&pointer(0x75));
    let symbols = || decode_symbols(&symbol(0x110E, 0, 0, 1, "x"));
    assert!(matches!(Store::build(Err(DecodeError::TruncatedInput), types()), Err(DecodeError::TruncatedInput)));
    assert!(matches!(Store::build(symbols(), Err(DecodeError::OutOfRange)), Err(DecodeError::OutOfRange)));
    assert!(matches!(
        Store::build(Err(DecodeError::TruncatedInput), Err(DecodeError::OutOfRange)),
        Err(DecodeError::TruncatedInput)
    ));
    assert!(Store::build(symbols(), types()).is_ok());
}

#[test]
fn field_path_adds_the_offset_to_the_base() {
    let store = store_of(&[], &kprcb_types());
    assert_eq!(resolve_field_path(&store, 0x1000, b"KPRCB.CurrentThread"), Ok(0x1008));
    assert_eq!(resolve_field_path(&store, 0x1000, b"KPRCB"), Ok(0x1000));
    assert_eq!(resolve_field_path(&store, 0x1000, b"KPRCB.MxCsr"), Ok(0x1000));
}

#[test]
fn unknown_field_is_a_path_error() {
    let store = store_of(&[], &kprcb_types());
    assert_eq!(
        resolve_field_path(&store, 0x1000, b"KPRCB.NoSuchField"),
        Err(ResolveError::Path(PathError::UnknownField))
    );
    assert_eq!(resolve_field_path(&store, 0x1000, b"KPRCB."), Err(ResolveError::Path(PathError::UnknownField)));
}

#[test]
fn unknown_root_type_is_not_found() {
    let store = store_of(&[], &kprcb_types());
    assert_eq!(resolve_field_path(&store, 0x1000, b"EPROCESS.Pcb"), Err(ResolveError::NotFound));
    assert_eq!(resolve_field_path(&store, 0x1000, b""), Err(ResolveError::NotFound));
}

#[test]
fn path_does_not_go_through_a_pointer_or_a_built_in_type() {
    let store = store_of(&[], &kprcb_types());
    assert_eq!(
        resolve_field_path(&store, 0x1000, b"KPRCB.CurrentThread.Stack"),
        Err(ResolveError::Path(PathError::NotAggregate))
    );
    assert_eq!(
        resolve_field_path(&store, 0x1000, b"KPRCB.MxCsr.x"),
        Err(ResolveError::Path(PathError::NotAggregate))
    );
}

#[test]
fn path_goes_through_modifiers_and_nested_aggregates() {
    let store = store_of(&[], &kprcb_types());
    assert_eq!(resolve_field_path(&store, 0x1000, b"KPRCB.Idle.Stack"), Ok(0x1038));
    assert_eq!(resolve_field_path(&store, 0x1000, b"KPRCB.Idle"), Ok(0x1020));
}

#[test]
fn path_goes_through_a_resolved_forward_reference_only() {
    let store = store_of(
        &[],
        &[
            forward_ref("Inner"),
            forward_ref("Lost"),
            aggregate(0x1505, 0x20, "Outer", &[(0x10, 0x1000, "inner"), (0x18, 0x1001, "lost")]),
            aggregate(0x1505, 8, "Inner", &[(4, 0x75, "x")]),
        ],
    );
    assert_eq!(resolve_field_path(&store, 0x100, b"Outer.inner.x"), Ok(0x114));
    assert_eq!(resolve_field_path(&store, 0x100, b"Outer.lost"), Ok(0x118));
    assert_eq!(
        resolve_field_path(&store, 0x100, b"Outer.lost.x"),
        Err(ResolveError::Path(PathError::NotAggregate))
    );
    assert_eq!(
        resolve_field_path(&store, 0x100, b"Lost.x"),
        Err(ResolveError::Path(PathError::NotAggregate))
    );
}

#[test]
fn modifier_that_modifies_itself_is_no_aggregate() {
    let store = store_of(&[], &[modifier(0x1000, 1), aggregate(0x1505, 8, "S", &[(0, 0x1000, "m")])]);
    assert_eq!(resolve_field_path(&store, 0, b"S.m.x"), Err(ResolveError::Path(PathError::NotAggregate)));
}

#[test]
fn symbol_address_is_base_plus_offset() {
    let store = store_of(&[symbol(0x110E, 0, 0x2A0, 1, "KiInitialPCR")], &[]);
    assert_eq!(resolve_symbol(&store, 0xFFFF_F800_0000_0000, b"KiInitialPCR"), Ok(0xFFFF_F800_0000_02A0));
    assert_eq!(resolve_symbol(&store, 0x1000, b"Missing"), Err(ResolveError::NotFound));
}

#[test]
fn addresses_wrap_at_sixty_four_bits() {
    let store = store_of(&[symbol(0x110E, 0, 0x10, 1, "s")], &[aggregate(0x1505, 0x40, "S", &[(0x20, 0x75, "f")])]);
    assert_eq!(resolve_symbol(&store, u64::MAX, b"s"), Ok(0xF));
    assert_eq!(resolve_field_path(&store, u64::MAX - 1, b"S.f"), Ok(0x1E));
}

#[test]
fn whole_buffer_parses_into_a_store() {
    let types = kprcb_types().concat();
    let symbols = [symbol(0x110E, 0, 0x500, 1, "KiProcessorBlock"), symbol(0x110D, 0x1003, 0x600, 2, "Prcb")].concat();
    let bytes = container(1024, &[Vec::new(), vec![0; 40], types, symbols]);
    let store = parse_pdb(bytes).ok().unwrap();
    assert_eq!(store.symbol_count(), 2);
    assert_eq!(store.type_count(), 4);
    assert_eq!(resolve_symbol(&store, 0x140000000, b"KiProcessorBlock"), Ok(0x140000500));
    assert_eq!(resolve_field_path(&store, 0x1000, b"KPRCB.CurrentThread"), Ok(0x1008));
    assert_eq!(store.lookup_symbol(b"Prcb").and_then(|s| s.type_ref), Some(0x1003));
}

#[test]
fn buffer_without_the_two_streams_gives_no_store() {
    let bytes = container(512, &[Vec::new(), Vec::new(), Vec::new()]);
    assert!(matches!(parse_pdb(bytes), Err(DecodeError::OutOfRange)));
}

#[test]
fn corrupt_stream_fails_the_whole_parse() {
    let mut types = kprcb_types().concat();
    types.pop();
    let bytes = container(512, &[Vec::new(), Vec::new(), types, Vec::new()]);
    assert!(matches!(parse_pdb(bytes), Err(DecodeError::TruncatedInput)));
}

#[test]
fn inconsistent_layouts_are_listed_with_the_store() {
    let store = store_of(
        &[],
        &[
            aggregate(0x1505, 8, "Fine", &[(0, 0x75, "a")]),
            aggregate(0x1505, 8, "Bad", &[(9, 0x75, "a")]),
            aggregate(0x1506, 2, "Worse", &[(4, 0x75, "a"), (2, 0x75, "b")]),
        ],
    );
    assert_eq!(store.inconsistent_layouts(), vec![0x1001, 0x1002]);
    assert_eq!(store.entry(0x1001).map(|e| e.layout_consistent), Some(false));
    assert_eq!(resolve_field_path(&store, 0x10, b"Bad.a"), Ok(0x19));
}

#[test]
fn report_line_shows_the_address_or_a_mark() {
    assert_eq!(report_line("KPRCB.CurrentThread", Ok(0x1008)), "KPRCB.CurrentThread @ 0x1008");
    assert_eq!(report_line("A.b", Ok(0)), "A.b @ 0x0");
    assert_eq!(report_line("A.b", Ok(0xFFFF_F800_0000_ABCD)), "A.b @ 0xfffff8000000abcd");
    assert_eq!(report_line("A.b", Err(ResolveError::NotFound)), "A.b @ <unresolved>");
    assert_eq!(report_line("A.b", Err(ResolveError::Path(PathError::UnknownField))), "A.b @ <unresolved>");
}

#[test]
fn report_field_resolves_and_reports() {
    let store = store_of(&[], &kprcb_types());
    assert_eq!(report_field(&store, 0x1000, "KPRCB.CurrentThread"), "KPRCB.CurrentThread @ 0x1008");
    assert_eq!(report_field(&store, 0x1000, "KPRCB.Missing"), "KPRCB.Missing @ <unresolved>");
    assert_eq!(report_field(&store, 0x1000, "Nothing.x"), "Nothing.x @ <unresolved>");
}
