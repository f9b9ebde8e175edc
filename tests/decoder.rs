use classfile::attributes::{read_attribute, read_attributes, read_exception_table, read_line_number_table};
use classfile::annotations::{read_annotation, read_element_value};
use classfile::cursor::{read_bytes, read_length_and_utf8, read_u1, read_u2, read_u4, read_u8};
use classfile::flags::{parse_access_flags, parse_field_flags, parse_method_flags, read_access_flags};
use classfile::pool::{read_class, read_constant_pool, read_constant_pool_entry, read_utf8_from_constant_pool, resolve_class, resolve_entry};
use classfile::reader::read_class_file;
use classfile::types::{
    AccessFlag, Attribute, ConstantPoolEntry, ElementValue, EntryKind, FieldFlag, MethodFlag, ParsingError,
};

fn u2(v: u16) -> Vec<u8> {
    vec![(v >> 8) as u8, v as u8]
}

fn u4(v: u32) -> Vec<u8> {
    v.to_be_bytes().to_vec()
}

fn utf8(s: &str) -> Vec<u8> {
    let mut out = vec![1u8];
    out.extend(u2(s.len() as u16));
    out.extend(s.as_bytes());
    out
}

fn class_entry(name_index: u16) -> Vec<u8> {
    let mut out = vec![7u8];
    out.extend(u2(name_index));
    out
}

fn pool_of(entries: &[Vec<u8>], count: u16) -> Vec<u8> {
    let mut out = u2(count);
    for e in entries {
        out.extend(e);
    }
    out
}

fn utf8_pool(names: &[&str]) -> Vec<ConstantPoolEntry> {
    names.iter().map(|n| ConstantPoolEntry::Utf8Info { value: n.to_string() }).collect()
}

/// A small but complete classfile: a class with an interface, a boolean constant field,
/// a method with Code, LineNumberTable and Exceptions, a SourceFile and an unknown attribute.
fn sample_class() -> Vec<u8> {
    let mut b = vec![0xCA, 0xFE, 0xBA, 0xBE, 0x00, 0x00, 0x00, 0x34];
    let mut long_entry = vec![5u8];
    long_entry.extend(42u64.to_be_bytes());
    let mut int_entry = vec![3u8];
    int_entry.extend(u4(1));
    let entries = vec![
        utf8("Sample"),
        class_entry(1),
        utf8("java/lang/Object"),
        class_entry(3),
        utf8("java/io/Serializable"),
        class_entry(5),
        utf8("FLAG"),
        utf8("Z"),
        utf8("ConstantValue"),
        int_entry,
        utf8("run"),
        utf8("()V"),
        utf8("Code"),
        utf8("LineNumberTable"),
        utf8("Exceptions"),
        utf8("java/io/IOException"),
        class_entry(16),
        utf8("SourceFile"),
        utf8("Sample.java"),
        long_entry,
        utf8("Foo"),
    ];
    b.extend(pool_of(&entries, 23));
    b.extend(u2(0x0021));
    b.extend(u2(2));
    b.extend(u2(4));
    b.extend(u2(1));
    b.extend(u2(6));
    // one field: public static final boolean FLAG = 1
    b.extend(u2(1));
    b.extend(u2(0x0019));
    b.extend(u2(7));
    b.extend(u2(8));
    b.extend(u2(1));
    b.extend(u2(9));
    b.extend(u4(2));
    b.extend(u2(10));
    // one method: public ()V run, with Code and Exceptions
    b.extend(u2(1));
    b.extend(u2(0x0001));
    b.extend(u2(11));
    b.extend(u2(12));
    b.extend(u2(2));
    b.extend(u2(13));
    b.extend(u4(25));
    b.extend(u2(1));
    b.extend(u2(1));
    b.extend(u4(1));
    b.push(0xB1);
    b.extend(u2(0));
    b.extend(u2(1));
    b.extend(u2(14));
    b.extend(u4(6));
    b.extend(u2(1));
    b.extend(u2(0));
    b.extend(u2(3));
    b.extend(u2(15));
    b.extend(u4(4));
    b.extend(u2(1));
    b.extend(u2(17));
    // class attributes: SourceFile and an unknown one
    b.extend(u2(2));
    b.extend(u2(18));
    b.extend(u4(2));
    b.extend(u2(19));
    b.extend(u2(22));
    b.extend(u4(3));
    b.extend([1u8, 2, 3]);
    b
}

#[test]
fn reads_big_endian_integers() {
    let b = vec![0x01, 0x02, 0x03, 0x04, 0x05, 0x06, 0x07, 0x08, 0x09];
    let mut i = 0usize;
    assert_eq!(read_u1(&b, &mut i), Ok(0x01));
    assert_eq!(read_u2(&b, &mut i), Ok(0x0203));
    assert_eq!(read_u4(&b, &mut i), Ok(0x04050607));
    assert_eq!(i, 7);
    let mut j = 1usize;
    assert_eq!(read_u8(&b, &mut j), Ok(0x0203040506070809));
    assert_eq!(j, 9);
}

#[test]
fn short_reads_fail_without_moving() {
    let b = vec![0x01, 0x02, 0x03];
    let mut i = 1usize;
    assert_eq!(read_u4(&b, &mut i), Err(ParsingError::UnexpectedEof { offset: 1, wanted: 4 }));
    assert_eq!(i, 1);
    assert_eq!(read_u8(&b, &mut i), Err(ParsingError::UnexpectedEof { offset: 1, wanted: 8 }));
    let mut end = 3usize;
    assert_eq!(read_u1(&b, &mut end), Err(ParsingError::UnexpectedEof { offset: 3, wanted: 1 }));
    assert_eq!(read_bytes(&b, &mut i, 3), Err(ParsingError::UnexpectedEof { offset: 1, wanted: 3 }));
    assert_eq!(read_bytes(&b, &mut i, 2), Ok(vec![0x02, 0x03]));
    assert_eq!(i, 3);
}

#[test]
fn reads_multibyte_utf8() {
    let text = "h\u{e9}llo \u{2603}";
    let mut b = u2(text.len() as u16);
    b.extend(text.as_bytes());
    let mut i = 0usize;
    assert_eq!(read_length_and_utf8(&b, &mut i), Ok(text.to_string()));
    assert_eq!(i, b.len());
}

#[test]
fn invalid_utf8_is_an_error() {
    let b = vec![0x00, 0x02, 0xFF, 0xFE];
    let mut i = 0usize;
    assert_eq!(read_length_and_utf8(&b, &mut i), Err(ParsingError::InvalidUtf8 { offset: 2 }));
}

#[test]
fn minimal_header_fails_on_this_class() {
    let b = vec![
        0xCA, 0xFE, 0xBA, 0xBE, 0x00, 0x00, 0x00, 0x34, 0x00, 0x01, 0x00, 0x00, 0x00, 0x01, 0x00, 0x00, 0x00, 0x00,
        0x00, 0x00, 0x00, 0x00,
    ];
    let mut i = 0usize;
    assert_eq!(read_u4(&b, &mut i), Ok(0xCAFEBABE));
    assert_eq!(read_u2(&b, &mut i), Ok(0));
    assert_eq!(read_u2(&b, &mut i), Ok(52));
    let pool = read_constant_pool(&b, &mut i).unwrap();
    assert!(pool.is_empty());
    assert_eq!(read_access_flags(&b, &mut i), Ok(vec![]));
    assert_eq!(
        read_class(&b, &mut i, &pool),
        Err(ParsingError::DanglingIndex { index: 1, offset: 12, expected: EntryKind::Class })
    );
    assert_eq!(
        read_class_file(&b),
        Err(ParsingError::DanglingIndex { index: 1, offset: 12, expected: EntryKind::Class })
    );
}

#[test]
fn long_takes_two_slots() {
    let mut long_entry = vec![5u8];
    long_entry.extend(42u64.to_be_bytes());
    let b = pool_of(&[long_entry, utf8("X")], 4);
    let mut i = 0usize;
    let pool = read_constant_pool(&b, &mut i).unwrap();
    assert_eq!(i, b.len());
    assert_eq!(
        pool,
        vec![
            ConstantPoolEntry::LongInfo { value: 42 },
            ConstantPoolEntry::Empty,
            ConstantPoolEntry::Utf8Info { value: "X".to_string() },
        ]
    );
    assert_eq!(read_utf8_from_constant_pool(&pool, 3, 0), Ok("X".to_string()));
    assert_eq!(
        read_utf8_from_constant_pool(&pool, 2, 0),
        Err(ParsingError::DanglingIndex { index: 2, offset: 0, expected: EntryKind::Utf8 })
    );
    assert_eq!(
        read_utf8_from_constant_pool(&pool, 1, 0),
        Err(ParsingError::WrongKind { offset: 0, expected: EntryKind::Utf8, actual: EntryKind::Long })
    );
}

#[test]
fn constant_value_naming_a_gap_fails() {
    let mut pool = vec![ConstantPoolEntry::LongInfo { value: 42 }, ConstantPoolEntry::Empty];
    pool.push(ConstantPoolEntry::Utf8Info { value: "ConstantValue".to_string() });
    let mut b = u2(3);
    b.extend(u4(2));
    b.extend(u2(2));
    let mut i = 0usize;
    assert_eq!(
        read_attribute(&b, &mut i, &pool),
        Err(ParsingError::DanglingIndex { index: 2, offset: 6, expected: EntryKind::Constant })
    );
    let mut b1 = u2(3);
    b1.extend(u4(2));
    b1.extend(u2(1));
    let mut j = 0usize;
    assert_eq!(
        read_attribute(&b1, &mut j, &pool),
        Ok(Attribute::ConstantValue { value: ConstantPoolEntry::LongInfo { value: 42 } })
    );
}

#[test]
fn gaps_follow_long_and_double() {
    let mut double_entry = vec![6u8];
    double_entry.extend(1.5f64.to_bits().to_be_bytes());
    let mut long_entry = vec![5u8];
    long_entry.extend(7u64.to_be_bytes());
    let mut float_entry = vec![4u8];
    float_entry.extend(2.5f32.to_bits().to_be_bytes());
    let b = pool_of(&[double_entry, utf8("a"), long_entry, float_entry], 7);
    let mut i = 0usize;
    let pool = read_constant_pool(&b, &mut i).unwrap();
    assert_eq!(
        pool,
        vec![
            ConstantPoolEntry::DoubleInfo { bits: 1.5f64.to_bits() },
            ConstantPoolEntry::Empty,
            ConstantPoolEntry::Utf8Info { value: "a".to_string() },
            ConstantPoolEntry::LongInfo { value: 7 },
            ConstantPoolEntry::Empty,
            ConstantPoolEntry::FloatInfo { bits: 2.5f32.to_bits() },
        ]
    );
    for (k, e) in pool.iter().enumerate() {
        let wide = k > 0
            && matches!(pool[k - 1], ConstantPoolEntry::LongInfo { .. } | ConstantPoolEntry::DoubleInfo { .. });
        assert_eq!(matches!(e, ConstantPoolEntry::Empty), wide);
    }
}

#[test]
fn every_pool_tag_decodes() {
    let cases: Vec<(Vec<u8>, ConstantPoolEntry)> = vec![
        (vec![7, 0, 9], ConstantPoolEntry::Class { name_index: 9 }),
        (vec![9, 0, 1, 0, 2], ConstantPoolEntry::Fieldref { class_index: 1, name_and_type_index: 2 }),
        (vec![10, 0, 3, 0, 4], ConstantPoolEntry::Methodref { class_index: 3, name_and_type_index: 4 }),
        (vec![11, 0, 5, 0, 6], ConstantPoolEntry::InterfaceMethodref { class_index: 5, name_and_type_index: 6 }),
        (vec![8, 0, 7], ConstantPoolEntry::StringInfo { string_index: 7 }),
        (vec![3, 0xFF, 0xFF, 0xFF, 0xFE], ConstantPoolEntry::IntegerInfo { value: 0xFFFFFFFE }),
        (vec![12, 0, 1, 0, 2], ConstantPoolEntry::NameAndTypeInfo { name_index: 1, descriptor_index: 2 }),
        (vec![15, 6, 0, 8], ConstantPoolEntry::MethodHandle { reference_kind: 6, reference_index: 8 }),
        (vec![16, 0, 3], ConstantPoolEntry::MethodTypeInfo { descriptor_index: 3 }),
        (vec![18, 0, 1, 0, 2], ConstantPoolEntry::InvokeDynamicInfo { bootstrap_method_attr_index: 1, name_and_type_index: 2 }),
    ];
    for (bytes, expected) in cases {
        let mut i = 0usize;
        assert_eq!(read_constant_pool_entry(&bytes, &mut i), Ok(expected));
        assert_eq!(i, bytes.len());
    }
}

#[test]
fn unknown_pool_tag_is_rejected() {
    for tag in [0u8, 2, 13, 14, 17, 19, 20] {
        let b = vec![tag, 0, 0, 0, 0];
        let mut i = 0usize;
        assert_eq!(read_constant_pool_entry(&b, &mut i), Err(ParsingError::InvalidTag { tag, offset: 0 }));
    }
}

#[test]
fn unknown_attribute_is_skipped() {
    let pool = utf8_pool(&["Foo"]);
    let mut b = u2(1);
    b.extend(u4(7));
    b.extend([1u8, 2, 3, 4, 5, 6, 7, 0xAA]);
    let mut i = 0usize;
    assert_eq!(read_attribute(&b, &mut i, &pool), Ok(Attribute::Unknown { name: "Foo".to_string() }));
    assert_eq!(i, 13);
    let short = b[..10].to_vec();
    let mut j = 0usize;
    assert_eq!(read_attribute(&short, &mut j, &pool), Err(ParsingError::UnexpectedEof { offset: 6, wanted: 7 }));
}

#[test]
fn declared_length_must_match_body() {
    let pool = utf8_pool(&["Synthetic"]);
    let mut b = u2(1);
    b.extend(u4(1));
    b.push(0);
    let mut i = 0usize;
    assert_eq!(
        read_attribute(&b, &mut i, &pool),
        Err(ParsingError::AttributeLengthMismatch { name: "Synthetic".to_string(), declared: 1, consumed: 0, offset: 6 })
    );
}

#[test]
fn annotation_with_array_of_ints() {
    let mut pool = utf8_pool(&["LAnno;", "value"]);
    pool.push(ConstantPoolEntry::IntegerInfo { value: 5 });
    pool.push(ConstantPoolEntry::IntegerInfo { value: 7 });
    let mut b = u2(1);
    b.extend(u2(1));
    b.extend(u2(2));
    b.push(b'[');
    b.extend(u2(2));
    b.push(b'I');
    b.extend(u2(3));
    b.push(b'I');
    b.extend(u2(4));
    let mut i = 0usize;
    let a = read_annotation(&b, &mut i, &pool).unwrap();
    assert_eq!(i, 15);
    assert_eq!(i, b.len());
    assert_eq!(a.type_descriptor, "LAnno;");
    assert_eq!(a.element_value_pairs.len(), 1);
    assert_eq!(a.element_value_pairs[0].0, "value");
    assert_eq!(
        a.element_value_pairs[0].1,
        ElementValue::ArrayValue {
            elements: vec![
                ElementValue::ConstValue { value: ConstantPoolEntry::IntegerInfo { value: 5 } },
                ElementValue::ConstValue { value: ConstantPoolEntry::IntegerInfo { value: 7 } },
            ],
        }
    );
}

#[test]
fn element_value_kinds() {
    let pool = utf8_pool(&["LColor;", "RED", "Ljava/lang/String;", "LInner;"]);
    let mut b = vec![b'e'];
    b.extend(u2(1));
    b.extend(u2(2));
    b.push(b'c');
    b.extend(u2(3));
    b.push(b'@');
    b.extend(u2(4));
    b.extend(u2(0));
    let mut i = 0usize;
    assert_eq!(
        read_element_value(&b, &mut i, &pool),
        Ok(ElementValue::EnumConstValue { type_descriptor: "LColor;".to_string(), const_name: "RED".to_string() })
    );
    assert_eq!(
        read_element_value(&b, &mut i, &pool),
        Ok(ElementValue::ClassInfo { descriptor: "Ljava/lang/String;".to_string() })
    );
    match read_element_value(&b, &mut i, &pool) {
        Ok(ElementValue::AnnotationValue { annotation }) => {
            assert_eq!(annotation.type_descriptor, "LInner;");
            assert!(annotation.element_value_pairs.is_empty());
        },
        other => panic!("unexpected {:?}", other),
    }
    assert_eq!(i, b.len());
}

#[test]
fn invalid_element_value_tag() {
    let pool = utf8_pool(&["x"]);
    let b = vec![b'x', 0, 1];
    let mut i = 0usize;
    assert_eq!(read_element_value(&b, &mut i, &pool), Err(ParsingError::InvalidElementValueTag { tag: b'x', offset: 0 }));
}

#[test]
fn catch_all_handler_has_no_type() {
    let mut pool = utf8_pool(&["java/lang/Exception"]);
    pool.push(ConstantPoolEntry::Class { name_index: 1 });
    let mut b = u2(2);
    b.extend([0u8, 0, 0, 4, 0, 5, 0, 0]);
    b.extend([0u8, 1, 0, 3, 0, 9, 0, 2]);
    let mut i = 0usize;
    let table = read_exception_table(&b, &mut i, &pool).unwrap();
    assert_eq!(table.len(), 2);
    assert_eq!(table[0].start_pc, 0);
    assert_eq!(table[0].end_pc, 4);
    assert_eq!(table[0].handler_pc, 5);
    assert!(table[0].catch_type.is_none());
    assert_eq!(table[1].catch_type.as_ref().map(|c| c.name.as_str()), Some("java/lang/Exception"));
    let mut bad = u2(1);
    bad.extend([0u8, 0, 0, 4, 0, 5, 0, 1]);
    let mut j = 0usize;
    assert_eq!(
        read_exception_table(&bad, &mut j, &pool),
        Err(ParsingError::WrongKind { offset: 8, expected: EntryKind::Class, actual: EntryKind::Utf8 })
    );
}

#[test]
fn line_number_table_pairs() {
    let b = vec![0, 2, 0, 0, 0, 10, 0, 4, 0, 11];
    let mut i = 0usize;
    let t = read_line_number_table(&b, &mut i).unwrap();
    assert_eq!(t.len(), 2);
    assert_eq!((t[1].start_pc, t[1].line_number), (4, 11));
    assert_eq!(i, 10);
}

#[test]
fn resolvers_reject_zero_and_out_of_range() {
    let pool = utf8_pool(&["A"]);
    assert_eq!(
        resolve_class(&pool, 0, 3),
        Err(ParsingError::DanglingIndex { index: 0, offset: 3, expected: EntryKind::Class })
    );
    assert_eq!(
        resolve_entry(&pool, 2, 4, EntryKind::Constant),
        Err(ParsingError::DanglingIndex { index: 2, offset: 4, expected: EntryKind::Constant })
    );
    assert_eq!(
        resolve_class(&pool, 1, 5),
        Err(ParsingError::WrongKind { offset: 5, expected: EntryKind::Class, actual: EntryKind::Utf8 })
    );
}

#[test]
fn class_access_flags_in_bit_order() {
    assert_eq!(parse_access_flags(0x0421), vec![AccessFlag::AccPublic, AccessFlag::AccSuper, AccessFlag::AccAbstract]);
    assert_eq!(
        parse_access_flags(0x1421),
        vec![AccessFlag::AccPublic, AccessFlag::AccSuper, AccessFlag::AccAbstract, AccessFlag::AccSynthetic]
    );
    assert_eq!(parse_access_flags(0x0000), vec![]);
    assert_eq!(parse_access_flags(0x8000), vec![]);
    assert_eq!(
        parse_access_flags(0xFFFF),
        vec![
            AccessFlag::AccPublic,
            AccessFlag::AccFinal,
            AccessFlag::AccSuper,
            AccessFlag::AccInterface,
            AccessFlag::AccAbstract,
            AccessFlag::AccSynthetic,
            AccessFlag::AccAnnotation,
            AccessFlag::AccEnum,
        ]
    );
}

#[test]
fn field_and_method_flags() {
    assert_eq!(
        parse_field_flags(0x40DA),
        vec![
            FieldFlag::AccPrivate,
            FieldFlag::AccStatic,
            FieldFlag::AccFinal,
            FieldFlag::AccVolatile,
            FieldFlag::AccTransient,
            FieldFlag::AccEnum,
        ]
    );
    assert_eq!(
        parse_method_flags(0x1DE4),
        vec![
            MethodFlag::AccProtected,
            MethodFlag::AccSynchronized,
            MethodFlag::AccBridge,
            MethodFlag::AccVarargs,
            MethodFlag::AccNative,
            MethodFlag::AccAbstract,
            MethodFlag::AccStrict,
            MethodFlag::AccSynthetic,
        ]
    );
}

#[test]
fn decodes_complete_class() {
    let b = sample_class();
    let c = read_class_file(&b).unwrap();
    assert_eq!(c.parsed_bytes, b.len());
    assert_eq!(c.magic, 0xCAFEBABE);
    assert_eq!((c.major_version, c.minor_version), (52, 0));
    assert_eq!(c.constant_pool.len(), 22);
    assert_eq!(c.constant_pool[20], ConstantPoolEntry::Empty);
    assert_eq!(c.access_flags, vec![AccessFlag::AccPublic, AccessFlag::AccSuper]);
    assert_eq!(c.this_class.name, "Sample");
    assert_eq!(c.super_class.name, "java/lang/Object");
    assert_eq!(c.interfaces.len(), 1);
    assert_eq!(c.interfaces[0].name, "java/io/Serializable");
    assert_eq!(c.fields.len(), 1);
    assert_eq!(c.fields[0].name, "FLAG");
    assert_eq!(c.fields[0].access_flags, vec![FieldFlag::AccPublic, FieldFlag::AccStatic, FieldFlag::AccFinal]);
    assert_eq!(
        c.fields[0].attributes,
        vec![Attribute::ConstantValue { value: ConstantPoolEntry::IntegerInfo { value: 1 } }]
    );
    let m = &c.methods[0];
    assert_eq!((m.name.as_str(), m.descriptor.as_str()), ("run", "()V"));
    match &m.attributes[0] {
        Attribute::Code { max_stack, max_locals, code, exception_table, attributes } => {
            assert_eq!((*max_stack, *max_locals), (1, 1));
            assert_eq!(code, &vec![0xB1]);
            assert!(exception_table.is_empty());
            match &attributes[0] {
                Attribute::LineNumberTable { line_number_table } => {
                    assert_eq!(line_number_table.len(), 1);
                    assert_eq!(line_number_table[0].line_number, 3);
                },
                other => panic!("unexpected {:?}", other),
            }
        },
        other => panic!("unexpected {:?}", other),
    }
    match &m.attributes[1] {
        Attribute::Exceptions { exceptions } => assert_eq!(exceptions[0].name, "java/io/IOException"),
        other => panic!("unexpected {:?}", other),
    }
    assert_eq!(
        c.attributes,
        vec![
            Attribute::SourceFile { source_file: "Sample.java".to_string() },
            Attribute::Unknown { name: "Foo".to_string() },
        ]
    );
}

#[test]
fn consumed_bytes_ignore_trailing_input() {
    let mut b = sample_class();
    let n = b.len();
    b.extend([9u8, 9, 9]);
    let c = read_class_file(&b).unwrap();
    assert_eq!(c.parsed_bytes, n);
    let again = read_class_file(&b[..n].to_vec()).unwrap();
    assert_eq!(again, c);
}

#[test]
fn every_truncation_runs_out_of_input() {
    let b = sample_class();
    for k in 0..b.len() {
        let cut = b[..k].to_vec();
        match read_class_file(&cut) {
            Err(ParsingError::UnexpectedEof { .. }) => {},
            other => panic!("cut at {} gave {:?}", k, other),
        }
    }
}

#[test]
fn nested_code_attributes() {
    let pool = utf8_pool(&["Code", "Deprecated"]);
    let mut inner = u2(2);
    inner.extend(u4(0));
    let mut body = u2(2);
    body.extend(u2(3));
    body.extend(u4(2));
    body.extend([0x2A, 0xB0]);
    body.extend(u2(0));
    body.extend(u2(1));
    body.extend(&inner);
    let mut b = u2(1);
    b.extend(u2(1));
    b.extend(u4(body.len() as u32));
    b.extend(&body);
    let mut i = 0usize;
    let attrs = read_attributes(&b, &mut i, &pool).unwrap();
    assert_eq!(i, b.len());
    assert_eq!(
        attrs,
        vec![Attribute::Code {
            max_stack: 2,
            max_locals: 3,
            code: vec![0x2A, 0xB0],
            exception_table: vec![],
            attributes: vec![Attribute::Deprecated],
        }]
    );
}
