use classfile::render::{field_line, method_line};
use classfile::text::to_dotted;
use classfile::types::{Attribute, Class, ConstantPoolEntry, Field, FieldFlag, Method, MethodFlag};

fn field(flags: Vec<FieldFlag>, name: &str, descriptor: &str, attributes: Vec<Attribute>) -> Field {
    Field { access_flags: flags, name: name.to_string(), descriptor: descriptor.to_string(), attributes }
}

#[test]
fn descriptor_type_names() {
    let cases = [
        ("B", "byte"),
        ("C", "char"),
        ("D", "double"),
        ("F", "float"),
        ("I", "int"),
        ("J", "long"),
        ("Z", "boolean"),
        ("S", "short"),
        ("[I", "int[]"),
        ("Ljava/lang/String;", "java.lang.String"),
        ("[[[I", "int[][][]"),
        ("[Ljava/util/List;", "java.util.List[]"),
        ("V", ""),
        ("", ""),
        ("Ljava/lang/String", ""),
        ("[", "[]"),
    ];
    for (d, expected) in cases {
        assert_eq!(Field::type_name_from_string(&d.to_string()), expected, "descriptor {}", d);
    }
}

#[test]
fn field_display_type() {
    let f = field(vec![], "names", "[Ljava/lang/String;", vec![]);
    assert_eq!(f.display_type(), "java.lang.String[]");
}

#[test]
fn dotted_names() {
    assert_eq!(to_dotted(&"java/lang/Object".to_string()), "java.lang.Object");
    assert_eq!(to_dotted(&"Plain".to_string()), "Plain");
    assert_eq!(to_dotted(&"a/\u{e9}/b".to_string()), "a.\u{e9}.b");
}

#[test]
fn integer_constants_as_text() {
    assert_eq!(ConstantPoolEntry::IntegerInfo { value: 0 }.const_value_as_string(), Some("0".to_string()));
    assert_eq!(ConstantPoolEntry::IntegerInfo { value: 4294967295 }.const_value_as_string(), Some("4294967295".to_string()));
    assert_eq!(
        ConstantPoolEntry::LongInfo { value: 18446744073709551615 }.const_value_as_string(),
        Some("18446744073709551615".to_string())
    );
    assert_eq!(ConstantPoolEntry::LongInfo { value: 1200 }.const_value_as_string(), Some("1200".to_string()));
    assert_eq!(ConstantPoolEntry::StringInfo { string_index: 3 }.const_value_as_string(), None);
    assert_eq!(ConstantPoolEntry::FloatInfo { bits: 0 }.const_value_as_string(), None);
}

#[test]
fn boolean_constant_shows_true_or_false() {
    let one = ConstantPoolEntry::IntegerInfo { value: 1 };
    let zero = ConstantPoolEntry::IntegerInfo { value: 0 };
    let f = field(
        vec![FieldFlag::AccPublic, FieldFlag::AccStatic, FieldFlag::AccFinal],
        "DEBUG",
        "Z",
        vec![Attribute::Synthetic, Attribute::ConstantValue { value: one }],
    );
    let text = f.constant_value().and_then(|e| e.const_value_as_string());
    assert_eq!(text, Some("1".to_string()));
    assert_eq!(field_line(&f, text), "  public static final boolean DEBUG = true");
    let g = field(vec![FieldFlag::AccPrivate], "OFF", "Z", vec![Attribute::ConstantValue { value: zero }]);
    let text = g.constant_value().and_then(|e| e.const_value_as_string());
    assert_eq!(field_line(&g, text), "  private boolean OFF = false");
    let h = field(vec![FieldFlag::AccProtected], "count", "I", vec![Attribute::ConstantValue {
        value: ConstantPoolEntry::IntegerInfo { value: 1 },
    }]);
    let text = h.constant_value().and_then(|e| e.const_value_as_string());
    assert_eq!(field_line(&h, text), "  public int count = 1");
    let plain = field(vec![], "x", "J", vec![]);
    assert!(plain.constant_value().is_none());
    assert_eq!(field_line(&plain, None), "  long x");
}

#[test]
fn method_lines() {
    let m = Method {
        access_flags: vec![MethodFlag::AccPublic, MethodFlag::AccStatic, MethodFlag::AccSynchronized],
        name: "run".to_string(),
        descriptor: "()V".to_string(),
        attributes: vec![
            Attribute::Deprecated,
            Attribute::Exceptions {
                exceptions: vec![
                    Class { name: "java/io/IOException".to_string() },
                    Class { name: "Oops".to_string() },
                ],
            },
        ],
    };
    assert_eq!(method_line(&m), "  public static synchronized ()V run throws java/io/IOException, Oops");
    let n = Method {
        access_flags: vec![MethodFlag::AccProtected, MethodFlag::AccAbstract, MethodFlag::AccFinal],
        name: "f".to_string(),
        descriptor: "(I)I".to_string(),
        attributes: vec![Attribute::Exceptions { exceptions: vec![] }],
    };
    assert_eq!(method_line(&n), "  protected abstract final (I)I f");
    assert!(n.declared_exceptions().map(|e| e.is_empty()).unwrap_or(false));
}
