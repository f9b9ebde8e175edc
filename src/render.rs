use vstd::prelude::*;
use crate::text::{decimal, dotted, is_named, push_decimal, push_dotted};
use crate::types::{
    Attribute, AttributeModel, ConstantPoolEntry, EntryModel, Field, FieldFlag, FieldModel, Method, MethodFlag,
    MethodModel,
};

verus! {

/// The source name of a primitive descriptor letter.
pub open spec fn primitive_name(d: Seq<char>) -> Option<Seq<char>> {
    if d == "B"@ {
        Some("byte"@)
    } else if d == "C"@ {
        Some("char"@)
    } else if d == "D"@ {
        Some("double"@)
    } else if d == "F"@ {
        Some("float"@)
    } else if d == "I"@ {
        Some("int"@)
    } else if d == "J"@ {
        Some("long"@)
    } else if d == "Z"@ {
        Some("boolean"@)
    } else if d == "S"@ {
        Some("short"@)
    } else {
        None
    }
}

/// The source-level type that a field descriptor stands for: a primitive name,
/// `L<binary name>;` in dotted form, `[<inner>` as the inner type followed by `[]`,
/// and the empty text for anything else.
pub open spec fn type_name_of(d: Seq<char>) -> Seq<char>
    decreases d.len(),
{
    match primitive_name(d) {
        Some(n) => n,
        None => if d.len() >= 2 && d[0] == 'L' && d[d.len() - 1] == ';' {
            dotted(d.subrange(1, d.len() - 1))
        } else if d.len() >= 1 && d[0] == '[' {
            type_name_of(d.drop_first()) + "[]"@
        } else {
            Seq::empty()
        },
    }
}

impl Field {
    /// Maps a field descriptor to the type name a declaration would show.
    pub fn type_name_from_string(d: &String) -> (r: String)
        ensures
            r@ == type_name_of(d@),
        decreases d@.len(),
    {
        if is_named(d, "B") {
            return String::from_str("byte");
        } else if is_named(d, "C") {
            return String::from_str("char");
        } else if is_named(d, "D") {
            return String::from_str("double");
        } else if is_named(d, "F") {
            return String::from_str("float");
        } else if is_named(d, "I") {
            return String::from_str("int");
        } else if is_named(d, "J") {
            return String::from_str("long");
        } else if is_named(d, "Z") {
            return String::from_str("boolean");
        } else if is_named(d, "S") {
            return String::from_str("short");
        }
        let s = d.as_str();
        let n = s.unicode_len();
        if n >= 2 && s.get_char(0) == 'L' && s.get_char(n - 1) == ';' {
            let mut out = String::new();
            push_dotted(&mut out, s.substring_char(1, n - 1));
            assert(out@ =~= dotted(d@.subrange(1, n - 1)));
            out
        } else if n >= 1 && s.get_char(0) == '[' {
            let inner = String::from_str(s.substring_char(1, n));
            assert(inner@ =~= d@.drop_first());
            let mut out = Field::type_name_from_string(&inner);
            out.append("[]");
            out
        } else {
            String::new()
        }
    }

    /// The source-level type of this field, from its descriptor.
    pub fn display_type(&self) -> (r: String)
        ensures
            r@ == type_name_of(self.descriptor@),
    {
        Field::type_name_from_string(&self.descriptor)
    }

    /// The entry of the first ConstantValue attribute, if any.
    pub fn constant_value(&self) -> (r: Option<&ConstantPoolEntry>)
        ensures
            match first_constant(self.attributes.deep_view()) {
                Some(v) => r matches Some(e) && e.deep_view() == v,
                None => r is None,
            },
    {
        let ghost attrs = self.attributes.deep_view();
        let mut i: usize = 0;
        assert(attrs.subrange(0, attrs.len() as int) =~= attrs);
        while i < self.attributes.len()
            invariant
                i <= self.attributes@.len(),
                attrs == self.attributes.deep_view(),
                first_constant(attrs) == first_constant(attrs.subrange(i as int, attrs.len() as int)),
            decreases self.attributes@.len() - i,
        {
            assert(attrs.subrange(i as int, attrs.len() as int).drop_first() =~= attrs.subrange(
                i + 1,
                attrs.len() as int,
            ));
            if let Attribute::ConstantValue { value } = &self.attributes[i] {
                return Some(value);
            }
            i = i + 1;
        }
        None
    }
}

/// The entry of the first ConstantValue attribute in `attrs`.
pub open spec fn first_constant(attrs: Seq<AttributeModel>) -> Option<EntryModel>
    decreases attrs.len(),
{
    if attrs.len() == 0 {
        None
    } else if let AttributeModel::ConstantValue { value } = attrs[0] {
        Some(value)
    } else {
        first_constant(attrs.drop_first())
    }
}

/// The decimal text of an integer constant; other entries have none here
/// (floating-point constants carry only their bit patterns).
pub open spec fn const_text(e: EntryModel) -> Option<Seq<char>> {
    match e {
        EntryModel::IntegerInfo { value } => Some(decimal(value as nat)),
        EntryModel::LongInfo { value } => Some(decimal(value as nat)),
        _ => None,
    }
}

impl ConstantPoolEntry {
    /// The decimal text of an Integer or Long constant.
    pub fn const_value_as_string(&self) -> (r: Option<String>)
        ensures
            match const_text(self.deep_view()) {
                Some(t) => r matches Some(s) && s@ == t,
                None => r is None,
            },
    {
        match self {
            ConstantPoolEntry::IntegerInfo { value } => {
                let mut s = String::new();
                push_decimal(&mut s, *value as u64);
                assert(s@ =~= decimal(*value as nat));
                Some(s)
            },
            ConstantPoolEntry::LongInfo { value } => {
                let mut s = String::new();
                push_decimal(&mut s, *value);
                assert(s@ =~= decimal(*value as nat));
                Some(s)
            },
            _ => None,
        }
    }
}

/// `w` when `b` holds, else nothing.
pub open spec fn word_if(b: bool, w: Seq<char>) -> Seq<char> {
    if b {
        w
    } else {
        Seq::empty()
    }
}

/// How a constant is shown after ` = `: a boolean field shows `true` for `1` and `false`
/// for anything else; other fields show the text as it is.
pub open spec fn shown_constant(descriptor: Seq<char>, text: Seq<char>) -> Seq<char> {
    if descriptor == "Z"@ {
        if text == "1"@ {
            "true"@
        } else {
            "false"@
        }
    } else {
        text
    }
}

/// The visibility word of a field; a protected field is shown as public.
pub open spec fn field_visibility(flags: Seq<FieldFlag>) -> Seq<char> {
    if flags.contains(FieldFlag::AccPublic) {
        "public "@
    } else if flags.contains(FieldFlag::AccPrivate) {
        "private "@
    } else if flags.contains(FieldFlag::AccProtected) {
        "public "@
    } else {
        Seq::empty()
    }
}

/// The declaration line of a field, given the text of its constant value if it has one.
pub open spec fn field_line_of(f: FieldModel, constant: Option<Seq<char>>) -> Seq<char> {
    "  "@ + field_visibility(f.access_flags) + word_if(f.access_flags.contains(FieldFlag::AccStatic), "static "@)
        + word_if(f.access_flags.contains(FieldFlag::AccFinal), "final "@) + type_name_of(f.descriptor) + " "@
        + f.name + match constant {
        Some(t) => " = "@ + shown_constant(f.descriptor, t),
        None => Seq::empty(),
    }
}

fn has_field_flag(flags: &Vec<FieldFlag>, f: FieldFlag) -> (r: bool)
    ensures
        r == flags@.contains(f),
{
    let mut i: usize = 0;
    while i < flags.len()
        invariant
            i <= flags@.len(),
            forall|k: int| 0 <= k < i ==> flags@[k] != f,
        decreases flags@.len() - i,
    {
        if flags[i] == f {
            return true;
        }
        i = i + 1;
    }
    false
}

fn has_method_flag(flags: &Vec<MethodFlag>, f: MethodFlag) -> (r: bool)
    ensures
        r == flags@.contains(f),
{
    let mut i: usize = 0;
    while i < flags.len()
        invariant
            i <= flags@.len(),
            forall|k: int| 0 <= k < i ==> flags@[k] != f,
        decreases flags@.len() - i,
    {
        if flags[i] == f {
            return true;
        }
        i = i + 1;
    }
    false
}

/// The declaration line of a field; `constant` is the text of its constant value, if any.
pub fn field_line(field: &Field, constant: Option<String>) -> (r: String)
    ensures
        r@ == field_line_of(
            field.deep_view(),
            match constant {
                Some(s) => Some(s@),
                None => None,
            },
        ),
{
    let mut line = String::from_str("  ");
    if has_field_flag(&field.access_flags, FieldFlag::AccPublic) {
        line.append("public ");
    } else if has_field_flag(&field.access_flags, FieldFlag::AccPrivate) {
        line.append("private ");
    } else if has_field_flag(&field.access_flags, FieldFlag::AccProtected) {
        line.append("public ");
    }
    if has_field_flag(&field.access_flags, FieldFlag::AccStatic) {
        line.append("static ");
    }
    if has_field_flag(&field.access_flags, FieldFlag::AccFinal) {
        line.append("final ");
    }
    let shown_type = field.display_type();
    line.append(shown_type.as_str());
    line.append(" ");
    line.append(field.name.as_str());
    if let Some(text) = constant {
        line.append(" = ");
        if is_named(&field.descriptor, "Z") {
            if is_named(&text, "1") {
                line.append("true");
            } else {
                line.append("false");
            }
        } else {
            line.append(text.as_str());
        }
    }
    let ghost m = field.deep_view();
    assert(line@ =~= field_line_of(
        m,
        match constant {
            Some(s) => Some(s@),
            None => None,
        },
    ));
    line
}

/// The names of the first Exceptions attribute in `attrs`.
pub open spec fn first_exceptions(attrs: Seq<AttributeModel>) -> Option<Seq<Seq<char>>>
    decreases attrs.len(),
{
    if attrs.len() == 0 {
        None
    } else if let AttributeModel::Exceptions { exceptions } = attrs[0] {
        Some(exceptions)
    } else {
        first_exceptions(attrs.drop_first())
    }
}

/// The names joined by `, `.
pub open spec fn joined(names: Seq<Seq<char>>) -> Seq<char>
    decreases names.len(),
{
    if names.len() == 0 {
        Seq::empty()
    } else if names.len() == 1 {
        names[0]
    } else {
        joined(names.drop_last()) + ", "@ + names.last()
    }
}

/// The visibility word of a method.
pub open spec fn method_visibility(flags: Seq<MethodFlag>) -> Seq<char> {
    if flags.contains(MethodFlag::AccPublic) {
        "public "@
    } else if flags.contains(MethodFlag::AccPrivate) {
        "private "@
    } else if flags.contains(MethodFlag::AccProtected) {
        "protected "@
    } else {
        Seq::empty()
    }
}

/// The ` throws ...` clause for the declared exceptions, when there are any.
pub open spec fn throws_clause(exceptions: Option<Seq<Seq<char>>>) -> Seq<char> {
    match exceptions {
        Some(names) => if names.len() > 0 {
            " throws "@ + joined(names)
        } else {
            Seq::empty()
        },
        None => Seq::empty(),
    }
}

/// The declaration line of a method: modifiers, descriptor, name and thrown exceptions.
pub open spec fn method_line_of(m: MethodModel) -> Seq<char> {
    "  "@ + method_visibility(m.access_flags) + word_if(m.access_flags.contains(MethodFlag::AccAbstract), "abstract "@)
        + word_if(m.access_flags.contains(MethodFlag::AccStatic), "static "@) + word_if(
        m.access_flags.contains(MethodFlag::AccFinal),
        "final "@,
    ) + word_if(m.access_flags.contains(MethodFlag::AccSynchronized), "synchronized "@) + m.descriptor + " "@
        + m.name + throws_clause(first_exceptions(m.attributes))
}

impl Method {
    /// The classes named by the first Exceptions attribute, if any.
    pub fn declared_exceptions(&self) -> (r: Option<&Vec<crate::types::Class>>)
        ensures
            match first_exceptions(self.attributes.deep_view()) {
                Some(v) => r matches Some(e) && e.deep_view() == v,
                None => r is None,
            },
    {
        let ghost attrs = self.attributes.deep_view();
        let mut i: usize = 0;
        assert(attrs.subrange(0, attrs.len() as int) =~= attrs);
        while i < self.attributes.len()
            invariant
                i <= self.attributes@.len(),
                attrs == self.attributes.deep_view(),
                first_exceptions(attrs) == first_exceptions(attrs.subrange(i as int, attrs.len() as int)),
            decreases self.attributes@.len() - i,
        {
            assert(attrs.subrange(i as int, attrs.len() as int).drop_first() =~= attrs.subrange(
                i + 1,
                attrs.len() as int,
            ));
            if let Attribute::Exceptions { exceptions } = &self.attributes[i] {
                return Some(exceptions);
            }
            i = i + 1;
        }
        None
    }
}

/// The declaration line of a method.
pub fn method_line(method: &Method) -> (r: String)
    ensures
        r@ == method_line_of(method.deep_view()),
{
    let mut line = String::from_str("  ");
    if has_method_flag(&method.access_flags, MethodFlag::AccPublic) {
        line.append("public ");
    } else if has_method_flag(&method.access_flags, MethodFlag::AccPrivate) {
        line.append("private ");
    } else if has_method_flag(&method.access_flags, MethodFlag::AccProtected) {
        line.append("protected ");
    }
    if has_method_flag(&method.access_flags, MethodFlag::AccAbstract) {
        line.append("abstract ");
    }
    if has_method_flag(&method.access_flags, MethodFlag::AccStatic) {
        line.append("static ");
    }
    if has_method_flag(&method.access_flags, MethodFlag::AccFinal) {
        line.append("final ");
    }
    if has_method_flag(&method.access_flags, MethodFlag::AccSynchronized) {
        line.append("synchronized ");
    }
    line.append(method.descriptor.as_str());
    line.append(" ");
    line.append(method.name.as_str());
    let ghost head = line@;
    if let Some(exceptions) = method.declared_exceptions() {
        if exceptions.len() > 0 {
            line.append(" throws ");
            let ghost names = exceptions.deep_view();
            let ghost before = line@;
            let mut i: usize = 0;
            while i < exceptions.len()
                invariant
                    i <= exceptions@.len(),
                    names == exceptions.deep_view(),
                    line@ == before + joined(names.take(i as int)),
                decreases exceptions@.len() - i,
            {
                if i > 0 {
                    line.append(", ");
                }
                line.append(exceptions[i].name.as_str());
                assert(names.take(i + 1).drop_last() =~= names.take(i as int));
                assert(line@ =~= before + joined(names.take(i + 1)));
                i = i + 1;
            }
            assert(names.take(names.len() as int) =~= names);
        }
    }
    let ghost m = method.deep_view();
    assert(line@ =~= method_line_of(m));
    line
}

} // verus!
