use vstd::prelude::*;

verus! {

/// The constant pool as decoded: slot `i` holds logical index `i + 1`.
pub type ConstantPool = Vec<ConstantPoolEntry>;

/// One slot of the constant pool. Floating-point constants keep their IEEE-754 bit pattern.
#[derive(Debug, Clone, PartialEq, Eq)]
pub enum ConstantPoolEntry {
    Class { name_index: u16 },
    Fieldref { class_index: u16, name_and_type_index: u16 },
    Methodref { class_index: u16, name_and_type_index: u16 },
    InterfaceMethodref { class_index: u16, name_and_type_index: u16 },
    StringInfo { string_index: u16 },
    IntegerInfo { value: u32 },
    FloatInfo { bits: u32 },
    LongInfo { value: u64 },
    DoubleInfo { bits: u64 },
    NameAndTypeInfo { name_index: u16, descriptor_index: u16 },
    Utf8Info { value: String },
    MethodHandle { reference_kind: u8, reference_index: u16 },
    MethodTypeInfo { descriptor_index: u16 },
    InvokeDynamicInfo { bootstrap_method_attr_index: u16, name_and_type_index: u16 },
    /// The unusable slot that follows a Long or a Double.
    Empty,
}

/// Mathematical form of a pool entry: strings as character sequences.
pub enum EntryModel {
    Class { name_index: u16 },
    Fieldref { class_index: u16, name_and_type_index: u16 },
    Methodref { class_index: u16, name_and_type_index: u16 },
    InterfaceMethodref { class_index: u16, name_and_type_index: u16 },
    StringInfo { string_index: u16 },
    IntegerInfo { value: u32 },
    FloatInfo { bits: u32 },
    LongInfo { value: u64 },
    DoubleInfo { bits: u64 },
    NameAndTypeInfo { name_index: u16, descriptor_index: u16 },
    Utf8Info { value: Seq<char> },
    MethodHandle { reference_kind: u8, reference_index: u16 },
    MethodTypeInfo { descriptor_index: u16 },
    InvokeDynamicInfo { bootstrap_method_attr_index: u16, name_and_type_index: u16 },
    Empty,
}

impl DeepView for ConstantPoolEntry {
    type V = EntryModel;

    open spec fn deep_view(&self) -> EntryModel {
        match self {
            ConstantPoolEntry::Class { name_index } => EntryModel::Class { name_index: *name_index },
            ConstantPoolEntry::Fieldref { class_index, name_and_type_index } => EntryModel::Fieldref {
                class_index: *class_index,
                name_and_type_index: *name_and_type_index,
            },
            ConstantPoolEntry::Methodref { class_index, name_and_type_index } => EntryModel::Methodref {
                class_index: *class_index,
                name_and_type_index: *name_and_type_index,
            },
            ConstantPoolEntry::InterfaceMethodref { class_index, name_and_type_index } =>
                EntryModel::InterfaceMethodref {
                class_index: *class_index,
                name_and_type_index: *name_and_type_index,
            },
            ConstantPoolEntry::StringInfo { string_index } => EntryModel::StringInfo {
                string_index: *string_index,
            },
            ConstantPoolEntry::IntegerInfo { value } => EntryModel::IntegerInfo { value: *value },
            ConstantPoolEntry::FloatInfo { bits } => EntryModel::FloatInfo { bits: *bits },
            ConstantPoolEntry::LongInfo { value } => EntryModel::LongInfo { value: *value },
            ConstantPoolEntry::DoubleInfo { bits } => EntryModel::DoubleInfo { bits: *bits },
            ConstantPoolEntry::NameAndTypeInfo { name_index, descriptor_index } =>
                EntryModel::NameAndTypeInfo {
                name_index: *name_index,
                descriptor_index: *descriptor_index,
            },
            ConstantPoolEntry::Utf8Info { value } => EntryModel::Utf8Info { value: value@ },
            ConstantPoolEntry::MethodHandle { reference_kind, reference_index } =>
                EntryModel::MethodHandle {
                reference_kind: *reference_kind,
                reference_index: *reference_index,
            },
            ConstantPoolEntry::MethodTypeInfo { descriptor_index } => EntryModel::MethodTypeInfo {
                descriptor_index: *descriptor_index,
            },
            ConstantPoolEntry::InvokeDynamicInfo { bootstrap_method_attr_index, name_and_type_index } =>
                EntryModel::InvokeDynamicInfo {
                bootstrap_method_attr_index: *bootstrap_method_attr_index,
                name_and_type_index: *name_and_type_index,
            },
            ConstantPoolEntry::Empty => EntryModel::Empty,
        }
    }
}

/// The shape of a pool entry, as named in errors.
#[derive(Debug, Clone, Copy, PartialEq, Eq, Structural)]
pub enum EntryKind {
    Class,
    Fieldref,
    Methodref,
    InterfaceMethodref,
    String,
    Integer,
    Float,
    Long,
    Double,
    NameAndType,
    Utf8,
    MethodHandle,
    MethodType,
    InvokeDynamic,
    Gap,
    /// Expected where any constant-valued entry will do (ConstantValue, element values).
    Constant,
}

pub open spec fn kind_of(e: EntryModel) -> EntryKind {
    match e {
        EntryModel::Class { .. } => EntryKind::Class,
        EntryModel::Fieldref { .. } => EntryKind::Fieldref,
        EntryModel::Methodref { .. } => EntryKind::Methodref,
        EntryModel::InterfaceMethodref { .. } => EntryKind::InterfaceMethodref,
        EntryModel::StringInfo { .. } => EntryKind::String,
        EntryModel::IntegerInfo { .. } => EntryKind::Integer,
        EntryModel::FloatInfo { .. } => EntryKind::Float,
        EntryModel::LongInfo { .. } => EntryKind::Long,
        EntryModel::DoubleInfo { .. } => EntryKind::Double,
        EntryModel::NameAndTypeInfo { .. } => EntryKind::NameAndType,
        EntryModel::Utf8Info { .. } => EntryKind::Utf8,
        EntryModel::MethodHandle { .. } => EntryKind::MethodHandle,
        EntryModel::MethodTypeInfo { .. } => EntryKind::MethodType,
        EntryModel::InvokeDynamicInfo { .. } => EntryKind::InvokeDynamic,
        EntryModel::Empty => EntryKind::Gap,
    }
}

impl ConstantPoolEntry {
    /// The shape of this entry.
    pub fn kind(&self) -> (k: EntryKind)
        ensures
            k == kind_of(self.deep_view()),
    {
        match self {
            ConstantPoolEntry::Class { .. } => EntryKind::Class,
            ConstantPoolEntry::Fieldref { .. } => EntryKind::Fieldref,
            ConstantPoolEntry::Methodref { .. } => EntryKind::Methodref,
            ConstantPoolEntry::InterfaceMethodref { .. } => EntryKind::InterfaceMethodref,
            ConstantPoolEntry::StringInfo { .. } => EntryKind::String,
            ConstantPoolEntry::IntegerInfo { .. } => EntryKind::Integer,
            ConstantPoolEntry::FloatInfo { .. } => EntryKind::Float,
            ConstantPoolEntry::LongInfo { .. } => EntryKind::Long,
            ConstantPoolEntry::DoubleInfo { .. } => EntryKind::Double,
            ConstantPoolEntry::NameAndTypeInfo { .. } => EntryKind::NameAndType,
            ConstantPoolEntry::Utf8Info { .. } => EntryKind::Utf8,
            ConstantPoolEntry::MethodHandle { .. } => EntryKind::MethodHandle,
            ConstantPoolEntry::MethodTypeInfo { .. } => EntryKind::MethodType,
            ConstantPoolEntry::InvokeDynamicInfo { .. } => EntryKind::InvokeDynamic,
            ConstantPoolEntry::Empty => EntryKind::Gap,
        }
    }

    /// A copy of this entry with the same contents.
    pub fn duplicate(&self) -> (r: ConstantPoolEntry)
        ensures
            r.deep_view() == self.deep_view(),
    {
        match self {
            ConstantPoolEntry::Class { name_index } => ConstantPoolEntry::Class { name_index: *name_index },
            ConstantPoolEntry::Fieldref { class_index, name_and_type_index } => ConstantPoolEntry::Fieldref {
                class_index: *class_index,
                name_and_type_index: *name_and_type_index,
            },
            ConstantPoolEntry::Methodref { class_index, name_and_type_index } => ConstantPoolEntry::Methodref {
                class_index: *class_index,
                name_and_type_index: *name_and_type_index,
            },
            ConstantPoolEntry::InterfaceMethodref { class_index, name_and_type_index } =>
                ConstantPoolEntry::InterfaceMethodref {
                class_index: *class_index,
                name_and_type_index: *name_and_type_index,
            },
            ConstantPoolEntry::StringInfo { string_index } => ConstantPoolEntry::StringInfo {
                string_index: *string_index,
            },
            ConstantPoolEntry::IntegerInfo { value } => ConstantPoolEntry::IntegerInfo { value: *value },
            ConstantPoolEntry::FloatInfo { bits } => ConstantPoolEntry::FloatInfo { bits: *bits },
            ConstantPoolEntry::LongInfo { value } => ConstantPoolEntry::LongInfo { value: *value },
            ConstantPoolEntry::DoubleInfo { bits } => ConstantPoolEntry::DoubleInfo { bits: *bits },
            ConstantPoolEntry::NameAndTypeInfo { name_index, descriptor_index } =>
                ConstantPoolEntry::NameAndTypeInfo {
                name_index: *name_index,
                descriptor_index: *descriptor_index,
            },
            ConstantPoolEntry::Utf8Info { value } => ConstantPoolEntry::Utf8Info { value: value.clone() },
            ConstantPoolEntry::MethodHandle { reference_kind, reference_index } =>
                ConstantPoolEntry::MethodHandle {
                reference_kind: *reference_kind,
                reference_index: *reference_index,
            },
            ConstantPoolEntry::MethodTypeInfo { descriptor_index } => ConstantPoolEntry::MethodTypeInfo {
                descriptor_index: *descriptor_index,
            },
            ConstantPoolEntry::InvokeDynamicInfo { bootstrap_method_attr_index, name_and_type_index } =>
                ConstantPoolEntry::InvokeDynamicInfo {
                bootstrap_method_attr_index: *bootstrap_method_attr_index,
                name_and_type_index: *name_and_type_index,
            },
            ConstantPoolEntry::Empty => ConstantPoolEntry::Empty,
        }
    }
}

/// Why decoding stopped. Offsets are byte positions in the input.
#[derive(Debug, Clone, PartialEq, Eq)]
pub enum ParsingError {
    /// A read of `wanted` bytes at `offset` ran past the end of the input.
    UnexpectedEof { offset: usize, wanted: usize },
    /// A constant-pool tag outside the supported set.
    InvalidTag { tag: u8, offset: usize },
    /// A pool index that is zero, past the end of the pool, or names a Gap slot.
    DanglingIndex { index: u16, offset: usize, expected: EntryKind },
    /// A pool index that names an entry of another shape.
    WrongKind { offset: usize, expected: EntryKind, actual: EntryKind },
    /// An element-value tag outside the supported set.
    InvalidElementValueTag { tag: u8, offset: usize },
    /// A recognised attribute whose body did not take exactly its declared length.
    AttributeLengthMismatch { name: String, declared: u32, consumed: usize, offset: usize },
    /// A Utf8 entry whose bytes are not valid UTF-8.
    InvalidUtf8 { offset: usize },
}

pub enum ErrorModel {
    UnexpectedEof { offset: usize, wanted: usize },
    InvalidTag { tag: u8, offset: usize },
    DanglingIndex { index: u16, offset: usize, expected: EntryKind },
    WrongKind { offset: usize, expected: EntryKind, actual: EntryKind },
    InvalidElementValueTag { tag: u8, offset: usize },
    AttributeLengthMismatch { name: Seq<char>, declared: u32, consumed: usize, offset: usize },
    InvalidUtf8 { offset: usize },
}

impl DeepView for ParsingError {
    type V = ErrorModel;

    open spec fn deep_view(&self) -> ErrorModel {
        match self {
            ParsingError::UnexpectedEof { offset, wanted } => ErrorModel::UnexpectedEof {
                offset: *offset,
                wanted: *wanted,
            },
            ParsingError::InvalidTag { tag, offset } => ErrorModel::InvalidTag { tag: *tag, offset: *offset },
            ParsingError::DanglingIndex { index, offset, expected } => ErrorModel::DanglingIndex {
                index: *index,
                offset: *offset,
                expected: *expected,
            },
            ParsingError::WrongKind { offset, expected, actual } => ErrorModel::WrongKind {
                offset: *offset,
                expected: *expected,
                actual: *actual,
            },
            ParsingError::InvalidElementValueTag { tag, offset } => ErrorModel::InvalidElementValueTag {
                tag: *tag,
                offset: *offset,
            },
            ParsingError::AttributeLengthMismatch { name, declared, consumed, offset } =>
                ErrorModel::AttributeLengthMismatch {
                name: name@,
                declared: *declared,
                consumed: *consumed,
                offset: *offset,
            },
            ParsingError::InvalidUtf8 { offset } => ErrorModel::InvalidUtf8 { offset: *offset },
        }
    }
}

/// A class named through the constant pool; the name keeps its slashes.
#[derive(Debug, Clone, PartialEq, Eq)]
pub struct Class {
    pub name: String,
}

impl DeepView for Class {
    type V = Seq<char>;

    open spec fn deep_view(&self) -> Seq<char> {
        self.name@
    }
}

#[derive(Debug, Clone, Copy, PartialEq, Eq, Structural)]
pub enum AccessFlag {
    AccPublic,
    AccFinal,
    AccSuper,
    AccInterface,
    AccAbstract,
    AccSynthetic,
    AccAnnotation,
    AccEnum,
}

#[derive(Debug, Clone, Copy, PartialEq, Eq, Structural)]
pub enum FieldFlag {
    AccPublic,
    AccPrivate,
    AccProtected,
    AccStatic,
    AccFinal,
    AccVolatile,
    AccTransient,
    AccSynthetic,
    AccEnum,
}

#[derive(Debug, Clone, Copy, PartialEq, Eq, Structural)]
pub enum MethodFlag {
    AccPublic,
    AccPrivate,
    AccProtected,
    AccStatic,
    AccFinal,
    AccSynchronized,
    AccBridge,
    AccVarargs,
    AccNative,
    AccAbstract,
    AccStrict,
    AccSynthetic,
}

#[derive(Debug, Clone, Copy, PartialEq, Eq, Structural)]
pub struct LineNumber {
    pub start_pc: u16,
    pub line_number: u16,
}

#[derive(Debug, Clone, PartialEq, Eq)]
pub struct ExceptionHandler {
    pub start_pc: u16,
    pub end_pc: u16,
    pub handler_pc: u16,
    /// `None` for a handler that catches everything.
    pub catch_type: Option<Class>,
}

pub struct HandlerModel {
    pub start_pc: u16,
    pub end_pc: u16,
    pub handler_pc: u16,
    pub catch_type: Option<Seq<char>>,
}

impl DeepView for ExceptionHandler {
    type V = HandlerModel;

    open spec fn deep_view(&self) -> HandlerModel {
        HandlerModel {
            start_pc: self.start_pc,
            end_pc: self.end_pc,
            handler_pc: self.handler_pc,
            catch_type: match self.catch_type {
                Some(c) => Some(c.name@),
                None => None,
            },
        }
    }
}

#[derive(Debug, PartialEq, Eq)]
pub struct Annotation {
    pub type_descriptor: String,
    pub element_value_pairs: Vec<ElementValuePair>,
}

#[derive(Debug, PartialEq, Eq)]
pub struct ElementValuePair(pub String, pub ElementValue);

#[derive(Debug, PartialEq, Eq)]
pub enum ElementValue {
    ConstValue { value: ConstantPoolEntry },
    EnumConstValue { type_descriptor: String, const_name: String },
    ClassInfo { descriptor: String },
    AnnotationValue { annotation: Annotation },
    ArrayValue { elements: Vec<ElementValue> },
}

pub struct AnnotationModel {
    pub type_descriptor: Seq<char>,
    pub element_value_pairs: Seq<(Seq<char>, ElementValueModel)>,
}

pub enum ElementValueModel {
    ConstValue { value: EntryModel },
    EnumConstValue { type_descriptor: Seq<char>, const_name: Seq<char> },
    ClassInfo { descriptor: Seq<char> },
    AnnotationValue { annotation: AnnotationModel },
    ArrayValue { elements: Seq<ElementValueModel> },
}

impl DeepView for Annotation {
    type V = AnnotationModel;

    open spec fn deep_view(&self) -> AnnotationModel
        decreases self,
    {
        let pairs = self.element_value_pairs;
        AnnotationModel {
            type_descriptor: self.type_descriptor@,
            element_value_pairs: Seq::new(
                pairs@.len(),
                |i: int|
                    if 0 <= i < pairs@.len() {
                        (pairs@[i].0@, pairs@[i].1.deep_view())
                    } else {
                        (Seq::empty(), ElementValueModel::ClassInfo { descriptor: Seq::empty() })
                    },
            ),
        }
    }
}

impl DeepView for ElementValue {
    type V = ElementValueModel;

    open spec fn deep_view(&self) -> ElementValueModel
        decreases self,
    {
        match self {
            ElementValue::ConstValue { value } => ElementValueModel::ConstValue { value: value.deep_view() },
            ElementValue::EnumConstValue { type_descriptor, const_name } => ElementValueModel::EnumConstValue {
                type_descriptor: type_descriptor@,
                const_name: const_name@,
            },
            ElementValue::ClassInfo { descriptor } => ElementValueModel::ClassInfo { descriptor: descriptor@ },
            ElementValue::AnnotationValue { annotation } => ElementValueModel::AnnotationValue {
                annotation: annotation.deep_view(),
            },
            ElementValue::ArrayValue { elements } => ElementValueModel::ArrayValue {
                elements: Seq::new(
                    elements@.len(),
                    |i: int|
                        if 0 <= i < elements@.len() {
                            elements@[i].deep_view()
                        } else {
                            ElementValueModel::ClassInfo { descriptor: Seq::empty() }
                        },
                ),
            },
        }
    }
}


impl DeepView for AccessFlag {
    type V = AccessFlag;

    open spec fn deep_view(&self) -> AccessFlag {
        *self
    }
}

impl DeepView for FieldFlag {
    type V = FieldFlag;

    open spec fn deep_view(&self) -> FieldFlag {
        *self
    }
}

impl DeepView for MethodFlag {
    type V = MethodFlag;

    open spec fn deep_view(&self) -> MethodFlag {
        *self
    }
}

impl DeepView for LineNumber {
    type V = LineNumber;

    open spec fn deep_view(&self) -> LineNumber {
        *self
    }
}


/// An attribute, recognised by its name.
#[derive(Debug, PartialEq, Eq)]
pub enum Attribute {
    ConstantValue { value: ConstantPoolEntry },
    Synthetic,
    Signature { signature: String },
    Deprecated,
    RuntimeVisibleAnnotations { annotations: Vec<Annotation> },
    RuntimeInvisibleAnnotations { annotations: Vec<Annotation> },
    Code {
        max_stack: u16,
        max_locals: u16,
        code: Vec<u8>,
        exception_table: Vec<ExceptionHandler>,
        attributes: Vec<Attribute>,
    },
    Exceptions { exceptions: Vec<Class> },
    RuntimeVisibleParameterAnnotations { annotations: Vec<Vec<Annotation>> },
    RuntimeInvisibleParameterAnnotations { annotations: Vec<Vec<Annotation>> },
    AnnotationDefault { default_value: ElementValue },
    LineNumberTable { line_number_table: Vec<LineNumber> },
    SourceFile { source_file: String },
    NestMembers { classes: Vec<Class> },
    /// An attribute of another name; its body was skipped.
    Unknown { name: String },
}

pub enum AttributeModel {
    ConstantValue { value: EntryModel },
    Synthetic,
    Signature { signature: Seq<char> },
    Deprecated,
    RuntimeVisibleAnnotations { annotations: Seq<AnnotationModel> },
    RuntimeInvisibleAnnotations { annotations: Seq<AnnotationModel> },
    Code {
        max_stack: u16,
        max_locals: u16,
        code: Seq<u8>,
        exception_table: Seq<HandlerModel>,
        attributes: Seq<AttributeModel>,
    },
    Exceptions { exceptions: Seq<Seq<char>> },
    RuntimeVisibleParameterAnnotations { annotations: Seq<Seq<AnnotationModel>> },
    RuntimeInvisibleParameterAnnotations { annotations: Seq<Seq<AnnotationModel>> },
    AnnotationDefault { default_value: ElementValueModel },
    LineNumberTable { line_number_table: Seq<LineNumber> },
    SourceFile { source_file: Seq<char> },
    NestMembers { classes: Seq<Seq<char>> },
    Unknown { name: Seq<char> },
}

impl DeepView for Attribute {
    type V = AttributeModel;

    open spec fn deep_view(&self) -> AttributeModel
        decreases self,
    {
        match self {
            Attribute::ConstantValue { value } => AttributeModel::ConstantValue { value: value.deep_view() },
            Attribute::Synthetic => AttributeModel::Synthetic,
            Attribute::Signature { signature } => AttributeModel::Signature { signature: signature@ },
            Attribute::Deprecated => AttributeModel::Deprecated,
            Attribute::RuntimeVisibleAnnotations { annotations } => AttributeModel::RuntimeVisibleAnnotations {
                annotations: annotations.deep_view(),
            },
            Attribute::RuntimeInvisibleAnnotations { annotations } =>
                AttributeModel::RuntimeInvisibleAnnotations { annotations: annotations.deep_view() },
            Attribute::Code { max_stack, max_locals, code, exception_table, attributes } => AttributeModel::Code {
                max_stack: *max_stack,
                max_locals: *max_locals,
                code: code@,
                exception_table: exception_table.deep_view(),
                attributes: Seq::new(
                    attributes@.len(),
                    |i: int|
                        if 0 <= i < attributes@.len() {
                            attributes@[i].deep_view()
                        } else {
                            AttributeModel::Synthetic
                        },
                ),
            },
            Attribute::Exceptions { exceptions } => AttributeModel::Exceptions {
                exceptions: exceptions.deep_view(),
            },
            Attribute::RuntimeVisibleParameterAnnotations { annotations } =>
                AttributeModel::RuntimeVisibleParameterAnnotations { annotations: annotations.deep_view() },
            Attribute::RuntimeInvisibleParameterAnnotations { annotations } =>
                AttributeModel::RuntimeInvisibleParameterAnnotations { annotations: annotations.deep_view() },
            Attribute::AnnotationDefault { default_value } => AttributeModel::AnnotationDefault {
                default_value: default_value.deep_view(),
            },
            Attribute::LineNumberTable { line_number_table } => AttributeModel::LineNumberTable {
                line_number_table: line_number_table.deep_view(),
            },
            Attribute::SourceFile { source_file } => AttributeModel::SourceFile { source_file: source_file@ },
            Attribute::NestMembers { classes } => AttributeModel::NestMembers { classes: classes.deep_view() },
            Attribute::Unknown { name } => AttributeModel::Unknown { name: name@ },
        }
    }
}


#[derive(Debug, PartialEq, Eq)]
pub struct Field {
    pub access_flags: Vec<FieldFlag>,
    pub name: String,
    pub descriptor: String,
    pub attributes: Vec<Attribute>,
}

pub struct FieldModel {
    pub access_flags: Seq<FieldFlag>,
    pub name: Seq<char>,
    pub descriptor: Seq<char>,
    pub attributes: Seq<AttributeModel>,
}

impl DeepView for Field {
    type V = FieldModel;

    open spec fn deep_view(&self) -> FieldModel {
        FieldModel {
            access_flags: self.access_flags@,
            name: self.name@,
            descriptor: self.descriptor@,
            attributes: self.attributes.deep_view(),
        }
    }
}

#[derive(Debug, PartialEq, Eq)]
pub struct Method {
    pub access_flags: Vec<MethodFlag>,
    pub name: String,
    pub descriptor: String,
    pub attributes: Vec<Attribute>,
}

pub struct MethodModel {
    pub access_flags: Seq<MethodFlag>,
    pub name: Seq<char>,
    pub descriptor: Seq<char>,
    pub attributes: Seq<AttributeModel>,
}

impl DeepView for Method {
    type V = MethodModel;

    open spec fn deep_view(&self) -> MethodModel {
        MethodModel {
            access_flags: self.access_flags@,
            name: self.name@,
            descriptor: self.descriptor@,
            attributes: self.attributes.deep_view(),
        }
    }
}

/// A decoded classfile.
#[derive(Debug, PartialEq, Eq)]
pub struct ClassFile {
    pub magic: u32,
    pub minor_version: u16,
    pub major_version: u16,
    pub constant_pool: ConstantPool,
    pub access_flags: Vec<AccessFlag>,
    pub this_class: Class,
    pub super_class: Class,
    pub interfaces: Vec<Class>,
    pub fields: Vec<Field>,
    pub methods: Vec<Method>,
    pub attributes: Vec<Attribute>,
    /// Number of input bytes that the decoder consumed.
    pub parsed_bytes: usize,
}

pub struct ClassFileModel {
    pub magic: u32,
    pub minor_version: u16,
    pub major_version: u16,
    pub constant_pool: Seq<EntryModel>,
    pub access_flags: Seq<AccessFlag>,
    pub this_class: Seq<char>,
    pub super_class: Seq<char>,
    pub interfaces: Seq<Seq<char>>,
    pub fields: Seq<FieldModel>,
    pub methods: Seq<MethodModel>,
    pub attributes: Seq<AttributeModel>,
    pub parsed_bytes: usize,
}

impl DeepView for ClassFile {
    type V = ClassFileModel;

    open spec fn deep_view(&self) -> ClassFileModel {
        ClassFileModel {
            magic: self.magic,
            minor_version: self.minor_version,
            major_version: self.major_version,
            constant_pool: self.constant_pool.deep_view(),
            access_flags: self.access_flags@,
            this_class: self.this_class.name@,
            super_class: self.super_class.name@,
            interfaces: self.interfaces.deep_view(),
            fields: self.fields.deep_view(),
            methods: self.methods.deep_view(),
            attributes: self.attributes.deep_view(),
            parsed_bytes: self.parsed_bytes,
        }
    }
}

} // verus!
