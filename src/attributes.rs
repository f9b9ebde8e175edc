use vstd::prelude::*;
use crate::annotations::{
    read_annotations, read_element_value, read_parameter_annotations, spec_annotations, spec_element_value,
    spec_parameter_annotations,
};
use crate::cursor::{Parsed, eof, outcome, read_bytes, read_u2, read_u4, spec_bytes, spec_u2, spec_u4};
use crate::lists::{lemma_prepend_empty, lemma_prepend_push, prepend};
use crate::pool::{
    read_class, read_constant_ref, read_utf8_ref, resolve_class, spec_class_at, spec_class_ref, spec_constant_ref,
    spec_utf8_ref,
};
use crate::text::is_named;
use crate::types::{
    Attribute, AttributeModel, Class, ConstantPool, EntryModel, ErrorModel, ExceptionHandler, HandlerModel,
    LineNumber, ParsingError,
};

verus! {

/// `n` line-number records (u2 start_pc, u2 line_number) from `p`.
pub open spec fn spec_line_number_seq(b: Seq<u8>, p: int, n: nat) -> Parsed<Seq<LineNumber>>
    decreases n,
{
    if n == 0 {
        Ok((Seq::empty(), p))
    } else {
        match spec_u2(b, p) {
            Err(e) => Err(e),
            Ok((start_pc, q)) => match spec_u2(b, q) {
                Err(e) => Err(e),
                Ok((line_number, r)) => prepend(
                    seq![LineNumber { start_pc, line_number }],
                    spec_line_number_seq(b, r, (n - 1) as nat),
                ),
            },
        }
    }
}

/// A u2 count, then that many line-number records.
pub open spec fn spec_line_number_table(b: Seq<u8>, p: int) -> Parsed<Seq<LineNumber>> {
    match spec_u2(b, p) {
        Err(e) => Err(e),
        Ok((n, q)) => spec_line_number_seq(b, q, n as nat),
    }
}

/// One exception handler: three u2 pcs, then a u2 catch type where 0 catches everything.
pub open spec fn spec_handler(b: Seq<u8>, pool: Seq<EntryModel>, p: int) -> Parsed<HandlerModel> {
    match spec_u2(b, p) {
        Err(e) => Err(e),
        Ok((start_pc, q1)) => match spec_u2(b, q1) {
            Err(e) => Err(e),
            Ok((end_pc, q2)) => match spec_u2(b, q2) {
                Err(e) => Err(e),
                Ok((handler_pc, q3)) => match spec_u2(b, q3) {
                    Err(e) => Err(e),
                    Ok((catch_index, q4)) => if catch_index == 0 {
                        Ok((HandlerModel { start_pc, end_pc, handler_pc, catch_type: None }, q4))
                    } else {
                        match spec_class_at(pool, catch_index, q3) {
                            Err(e) => Err(e),
                            Ok(name) => Ok((HandlerModel { start_pc, end_pc, handler_pc, catch_type: Some(name) }, q4)),
                        }
                    },
                },
            },
        },
    }
}

pub open spec fn spec_handler_seq(b: Seq<u8>, pool: Seq<EntryModel>, p: int, n: nat) -> Parsed<Seq<HandlerModel>>
    decreases n,
{
    if n == 0 {
        Ok((Seq::empty(), p))
    } else {
        match spec_handler(b, pool, p) {
            Err(e) => Err(e),
            Ok((h, q)) => prepend(seq![h], spec_handler_seq(b, pool, q, (n - 1) as nat)),
        }
    }
}

/// A u2 count, then that many exception handlers.
pub open spec fn spec_exception_table(b: Seq<u8>, pool: Seq<EntryModel>, p: int) -> Parsed<Seq<HandlerModel>> {
    match spec_u2(b, p) {
        Err(e) => Err(e),
        Ok((n, q)) => spec_handler_seq(b, pool, q, n as nat),
    }
}

/// `n` u2 class references from `p`.
pub open spec fn spec_class_seq(b: Seq<u8>, pool: Seq<EntryModel>, p: int, n: nat) -> Parsed<Seq<Seq<char>>>
    decreases n,
{
    if n == 0 {
        Ok((Seq::empty(), p))
    } else {
        match spec_class_ref(b, pool, p) {
            Err(e) => Err(e),
            Ok((c, q)) => prepend(seq![c], spec_class_seq(b, pool, q, (n - 1) as nat)),
        }
    }
}

/// A u2 count, then that many class references.
pub open spec fn spec_class_list(b: Seq<u8>, pool: Seq<EntryModel>, p: int) -> Parsed<Seq<Seq<char>>> {
    match spec_u2(b, p) {
        Err(e) => Err(e),
        Ok((n, q)) => spec_class_seq(b, pool, q, n as nat),
    }
}

/// One attribute at `p`: a u2 Utf8 index for its name, a u4 declared length, then a body
/// that must take exactly that length.
pub open spec fn spec_attribute(b: Seq<u8>, pool: Seq<EntryModel>, p: int) -> Parsed<AttributeModel>
    decreases b.len() - p, 0int,
{
    match spec_utf8_ref(b, pool, p) {
        Err(e) => Err(e),
        Ok((name, q)) => match spec_u4(b, q) {
            Err(e) => Err(e),
            Ok((declared, body)) => match spec_attribute_body(b, pool, name, declared, body) {
                Err(e) => Err(e),
                Ok((a, end)) => if end - body == declared as int {
                    Ok((a, end))
                } else {
                    Err(
                        ErrorModel::AttributeLengthMismatch {
                            name,
                            declared,
                            consumed: (end - body) as usize,
                            offset: body as usize,
                        },
                    )
                },
            },
        },
    }
}

/// The body of an attribute named `name`, at `p`; a body of an unknown name is skipped
/// by its declared length.
pub open spec fn spec_attribute_body(
    b: Seq<u8>,
    pool: Seq<EntryModel>,
    name: Seq<char>,
    declared: u32,
    p: int,
) -> Parsed<AttributeModel>
    decreases b.len() - p, 1int,
{
    if name == "ConstantValue"@ {
        match spec_constant_ref(b, pool, p) {
            Err(e) => Err(e),
            Ok((v, q)) => Ok((AttributeModel::ConstantValue { value: v }, q)),
        }
    } else if name == "Synthetic"@ {
        Ok((AttributeModel::Synthetic, p))
    } else if name == "Signature"@ {
        match spec_utf8_ref(b, pool, p) {
            Err(e) => Err(e),
            Ok((s, q)) => Ok((AttributeModel::Signature { signature: s }, q)),
        }
    } else if name == "Deprecated"@ {
        Ok((AttributeModel::Deprecated, p))
    } else if name == "RuntimeVisibleAnnotations"@ {
        match spec_annotations(b, pool, p) {
            Err(e) => Err(e),
            Ok((s, q)) => Ok((AttributeModel::RuntimeVisibleAnnotations { annotations: s }, q)),
        }
    } else if name == "RuntimeInvisibleAnnotations"@ {
        match spec_annotations(b, pool, p) {
            Err(e) => Err(e),
            Ok((s, q)) => Ok((AttributeModel::RuntimeInvisibleAnnotations { annotations: s }, q)),
        }
    } else if name == "Code"@ {
        spec_code(b, pool, p)
    } else if name == "Exceptions"@ {
        match spec_class_list(b, pool, p) {
            Err(e) => Err(e),
            Ok((s, q)) => Ok((AttributeModel::Exceptions { exceptions: s }, q)),
        }
    } else if name == "RuntimeVisibleParameterAnnotations"@ {
        match spec_parameter_annotations(b, pool, p) {
            Err(e) => Err(e),
            Ok((s, q)) => Ok((AttributeModel::RuntimeVisibleParameterAnnotations { annotations: s }, q)),
        }
    } else if name == "RuntimeInvisibleParameterAnnotations"@ {
        match spec_parameter_annotations(b, pool, p) {
            Err(e) => Err(e),
            Ok((s, q)) => Ok((AttributeModel::RuntimeInvisibleParameterAnnotations { annotations: s }, q)),
        }
    } else if name == "AnnotationDefault"@ {
        match spec_element_value(b, pool, p) {
            Err(e) => Err(e),
            Ok((v, q)) => Ok((AttributeModel::AnnotationDefault { default_value: v }, q)),
        }
    } else if name == "LineNumberTable"@ {
        match spec_line_number_table(b, p) {
            Err(e) => Err(e),
            Ok((s, q)) => Ok((AttributeModel::LineNumberTable { line_number_table: s }, q)),
        }
    } else if name == "SourceFile"@ {
        match spec_utf8_ref(b, pool, p) {
            Err(e) => Err(e),
            Ok((s, q)) => Ok((AttributeModel::SourceFile { source_file: s }, q)),
        }
    } else if name == "NestMembers"@ {
        match spec_class_list(b, pool, p) {
            Err(e) => Err(e),
            Ok((s, q)) => Ok((AttributeModel::NestMembers { classes: s }, q)),
        }
    } else {
        match spec_bytes(b, p, declared as int) {
            Err(e) => Err(e),
            Ok((_, q)) => Ok((AttributeModel::Unknown { name }, q)),
        }
    }
}

/// A Code body: u2 max_stack, u2 max_locals, u4 code length, the code bytes, the exception
/// table, then a nested attribute list.
pub open spec fn spec_code(b: Seq<u8>, pool: Seq<EntryModel>, p: int) -> Parsed<AttributeModel>
    decreases b.len() - p, 0int,
{
    match spec_u2(b, p) {
        Err(e) => Err(e),
        Ok((max_stack, q1)) => match spec_u2(b, q1) {
            Err(e) => Err(e),
            Ok((max_locals, q2)) => match spec_u4(b, q2) {
                Err(e) => Err(e),
                Ok((code_length, q3)) => match spec_bytes(b, q3, code_length as int) {
                    Err(e) => Err(e),
                    Ok((code, q4)) => match spec_exception_table(b, pool, q4) {
                        Err(e) => Err(e),
                        Ok((exception_table, q5)) => if p < q5 <= b.len() {
                            match spec_attributes(b, pool, q5) {
                                Err(e) => Err(e),
                                Ok((attributes, q6)) => Ok((
                                    AttributeModel::Code {
                                        max_stack,
                                        max_locals,
                                        code,
                                        exception_table,
                                        attributes,
                                    },
                                    q6,
                                )),
                            }
                        } else {
                            Err(eof(q5, 0))
                        },
                    },
                },
            },
        },
    }
}

/// `n` attributes in a row from `p`.
pub open spec fn spec_attribute_seq(b: Seq<u8>, pool: Seq<EntryModel>, p: int, n: nat) -> Parsed<
    Seq<AttributeModel>,
>
    decreases b.len() - p, n + 1,
{
    if n == 0 {
        Ok((Seq::empty(), p))
    } else {
        match spec_attribute(b, pool, p) {
            Err(e) => Err(e),
            Ok((a, q)) => if p < q <= b.len() {
                prepend(seq![a], spec_attribute_seq(b, pool, q, (n - 1) as nat))
            } else {
                Err(eof(q, 0))
            },
        }
    }
}

/// A u2 count, then that many attributes.
pub open spec fn spec_attributes(b: Seq<u8>, pool: Seq<EntryModel>, p: int) -> Parsed<Seq<AttributeModel>>
    decreases b.len() - p, 0int,
{
    match spec_u2(b, p) {
        Err(e) => Err(e),
        Ok((n, q)) => spec_attribute_seq(b, pool, q, n as nat),
    }
}

} // verus!

verus! {

/// Reads a u2 count and that many line-number records.
pub fn read_line_number_table(buffer: &Vec<u8>, index: &mut usize) -> (r: Result<Vec<LineNumber>, ParsingError>)
    requires
        *old(index) <= buffer.len(),
    ensures
        outcome(r, *final(index), spec_line_number_table(buffer@, *old(index) as int)),
        r is Ok ==> *old(index) <= *final(index) <= buffer.len(),
{
    let ghost start = *index as int;
    let count = read_u2(buffer, index)?;
    let ghost first = *index as int;
    let mut line_numbers: Vec<LineNumber> = Vec::new();
    let mut i: u16 = 0;
    while i < count
        invariant
            start < first <= *index <= buffer.len(),
            start == *old(index) as int,
            i <= count,
            spec_line_number_table(buffer@, start) == spec_line_number_seq(buffer@, first, count as nat),
            spec_line_number_seq(buffer@, first, count as nat) == prepend(
                line_numbers@,
                spec_line_number_seq(buffer@, *index as int, (count - i) as nat),
            ),
        decreases count - i,
    {
        let start_pc = read_u2(buffer, index)?;
        let line_number = read_u2(buffer, index)?;
        let entry = LineNumber { start_pc, line_number };
        proof {
            lemma_prepend_push(
                line_numbers@,
                entry,
                spec_line_number_seq(buffer@, *index as int, (count - i - 1) as nat),
            );
        }
        line_numbers.push(entry);
        i = i + 1;
    }
    proof {
        lemma_prepend_empty(line_numbers@, *index as int);
    }
    assert(line_numbers.deep_view() =~= line_numbers@);
    Ok(line_numbers)
}

/// Reads one exception handler; a catch type of 0 gives `None`.
fn read_exception_handler(buffer: &Vec<u8>, index: &mut usize, constant_pool: &ConstantPool) -> (r: Result<
    ExceptionHandler,
    ParsingError,
>)
    ensures
        outcome(r, *final(index), spec_handler(buffer@, constant_pool.deep_view(), *old(index) as int)),
{
    let start_pc = read_u2(buffer, index)?;
    let end_pc = read_u2(buffer, index)?;
    let handler_pc = read_u2(buffer, index)?;
    let at = *index;
    let catch_index = read_u2(buffer, index)?;
    let catch_type = if catch_index == 0 {
        None
    } else {
        Some(resolve_class(constant_pool, catch_index, at)?)
    };
    Ok(ExceptionHandler { start_pc, end_pc, handler_pc, catch_type })
}

/// Reads a u2 count and that many exception handlers.
pub fn read_exception_table(buffer: &Vec<u8>, index: &mut usize, constant_pool: &ConstantPool) -> (r: Result<
    Vec<ExceptionHandler>,
    ParsingError,
>)
    requires
        *old(index) <= buffer.len(),
    ensures
        outcome(r, *final(index), spec_exception_table(buffer@, constant_pool.deep_view(), *old(index) as int)),
        r is Ok ==> *old(index) <= *final(index) <= buffer.len(),
{
    let ghost pool = constant_pool.deep_view();
    let ghost start = *index as int;
    let count = read_u2(buffer, index)?;
    let ghost first = *index as int;
    let mut table: Vec<ExceptionHandler> = Vec::new();
    let mut i: u16 = 0;
    while i < count
        invariant
            start < first <= *index <= buffer.len(),
            start == *old(index) as int,
            i <= count,
            pool == constant_pool.deep_view(),
            spec_exception_table(buffer@, pool, start) == spec_handler_seq(buffer@, pool, first, count as nat),
            spec_handler_seq(buffer@, pool, first, count as nat) == prepend(
                table.deep_view(),
                spec_handler_seq(buffer@, pool, *index as int, (count - i) as nat),
            ),
        decreases count - i,
    {
        let h = read_exception_handler(buffer, index, constant_pool)?;
        proof {
            lemma_prepend_push(
                table.deep_view(),
                h.deep_view(),
                spec_handler_seq(buffer@, pool, *index as int, (count - i - 1) as nat),
            );
        }
        let ghost before = table.deep_view();
        table.push(h);
        assert(table.deep_view() =~= before.push(h.deep_view()));
        i = i + 1;
    }
    proof {
        lemma_prepend_empty(table.deep_view(), *index as int);
    }
    Ok(table)
}

/// Reads a u2 count and that many class references (an Exceptions or NestMembers body,
/// or the interfaces of a class).
pub fn read_class_list(buffer: &Vec<u8>, index: &mut usize, constant_pool: &ConstantPool) -> (r: Result<
    Vec<Class>,
    ParsingError,
>)
    requires
        *old(index) <= buffer.len(),
    ensures
        outcome(r, *final(index), spec_class_list(buffer@, constant_pool.deep_view(), *old(index) as int)),
        r is Ok ==> *old(index) <= *final(index) <= buffer.len(),
{
    let ghost pool = constant_pool.deep_view();
    let ghost start = *index as int;
    let count = read_u2(buffer, index)?;
    let ghost first = *index as int;
    let mut classes: Vec<Class> = Vec::new();
    let mut i: u16 = 0;
    while i < count
        invariant
            start < first <= *index <= buffer.len(),
            start == *old(index) as int,
            i <= count,
            pool == constant_pool.deep_view(),
            spec_class_list(buffer@, pool, start) == spec_class_seq(buffer@, pool, first, count as nat),
            spec_class_seq(buffer@, pool, first, count as nat) == prepend(
                classes.deep_view(),
                spec_class_seq(buffer@, pool, *index as int, (count - i) as nat),
            ),
        decreases count - i,
    {
        let c = read_class(buffer, index, constant_pool)?;
        proof {
            lemma_prepend_push(
                classes.deep_view(),
                c.deep_view(),
                spec_class_seq(buffer@, pool, *index as int, (count - i - 1) as nat),
            );
        }
        let ghost before = classes.deep_view();
        classes.push(c);
        assert(classes.deep_view() =~= before.push(c.deep_view()));
        i = i + 1;
    }
    proof {
        lemma_prepend_empty(classes.deep_view(), *index as int);
    }
    Ok(classes)
}

/// Advances past `n` bytes without reading them.
fn skip_bytes(buffer: &Vec<u8>, index: &mut usize, n: usize) -> (r: Result<(), ParsingError>)
    ensures
        match spec_bytes(buffer@, *old(index) as int, n as int) {
            Ok((_, q)) => r is Ok && *final(index) == q,
            Err(e) => r matches Err(x) && x.deep_view() == e,
        },
{
    if *index > buffer.len() || buffer.len() - *index < n {
        Err(ParsingError::UnexpectedEof { offset: *index, wanted: n })
    } else {
        *index = *index + n;
        Ok(())
    }
}

} // verus!

verus! {

/// Reads one attribute: its name, its declared length and its body, and checks that the
/// body took exactly the declared length.
pub fn read_attribute(buffer: &Vec<u8>, index: &mut usize, constant_pool: &ConstantPool) -> (r: Result<
    Attribute,
    ParsingError,
>)
    requires
        *old(index) <= buffer.len(),
    ensures
        outcome(r, *final(index), spec_attribute(buffer@, constant_pool.deep_view(), *old(index) as int)),
        r is Ok ==> *old(index) < *final(index) <= buffer.len(),
    decreases buffer.len() - *old(index), 0int,
{
    let name = read_utf8_ref(buffer, index, constant_pool)?;
    let declared = read_u4(buffer, index)?;
    let body_start = *index;
    let attribute = read_attribute_body(buffer, index, constant_pool, &name, declared)?;
    let consumed = *index - body_start;
    if consumed != declared as usize {
        Err(ParsingError::AttributeLengthMismatch { name, declared, consumed, offset: body_start })
    } else {
        Ok(attribute)
    }
}

/// Reads the body of an attribute named `name`; skips the body of an unknown name.
fn read_attribute_body(
    buffer: &Vec<u8>,
    index: &mut usize,
    constant_pool: &ConstantPool,
    name: &String,
    declared: u32,
) -> (r: Result<Attribute, ParsingError>)
    requires
        *old(index) <= buffer.len(),
    ensures
        outcome(
            r,
            *final(index),
            spec_attribute_body(buffer@, constant_pool.deep_view(), name@, declared, *old(index) as int),
        ),
        r is Ok ==> *old(index) <= *final(index) <= buffer.len(),
    decreases buffer.len() - *old(index), 1int,
{
    proof {
        reveal_with_fuel(<Attribute as DeepView>::deep_view, 2);
    }
    if is_named(name, "ConstantValue") {
        let value = read_constant_ref(buffer, index, constant_pool)?;
        Ok(Attribute::ConstantValue { value })
    } else if is_named(name, "Synthetic") {
        Ok(Attribute::Synthetic)
    } else if is_named(name, "Signature") {
        let signature = read_utf8_ref(buffer, index, constant_pool)?;
        Ok(Attribute::Signature { signature })
    } else if is_named(name, "Deprecated") {
        Ok(Attribute::Deprecated)
    } else if is_named(name, "RuntimeVisibleAnnotations") {
        let annotations = read_annotations(buffer, index, constant_pool)?;
        Ok(Attribute::RuntimeVisibleAnnotations { annotations })
    } else if is_named(name, "RuntimeInvisibleAnnotations") {
        let annotations = read_annotations(buffer, index, constant_pool)?;
        Ok(Attribute::RuntimeInvisibleAnnotations { annotations })
    } else if is_named(name, "Code") {
        read_code(buffer, index, constant_pool)
    } else if is_named(name, "Exceptions") {
        let exceptions = read_class_list(buffer, index, constant_pool)?;
        Ok(Attribute::Exceptions { exceptions })
    } else if is_named(name, "RuntimeVisibleParameterAnnotations") {
        let annotations = read_parameter_annotations(buffer, index, constant_pool)?;
        Ok(Attribute::RuntimeVisibleParameterAnnotations { annotations })
    } else if is_named(name, "RuntimeInvisibleParameterAnnotations") {
        let annotations = read_parameter_annotations(buffer, index, constant_pool)?;
        Ok(Attribute::RuntimeInvisibleParameterAnnotations { annotations })
    } else if is_named(name, "AnnotationDefault") {
        let default_value = read_element_value(buffer, index, constant_pool)?;
        Ok(Attribute::AnnotationDefault { default_value })
    } else if is_named(name, "LineNumberTable") {
        let line_number_table = read_line_number_table(buffer, index)?;
        Ok(Attribute::LineNumberTable { line_number_table })
    } else if is_named(name, "SourceFile") {
        let source_file = read_utf8_ref(buffer, index, constant_pool)?;
        Ok(Attribute::SourceFile { source_file })
    } else if is_named(name, "NestMembers") {
        let classes = read_class_list(buffer, index, constant_pool)?;
        Ok(Attribute::NestMembers { classes })
    } else {
        skip_bytes(buffer, index, declared as usize)?;
        Ok(Attribute::Unknown { name: name.clone() })
    }
}

/// Reads a Code body, its nested attributes included.
fn read_code(buffer: &Vec<u8>, index: &mut usize, constant_pool: &ConstantPool) -> (r: Result<
    Attribute,
    ParsingError,
>)
    requires
        *old(index) <= buffer.len(),
    ensures
        outcome(r, *final(index), spec_code(buffer@, constant_pool.deep_view(), *old(index) as int)),
        r is Ok ==> *old(index) <= *final(index) <= buffer.len(),
    decreases buffer.len() - *old(index), 0int,
{
    let max_stack = read_u2(buffer, index)?;
    let max_locals = read_u2(buffer, index)?;
    let code_length = read_u4(buffer, index)?;
    let code = read_bytes(buffer, index, code_length as usize)?;
    let exception_table = read_exception_table(buffer, index, constant_pool)?;
    let attributes = read_attributes(buffer, index, constant_pool)?;
    let ghost attributes_view = attributes.deep_view();
    let ghost code_view = code@;
    assert(code.deep_view() =~= code@);
    let r = Attribute::Code { max_stack, max_locals, code, exception_table, attributes };
    proof {
        reveal_with_fuel(<Attribute as DeepView>::deep_view, 2);
        assert(r.deep_view()->Code_attributes =~= attributes_view);
    }
    Ok(r)
}

/// Reads a u2 count and that many attributes.
pub fn read_attributes(buffer: &Vec<u8>, index: &mut usize, constant_pool: &ConstantPool) -> (r: Result<
    Vec<Attribute>,
    ParsingError,
>)
    requires
        *old(index) <= buffer.len(),
    ensures
        outcome(r, *final(index), spec_attributes(buffer@, constant_pool.deep_view(), *old(index) as int)),
        r is Ok ==> *old(index) <= *final(index) <= buffer.len(),
    decreases buffer.len() - *old(index), 0int,
{
    let ghost pool = constant_pool.deep_view();
    let start = *index;
    let count = read_u2(buffer, index)?;
    let ghost first = *index as int;
    let mut attributes: Vec<Attribute> = Vec::new();
    let mut i: u16 = 0;
    while i < count
        invariant
            start < first <= *index <= buffer.len(),
            start == *old(index),
            i <= count,
            pool == constant_pool.deep_view(),
            spec_attributes(buffer@, pool, start as int) == spec_attribute_seq(buffer@, pool, first, count as nat),
            spec_attribute_seq(buffer@, pool, first, count as nat) == prepend(
                attributes.deep_view(),
                spec_attribute_seq(buffer@, pool, *index as int, (count - i) as nat),
            ),
        decreases count - i,
    {
        let a = read_attribute(buffer, index, constant_pool)?;
        proof {
            lemma_prepend_push(
                attributes.deep_view(),
                a.deep_view(),
                spec_attribute_seq(buffer@, pool, *index as int, (count - i - 1) as nat),
            );
        }
        let ghost before = attributes.deep_view();
        attributes.push(a);
        assert(attributes.deep_view() =~= before.push(a.deep_view()));
        i = i + 1;
    }
    proof {
        lemma_prepend_empty(attributes.deep_view(), *index as int);
    }
    Ok(attributes)
}

} // verus!
