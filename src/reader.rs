use vstd::prelude::*;
use crate::attributes::{read_attributes, read_class_list, spec_attributes, spec_class_list};
use crate::cursor::{Parsed, outcome, read_u2, read_u4, spec_u2, spec_u4};
use crate::flags::{
    field_flags_of, method_flags_of, parse_field_flags, parse_method_flags, read_access_flags,
    spec_access_flags,
};
use crate::lists::{lemma_prepend_empty, lemma_prepend_push, prepend};
use crate::pool::{read_class, read_constant_pool, read_utf8_ref, spec_class_ref, spec_constant_pool, spec_utf8_ref};
use crate::types::{
    Class, ClassFile, ClassFileModel, ConstantPool, EntryModel, ErrorModel, Field, FieldModel, Method, MethodModel,
    ParsingError,
};

verus! {

/// One field record: u2 flag mask, u2 Utf8 name, u2 Utf8 descriptor, then its attributes.
pub open spec fn spec_field(b: Seq<u8>, pool: Seq<EntryModel>, p: int) -> Parsed<FieldModel> {
    match spec_u2(b, p) {
        Err(e) => Err(e),
        Ok((mask, q1)) => match spec_utf8_ref(b, pool, q1) {
            Err(e) => Err(e),
            Ok((name, q2)) => match spec_utf8_ref(b, pool, q2) {
                Err(e) => Err(e),
                Ok((descriptor, q3)) => match spec_attributes(b, pool, q3) {
                    Err(e) => Err(e),
                    Ok((attributes, q4)) => Ok((
                        FieldModel { access_flags: field_flags_of(mask), name, descriptor, attributes },
                        q4,
                    )),
                },
            },
        },
    }
}

pub open spec fn spec_field_seq(b: Seq<u8>, pool: Seq<EntryModel>, p: int, n: nat) -> Parsed<Seq<FieldModel>>
    decreases n,
{
    if n == 0 {
        Ok((Seq::empty(), p))
    } else {
        match spec_field(b, pool, p) {
            Err(e) => Err(e),
            Ok((f, q)) => prepend(seq![f], spec_field_seq(b, pool, q, (n - 1) as nat)),
        }
    }
}

/// A u2 count, then that many field records.
pub open spec fn spec_fields(b: Seq<u8>, pool: Seq<EntryModel>, p: int) -> Parsed<Seq<FieldModel>> {
    match spec_u2(b, p) {
        Err(e) => Err(e),
        Ok((n, q)) => spec_field_seq(b, pool, q, n as nat),
    }
}

/// One method record: laid out as a field record, with method flags.
pub open spec fn spec_method(b: Seq<u8>, pool: Seq<EntryModel>, p: int) -> Parsed<MethodModel> {
    match spec_u2(b, p) {
        Err(e) => Err(e),
        Ok((mask, q1)) => match spec_utf8_ref(b, pool, q1) {
            Err(e) => Err(e),
            Ok((name, q2)) => match spec_utf8_ref(b, pool, q2) {
                Err(e) => Err(e),
                Ok((descriptor, q3)) => match spec_attributes(b, pool, q3) {
                    Err(e) => Err(e),
                    Ok((attributes, q4)) => Ok((
                        MethodModel { access_flags: method_flags_of(mask), name, descriptor, attributes },
                        q4,
                    )),
                },
            },
        },
    }
}

pub open spec fn spec_method_seq(b: Seq<u8>, pool: Seq<EntryModel>, p: int, n: nat) -> Parsed<Seq<MethodModel>>
    decreases n,
{
    if n == 0 {
        Ok((Seq::empty(), p))
    } else {
        match spec_method(b, pool, p) {
            Err(e) => Err(e),
            Ok((m, q)) => prepend(seq![m], spec_method_seq(b, pool, q, (n - 1) as nat)),
        }
    }
}

/// A u2 count, then that many method records.
pub open spec fn spec_methods(b: Seq<u8>, pool: Seq<EntryModel>, p: int) -> Parsed<Seq<MethodModel>> {
    match spec_u2(b, p) {
        Err(e) => Err(e),
        Ok((n, q)) => spec_method_seq(b, pool, q, n as nat),
    }
}

/// Everything after the constant pool, read against `pool`.
pub open spec fn spec_class_body(
    b: Seq<u8>,
    magic: u32,
    minor_version: u16,
    major_version: u16,
    pool: Seq<EntryModel>,
    p: int,
) -> Result<ClassFileModel, ErrorModel> {
    match spec_access_flags(b, p) {
        Err(e) => Err(e),
        Ok((access_flags, q1)) => match spec_class_ref(b, pool, q1) {
            Err(e) => Err(e),
            Ok((this_class, q2)) => match spec_class_ref(b, pool, q2) {
                Err(e) => Err(e),
                Ok((super_class, q3)) => match spec_class_list(b, pool, q3) {
                    Err(e) => Err(e),
                    Ok((interfaces, q4)) => match spec_fields(b, pool, q4) {
                        Err(e) => Err(e),
                        Ok((fields, q5)) => match spec_methods(b, pool, q5) {
                            Err(e) => Err(e),
                            Ok((methods, q6)) => match spec_attributes(b, pool, q6) {
                                Err(e) => Err(e),
                                Ok((attributes, end)) => Ok(
                                    ClassFileModel {
                                        magic,
                                        minor_version,
                                        major_version,
                                        constant_pool: pool,
                                        access_flags,
                                        this_class,
                                        super_class,
                                        interfaces,
                                        fields,
                                        methods,
                                        attributes,
                                        parsed_bytes: end as usize,
                                    },
                                ),
                            },
                        },
                    },
                },
            },
        },
    }
}

/// A whole classfile from the first byte: u4 magic, u2 minor, u2 major, the constant pool,
/// then the class body.
pub open spec fn spec_class_file(b: Seq<u8>) -> Result<ClassFileModel, ErrorModel> {
    match spec_u4(b, 0) {
        Err(e) => Err(e),
        Ok((magic, q1)) => match spec_u2(b, q1) {
            Err(e) => Err(e),
            Ok((minor_version, q2)) => match spec_u2(b, q2) {
                Err(e) => Err(e),
                Ok((major_version, q3)) => match spec_constant_pool(b, q3) {
                    Err(e) => Err(e),
                    Ok((pool, q4)) => spec_class_body(b, magic, minor_version, major_version, pool, q4),
                },
            },
        },
    }
}

/// Reads one field record.
fn read_field(buffer: &Vec<u8>, index: &mut usize, constant_pool: &ConstantPool) -> (r: Result<Field, ParsingError>)
    requires
        *old(index) <= buffer.len(),
    ensures
        outcome(r, *final(index), spec_field(buffer@, constant_pool.deep_view(), *old(index) as int)),
        r is Ok ==> *old(index) <= *final(index) <= buffer.len(),
{
    let flag_mask = read_u2(buffer, index)?;
    let access_flags = parse_field_flags(flag_mask);
    let name = read_utf8_ref(buffer, index, constant_pool)?;
    let descriptor = read_utf8_ref(buffer, index, constant_pool)?;
    let attributes = read_attributes(buffer, index, constant_pool)?;
    Ok(Field { access_flags, name, descriptor, attributes })
}

/// Reads a u2 count and that many field records.
pub fn read_fields(buffer: &Vec<u8>, index: &mut usize, constant_pool: &ConstantPool) -> (r: Result<
    Vec<Field>,
    ParsingError,
>)
    requires
        *old(index) <= buffer.len(),
    ensures
        outcome(r, *final(index), spec_fields(buffer@, constant_pool.deep_view(), *old(index) as int)),
        r is Ok ==> *old(index) <= *final(index) <= buffer.len(),
{
    let ghost pool = constant_pool.deep_view();
    let ghost start = *index as int;
    let count = read_u2(buffer, index)?;
    let ghost first = *index as int;
    let mut fields: Vec<Field> = Vec::new();
    let mut i: u16 = 0;
    while i < count
        invariant
            start < first <= *index <= buffer.len(),
            start == *old(index) as int,
            i <= count,
            pool == constant_pool.deep_view(),
            spec_fields(buffer@, pool, start) == spec_field_seq(buffer@, pool, first, count as nat),
            spec_field_seq(buffer@, pool, first, count as nat) == prepend(
                fields.deep_view(),
                spec_field_seq(buffer@, pool, *index as int, (count - i) as nat),
            ),
        decreases count - i,
    {
        let f = read_field(buffer, index, constant_pool)?;
        proof {
            lemma_prepend_push(
                fields.deep_view(),
                f.deep_view(),
                spec_field_seq(buffer@, pool, *index as int, (count - i - 1) as nat),
            );
        }
        let ghost before = fields.deep_view();
        fields.push(f);
        assert(fields.deep_view() =~= before.push(f.deep_view()));
        i = i + 1;
    }
    proof {
        lemma_prepend_empty(fields.deep_view(), *index as int);
    }
    Ok(fields)
}

/// Reads one method record.
fn read_method(buffer: &Vec<u8>, index: &mut usize, constant_pool: &ConstantPool) -> (r: Result<Method, ParsingError>)
    requires
        *old(index) <= buffer.len(),
    ensures
        outcome(r, *final(index), spec_method(buffer@, constant_pool.deep_view(), *old(index) as int)),
        r is Ok ==> *old(index) <= *final(index) <= buffer.len(),
{
    let flag_mask = read_u2(buffer, index)?;
    let access_flags = parse_method_flags(flag_mask);
    let name = read_utf8_ref(buffer, index, constant_pool)?;
    let descriptor = read_utf8_ref(buffer, index, constant_pool)?;
    let attributes = read_attributes(buffer, index, constant_pool)?;
    Ok(Method { access_flags, name, descriptor, attributes })
}

/// Reads a u2 count and that many method records.
pub fn read_methods(buffer: &Vec<u8>, index: &mut usize, constant_pool: &ConstantPool) -> (r: Result<
    Vec<Method>,
    ParsingError,
>)
    requires
        *old(index) <= buffer.len(),
    ensures
        outcome(r, *final(index), spec_methods(buffer@, constant_pool.deep_view(), *old(index) as int)),
        r is Ok ==> *old(index) <= *final(index) <= buffer.len(),
{
    let ghost pool = constant_pool.deep_view();
    let ghost start = *index as int;
    let count = read_u2(buffer, index)?;
    let ghost first = *index as int;
    let mut methods: Vec<Method> = Vec::new();
    let mut i: u16 = 0;
    while i < count
        invariant
            start < first <= *index <= buffer.len(),
            start == *old(index) as int,
            i <= count,
            pool == constant_pool.deep_view(),
            spec_methods(buffer@, pool, start) == spec_method_seq(buffer@, pool, first, count as nat),
            spec_method_seq(buffer@, pool, first, count as nat) == prepend(
                methods.deep_view(),
                spec_method_seq(buffer@, pool, *index as int, (count - i) as nat),
            ),
        decreases count - i,
    {
        let m = read_method(buffer, index, constant_pool)?;
        proof {
            lemma_prepend_push(
                methods.deep_view(),
                m.deep_view(),
                spec_method_seq(buffer@, pool, *index as int, (count - i - 1) as nat),
            );
        }
        let ghost before = methods.deep_view();
        methods.push(m);
        assert(methods.deep_view() =~= before.push(m.deep_view()));
        i = i + 1;
    }
    proof {
        lemma_prepend_empty(methods.deep_view(), *index as int);
    }
    Ok(methods)
}

/// Reads the u2 count of implemented interfaces and the classes they name.
pub fn read_interfaces(buffer: &Vec<u8>, index: &mut usize, constant_pool: &ConstantPool) -> (r: Result<
    Vec<Class>,
    ParsingError,
>)
    requires
        *old(index) <= buffer.len(),
    ensures
        outcome(r, *final(index), spec_class_list(buffer@, constant_pool.deep_view(), *old(index) as int)),
        r is Ok ==> *old(index) <= *final(index) <= buffer.len(),
{
    read_class_list(buffer, index, constant_pool)
}

/// Decodes a whole classfile. On success the result holds the constant pool it was
/// resolved against and the number of bytes consumed.
pub fn read_class_file(data: &Vec<u8>) -> (r: Result<ClassFile, ParsingError>)
    ensures
        match spec_class_file(data@) {
            Ok(m) => r matches Ok(c) && c.deep_view() == m,
            Err(e) => r matches Err(x) && x.deep_view() == e,
        },
{
    let mut index: usize = 0;
    let magic = read_u4(data, &mut index)?;
    let minor_version = read_u2(data, &mut index)?;
    let major_version = read_u2(data, &mut index)?;
    let constant_pool = read_constant_pool(data, &mut index)?;
    let access_flags = read_access_flags(data, &mut index)?;
    assert(access_flags.deep_view() =~= access_flags@);
    let this_class = read_class(data, &mut index, &constant_pool)?;
    let super_class = read_class(data, &mut index, &constant_pool)?;
    let interfaces = read_interfaces(data, &mut index, &constant_pool)?;
    let fields = read_fields(data, &mut index, &constant_pool)?;
    let methods = read_methods(data, &mut index, &constant_pool)?;
    let attributes = read_attributes(data, &mut index, &constant_pool)?;
    Ok(
        ClassFile {
            magic,
            minor_version,
            major_version,
            constant_pool,
            access_flags,
            this_class,
            super_class,
            interfaces,
            fields,
            methods,
            attributes,
            parsed_bytes: index,
        },
    )
}

} // verus!
