use vstd::prelude::*;
use crate::cursor::{Parsed, eof, outcome, read_u1, read_u2, spec_u1, spec_u2};
use crate::lists::{lemma_prepend_empty, lemma_prepend_push, prepend};
use crate::pool::{read_constant_ref, read_utf8_ref, spec_constant_ref, spec_utf8_ref};
use crate::types::{
    Annotation, AnnotationModel, ConstantPool, ElementValue, ElementValueModel, ElementValuePair, EntryModel,
    ErrorModel, ParsingError,
};

verus! {

/// Tags of element values that name a constant: B C D F I J S Z s.
pub open spec fn is_constant_tag(tag: u8) -> bool {
    tag == 0x42 || tag == 0x43 || tag == 0x44 || tag == 0x46 || tag == 0x49 || tag == 0x4a || tag == 0x53
        || tag == 0x5a || tag == 0x73
}

/// One element value at `p`: a u1 tag, then the body that the tag calls for.
pub open spec fn spec_element_value(b: Seq<u8>, pool: Seq<EntryModel>, p: int) -> Parsed<ElementValueModel>
    decreases b.len() - p, 0int,
{
    match spec_u1(b, p) {
        Err(e) => Err(e),
        Ok((tag, q)) => if is_constant_tag(tag) {
            match spec_constant_ref(b, pool, q) {
                Err(e) => Err(e),
                Ok((v, r)) => Ok((ElementValueModel::ConstValue { value: v }, r)),
            }
        } else if tag == 0x65 {
            match spec_utf8_ref(b, pool, q) {
                Err(e) => Err(e),
                Ok((t, r)) => match spec_utf8_ref(b, pool, r) {
                    Err(e) => Err(e),
                    Ok((c, s)) => Ok((ElementValueModel::EnumConstValue { type_descriptor: t, const_name: c }, s)),
                },
            }
        } else if tag == 0x63 {
            match spec_utf8_ref(b, pool, q) {
                Err(e) => Err(e),
                Ok((d, r)) => Ok((ElementValueModel::ClassInfo { descriptor: d }, r)),
            }
        } else if tag == 0x40 {
            match spec_annotation(b, pool, q) {
                Err(e) => Err(e),
                Ok((a, r)) => Ok((ElementValueModel::AnnotationValue { annotation: a }, r)),
            }
        } else if tag == 0x5b {
            match spec_u2(b, q) {
                Err(e) => Err(e),
                Ok((n, r)) => match spec_element_values(b, pool, r, n as nat) {
                    Err(e) => Err(e),
                    Ok((s, t)) => Ok((ElementValueModel::ArrayValue { elements: s }, t)),
                },
            }
        } else {
            Err(ErrorModel::InvalidElementValueTag { tag, offset: p as usize })
        },
    }
}

/// `n` element values in a row from `p`.
pub open spec fn spec_element_values(b: Seq<u8>, pool: Seq<EntryModel>, p: int, n: nat) -> Parsed<
    Seq<ElementValueModel>,
>
    decreases b.len() - p, n + 1,
{
    if n == 0 {
        Ok((Seq::empty(), p))
    } else {
        match spec_element_value(b, pool, p) {
            Err(e) => Err(e),
            Ok((v, q)) => if p < q <= b.len() {
                prepend(seq![v], spec_element_values(b, pool, q, (n - 1) as nat))
            } else {
                Err(eof(q, 0))
            },
        }
    }
}

/// One annotation at `p`: a u2 Utf8 index for its type, a u2 pair count, then the pairs.
pub open spec fn spec_annotation(b: Seq<u8>, pool: Seq<EntryModel>, p: int) -> Parsed<AnnotationModel>
    decreases b.len() - p, 0int,
{
    match spec_utf8_ref(b, pool, p) {
        Err(e) => Err(e),
        Ok((t, q)) => match spec_u2(b, q) {
            Err(e) => Err(e),
            Ok((n, r)) => match spec_element_value_pairs(b, pool, r, n as nat) {
                Err(e) => Err(e),
                Ok((s, end)) => Ok((AnnotationModel { type_descriptor: t, element_value_pairs: s }, end)),
            },
        },
    }
}

/// `n` pairs of a u2 Utf8 index (the element name) and an element value.
pub open spec fn spec_element_value_pairs(b: Seq<u8>, pool: Seq<EntryModel>, p: int, n: nat) -> Parsed<
    Seq<(Seq<char>, ElementValueModel)>,
>
    decreases b.len() - p, n + 1,
{
    if n == 0 {
        Ok((Seq::empty(), p))
    } else {
        match spec_utf8_ref(b, pool, p) {
            Err(e) => Err(e),
            Ok((name, q)) => match spec_element_value(b, pool, q) {
                Err(e) => Err(e),
                Ok((v, r)) => if p < r <= b.len() {
                    prepend(seq![(name, v)], spec_element_value_pairs(b, pool, r, (n - 1) as nat))
                } else {
                    Err(eof(r, 0))
                },
            },
        }
    }
}

/// `n` annotations in a row from `p`.
pub open spec fn spec_annotation_seq(b: Seq<u8>, pool: Seq<EntryModel>, p: int, n: nat) -> Parsed<
    Seq<AnnotationModel>,
>
    decreases n,
{
    if n == 0 {
        Ok((Seq::empty(), p))
    } else {
        match spec_annotation(b, pool, p) {
            Err(e) => Err(e),
            Ok((a, q)) => prepend(seq![a], spec_annotation_seq(b, pool, q, (n - 1) as nat)),
        }
    }
}

/// A u2 count, then that many annotations.
pub open spec fn spec_annotations(b: Seq<u8>, pool: Seq<EntryModel>, p: int) -> Parsed<Seq<AnnotationModel>> {
    match spec_u2(b, p) {
        Err(e) => Err(e),
        Ok((n, q)) => spec_annotation_seq(b, pool, q, n as nat),
    }
}

/// `n` annotation lists in a row from `p`, one per parameter.
pub open spec fn spec_parameter_seq(b: Seq<u8>, pool: Seq<EntryModel>, p: int, n: nat) -> Parsed<
    Seq<Seq<AnnotationModel>>,
>
    decreases n,
{
    if n == 0 {
        Ok((Seq::empty(), p))
    } else {
        match spec_annotations(b, pool, p) {
            Err(e) => Err(e),
            Ok((a, q)) => prepend(seq![a], spec_parameter_seq(b, pool, q, (n - 1) as nat)),
        }
    }
}

/// A u1 parameter count, then one annotation list per parameter.
pub open spec fn spec_parameter_annotations(b: Seq<u8>, pool: Seq<EntryModel>, p: int) -> Parsed<
    Seq<Seq<AnnotationModel>>,
> {
    match spec_u1(b, p) {
        Err(e) => Err(e),
        Ok((n, q)) => spec_parameter_seq(b, pool, q, n as nat),
    }
}

/// Reads one element value, nested arrays and annotations included.
pub fn read_element_value(buffer: &Vec<u8>, index: &mut usize, constant_pool: &ConstantPool) -> (r: Result<
    ElementValue,
    ParsingError,
>)
    requires
        *old(index) <= buffer.len(),
    ensures
        outcome(r, *final(index), spec_element_value(buffer@, constant_pool.deep_view(), *old(index) as int)),
        r is Ok ==> *old(index) < *final(index) <= buffer.len(),
    decreases buffer.len() - *old(index), 0int,
{
    let ghost pool = constant_pool.deep_view();
    let start = *index;
    let tag = read_u1(buffer, index)?;
    if tag == 0x42 || tag == 0x43 || tag == 0x44 || tag == 0x46 || tag == 0x49 || tag == 0x4a || tag == 0x53
        || tag == 0x5a || tag == 0x73 {
        let value = read_constant_ref(buffer, index, constant_pool)?;
        Ok(ElementValue::ConstValue { value })
    } else if tag == 0x65 {
        let type_descriptor = read_utf8_ref(buffer, index, constant_pool)?;
        let const_name = read_utf8_ref(buffer, index, constant_pool)?;
        Ok(ElementValue::EnumConstValue { type_descriptor, const_name })
    } else if tag == 0x63 {
        let descriptor = read_utf8_ref(buffer, index, constant_pool)?;
        Ok(ElementValue::ClassInfo { descriptor })
    } else if tag == 0x40 {
        let annotation = read_annotation(buffer, index, constant_pool)?;
        Ok(ElementValue::AnnotationValue { annotation })
    } else if tag == 0x5b {
        let count = read_u2(buffer, index)?;
        let ghost first = *index as int;
        let mut elements: Vec<ElementValue> = Vec::new();
        let mut i: u16 = 0;
        while i < count
            invariant
                start < first <= *index <= buffer.len(),
                start == *old(index),
                i <= count,
                pool == constant_pool.deep_view(),
                spec_element_value(buffer@, pool, start as int) == match spec_element_values(
                    buffer@,
                    pool,
                    first,
                    count as nat,
                ) {
                    Err(e) => Err(e),
                    Ok((s, t)) => Ok((ElementValueModel::ArrayValue { elements: s }, t)),
                },
                spec_element_values(buffer@, pool, first, count as nat) == prepend(
                    elements.deep_view(),
                    spec_element_values(buffer@, pool, *index as int, (count - i) as nat),
                ),
            decreases count - i,
        {
            let v = read_element_value(buffer, index, constant_pool)?;
            proof {
                lemma_prepend_push(
                    elements.deep_view(),
                    v.deep_view(),
                    spec_element_values(buffer@, pool, *index as int, (count - i - 1) as nat),
                );
            }
            let ghost before = elements.deep_view();
            elements.push(v);
            assert(elements.deep_view() =~= before.push(v.deep_view()));
            i = i + 1;
        }
        proof {
            lemma_prepend_empty(elements.deep_view(), *index as int);
        }
        let ghost elements_view = elements.deep_view();
        let r = ElementValue::ArrayValue { elements };
        proof {
            reveal_with_fuel(<ElementValue as DeepView>::deep_view, 2);
            assert(r.deep_view()->ArrayValue_elements =~= elements_view);
        }
        Ok(r)
    } else {
        Err(ParsingError::InvalidElementValueTag { tag, offset: start })
    }
}

/// Reads one annotation: its type and its element-value pairs.
pub fn read_annotation(buffer: &Vec<u8>, index: &mut usize, constant_pool: &ConstantPool) -> (r: Result<
    Annotation,
    ParsingError,
>)
    requires
        *old(index) <= buffer.len(),
    ensures
        outcome(r, *final(index), spec_annotation(buffer@, constant_pool.deep_view(), *old(index) as int)),
        r is Ok ==> *old(index) < *final(index) <= buffer.len(),
    decreases buffer.len() - *old(index), 0int,
{
    let ghost pool = constant_pool.deep_view();
    let start = *index;
    let type_descriptor = read_utf8_ref(buffer, index, constant_pool)?;
    let count = read_u2(buffer, index)?;
    let ghost first = *index as int;
    let mut pairs: Vec<ElementValuePair> = Vec::new();
    let ghost mut pairs_view: Seq<(Seq<char>, ElementValueModel)> = Seq::empty();
    let mut i: u16 = 0;
    while i < count
        invariant
            start < first <= *index <= buffer.len(),
            start == *old(index),
            i <= count,
            pool == constant_pool.deep_view(),
            spec_annotation(buffer@, pool, start as int) == match spec_element_value_pairs(
                buffer@,
                pool,
                first,
                count as nat,
            ) {
                Err(e) => Err(e),
                Ok((s, end)) => Ok((AnnotationModel { type_descriptor: type_descriptor@, element_value_pairs: s }, end)),
            },
            spec_element_value_pairs(buffer@, pool, first, count as nat) == prepend(
                pairs_view,
                spec_element_value_pairs(buffer@, pool, *index as int, (count - i) as nat),
            ),
            pairs_view.len() == pairs@.len(),
            forall|k: int|
                0 <= k < pairs@.len() ==> #[trigger] pairs_view[k] == (pairs@[k].0@, pairs@[k].1.deep_view()),
        decreases count - i,
    {
        let name = read_utf8_ref(buffer, index, constant_pool)?;
        let value = read_element_value(buffer, index, constant_pool)?;
        proof {
            lemma_prepend_push(
                pairs_view,
                (name@, value.deep_view()),
                spec_element_value_pairs(buffer@, pool, *index as int, (count - i - 1) as nat),
            );
            pairs_view = pairs_view.push((name@, value.deep_view()));
        }
        pairs.push(ElementValuePair(name, value));
        i = i + 1;
    }
    proof {
        lemma_prepend_empty(pairs_view, *index as int);
    }
    let r = Annotation { type_descriptor, element_value_pairs: pairs };
    assert(r.deep_view().element_value_pairs =~= pairs_view);
    Ok(r)
}

/// Reads a u2 count and that many annotations.
pub fn read_annotations(buffer: &Vec<u8>, index: &mut usize, constant_pool: &ConstantPool) -> (r: Result<
    Vec<Annotation>,
    ParsingError,
>)
    requires
        *old(index) <= buffer.len(),
    ensures
        outcome(r, *final(index), spec_annotations(buffer@, constant_pool.deep_view(), *old(index) as int)),
        r is Ok ==> *old(index) <= *final(index) <= buffer.len(),
{
    let ghost pool = constant_pool.deep_view();
    let ghost start = *index as int;
    let count = read_u2(buffer, index)?;
    let ghost first = *index as int;
    let mut annotations: Vec<Annotation> = Vec::new();
    let mut i: u16 = 0;
    while i < count
        invariant
            start < first <= *index <= buffer.len(),
            start == *old(index) as int,
            i <= count,
            pool == constant_pool.deep_view(),
            spec_annotations(buffer@, pool, start) == spec_annotation_seq(buffer@, pool, first, count as nat),
            spec_annotation_seq(buffer@, pool, first, count as nat) == prepend(
                annotations.deep_view(),
                spec_annotation_seq(buffer@, pool, *index as int, (count - i) as nat),
            ),
        decreases count - i,
    {
        let a = read_annotation(buffer, index, constant_pool)?;
        proof {
            lemma_prepend_push(
                annotations.deep_view(),
                a.deep_view(),
                spec_annotation_seq(buffer@, pool, *index as int, (count - i - 1) as nat),
            );
        }
        let ghost before = annotations.deep_view();
        annotations.push(a);
        assert(annotations.deep_view() =~= before.push(a.deep_view()));
        i = i + 1;
    }
    proof {
        lemma_prepend_empty(annotations.deep_view(), *index as int);
    }
    Ok(annotations)
}

/// Reads a u1 parameter count and one annotation list per parameter.
pub fn read_parameter_annotations(buffer: &Vec<u8>, index: &mut usize, constant_pool: &ConstantPool) -> (r: Result<
    Vec<Vec<Annotation>>,
    ParsingError,
>)
    requires
        *old(index) <= buffer.len(),
    ensures
        outcome(r, *final(index), spec_parameter_annotations(buffer@, constant_pool.deep_view(), *old(index) as int)),
        r is Ok ==> *old(index) <= *final(index) <= buffer.len(),
{
    let ghost pool = constant_pool.deep_view();
    let ghost start = *index as int;
    let count = read_u1(buffer, index)?;
    let ghost first = *index as int;
    let mut lists: Vec<Vec<Annotation>> = Vec::new();
    let mut i: u8 = 0;
    while i < count
        invariant
            start < first <= *index <= buffer.len(),
            start == *old(index) as int,
            i <= count,
            pool == constant_pool.deep_view(),
            spec_parameter_annotations(buffer@, pool, start) == spec_parameter_seq(buffer@, pool, first, count as nat),
            spec_parameter_seq(buffer@, pool, first, count as nat) == prepend(
                lists.deep_view(),
                spec_parameter_seq(buffer@, pool, *index as int, (count - i) as nat),
            ),
        decreases count - i,
    {
        let a = read_annotations(buffer, index, constant_pool)?;
        proof {
            lemma_prepend_push(
                lists.deep_view(),
                a.deep_view(),
                spec_parameter_seq(buffer@, pool, *index as int, (count - i - 1) as nat),
            );
        }
        let ghost before = lists.deep_view();
        lists.push(a);
        assert(lists.deep_view() =~= before.push(a.deep_view()));
        i = i + 1;
    }
    proof {
        lemma_prepend_empty(lists.deep_view(), *index as int);
    }
    Ok(lists)
}

} // verus!
