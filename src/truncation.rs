use vstd::prelude::*;
use crate::annotations::{
    spec_annotation, spec_annotation_seq, spec_annotations, spec_element_value, spec_element_value_pairs,
    spec_element_values, spec_parameter_annotations, spec_parameter_seq,
};
use crate::attributes::{
    spec_attribute, spec_attribute_body, spec_attribute_seq, spec_attributes, spec_class_list, spec_class_seq,
    spec_code, spec_exception_table, spec_handler, spec_handler_seq, spec_line_number_seq, spec_line_number_table,
};
use crate::cursor::{Parsed, spec_bytes, spec_length_and_utf8, spec_u1, spec_u2, spec_u4, spec_u8};
use crate::flags::spec_access_flags;
use crate::pool::{
    slot_count, spec_class_ref, spec_constant_pool, spec_constant_ref, spec_pool_entry, spec_pool_slots, spec_u2_pair,
    spec_utf8_ref,
};
use crate::reader::{
    spec_class_body, spec_class_file, spec_field, spec_field_seq, spec_fields, spec_method, spec_method_seq,
    spec_methods,
};
use crate::types::{ClassFileModel, EntryModel, ErrorModel};

verus! {

/// How a reader that succeeds on `b` (of length `len`) from `p`, ending at `q`, fares on the
/// first `k` bytes of `b`: `p <= q`, `q <= len` when `p <= len`, and when `p <= k` the cut
/// input gives the same outcome if `q <= k` and runs out of input otherwise.
pub open spec fn cut_ok<T>(full: Parsed<T>, cut: Parsed<T>, p: int, k: int, len: int) -> bool {
    full matches Ok((v, q)) ==> (p <= q && (p <= len ==> q <= len) && (p <= k ==> if q <= k {
        cut == full
    } else {
        cut matches Err(ErrorModel::UnexpectedEof { .. })
    }))
}

proof fn lemma_u1_cut(b: Seq<u8>, k: int, p: int)
    requires
        0 <= k <= b.len(),
    ensures
        cut_ok(spec_u1(b, p), spec_u1(b.take(k), p), p, k, b.len() as int),
{
}

proof fn lemma_u2_cut(b: Seq<u8>, k: int, p: int)
    requires
        0 <= k <= b.len(),
    ensures
        cut_ok(spec_u2(b, p), spec_u2(b.take(k), p), p, k, b.len() as int),
{
}

proof fn lemma_u4_cut(b: Seq<u8>, k: int, p: int)
    requires
        0 <= k <= b.len(),
    ensures
        cut_ok(spec_u4(b, p), spec_u4(b.take(k), p), p, k, b.len() as int),
{
}

proof fn lemma_u8_cut(b: Seq<u8>, k: int, p: int)
    requires
        0 <= k <= b.len(),
    ensures
        cut_ok(spec_u8(b, p), spec_u8(b.take(k), p), p, k, b.len() as int),
{
}

proof fn lemma_bytes_cut(b: Seq<u8>, k: int, p: int, n: int)
    requires
        0 <= k <= b.len(),
    ensures
        cut_ok(spec_bytes(b, p, n), spec_bytes(b.take(k), p, n), p, k, b.len() as int),
{
    if 0 <= p && 0 <= n && p + n <= k {
        assert(b.take(k).subrange(p, p + n) =~= b.subrange(p, p + n));
    }
}

proof fn lemma_length_and_utf8_cut(b: Seq<u8>, k: int, p: int)
    requires
        0 <= k <= b.len(),
    ensures
        cut_ok(spec_length_and_utf8(b, p), spec_length_and_utf8(b.take(k), p), p, k, b.len() as int),
{
    lemma_u2_cut(b, k, p);
    if let Ok((n, q)) = spec_u2(b, p) {
        lemma_bytes_cut(b, k, q, n as int);
    }
}

proof fn lemma_u2_pair_cut(b: Seq<u8>, k: int, p: int)
    requires
        0 <= k <= b.len(),
    ensures
        cut_ok(spec_u2_pair(b, p), spec_u2_pair(b.take(k), p), p, k, b.len() as int),
{
    lemma_u2_cut(b, k, p);
    if let Ok((_, q)) = spec_u2(b, p) {
        lemma_u2_cut(b, k, q);
    }
}

proof fn lemma_pool_entry_cut(b: Seq<u8>, k: int, p: int)
    requires
        0 <= k <= b.len(),
    ensures
        cut_ok(spec_pool_entry(b, p), spec_pool_entry(b.take(k), p), p, k, b.len() as int),
{
    lemma_u1_cut(b, k, p);
    if let Ok((tag, q)) = spec_u1(b, p) {
        lemma_length_and_utf8_cut(b, k, q);
        lemma_u2_pair_cut(b, k, q);
        lemma_u4_cut(b, k, q);
        lemma_u8_cut(b, k, q);
        lemma_u2_cut(b, k, q);
        lemma_u1_cut(b, k, q);
        if let Ok((_, r)) = spec_u1(b, q) {
            lemma_u2_cut(b, k, r);
        }
    }
}

proof fn lemma_pool_slots_cut(b: Seq<u8>, k: int, p: int, n: nat)
    requires
        0 <= k <= b.len(),
    ensures
        cut_ok(spec_pool_slots(b, p, n), spec_pool_slots(b.take(k), p, n), p, k, b.len() as int),
    decreases n,
{
    if n > 0 {
        lemma_pool_slots_cut(b, k, p, (n - 1) as nat);
        if let Ok((_, q)) = spec_pool_slots(b, p, (n - 1) as nat) {
            lemma_pool_entry_cut(b, k, q);
        }
    }
}

proof fn lemma_constant_pool_cut(b: Seq<u8>, k: int, p: int)
    requires
        0 <= k <= b.len(),
    ensures
        cut_ok(spec_constant_pool(b, p), spec_constant_pool(b.take(k), p), p, k, b.len() as int),
{
    lemma_u2_cut(b, k, p);
    if let Ok((count, q)) = spec_u2(b, p) {
        lemma_pool_slots_cut(b, k, q, slot_count(count));
    }
}

proof fn lemma_class_ref_cut(b: Seq<u8>, k: int, pool: Seq<EntryModel>, p: int)
    requires
        0 <= k <= b.len(),
    ensures
        cut_ok(spec_class_ref(b, pool, p), spec_class_ref(b.take(k), pool, p), p, k, b.len() as int),
{
    lemma_u2_cut(b, k, p);
}

proof fn lemma_utf8_ref_cut(b: Seq<u8>, k: int, pool: Seq<EntryModel>, p: int)
    requires
        0 <= k <= b.len(),
    ensures
        cut_ok(spec_utf8_ref(b, pool, p), spec_utf8_ref(b.take(k), pool, p), p, k, b.len() as int),
{
    lemma_u2_cut(b, k, p);
}

proof fn lemma_constant_ref_cut(b: Seq<u8>, k: int, pool: Seq<EntryModel>, p: int)
    requires
        0 <= k <= b.len(),
    ensures
        cut_ok(spec_constant_ref(b, pool, p), spec_constant_ref(b.take(k), pool, p), p, k, b.len() as int),
{
    lemma_u2_cut(b, k, p);
}

proof fn lemma_access_flags_cut(b: Seq<u8>, k: int, p: int)
    requires
        0 <= k <= b.len(),
    ensures
        cut_ok(spec_access_flags(b, p), spec_access_flags(b.take(k), p), p, k, b.len() as int),
{
    lemma_u2_cut(b, k, p);
}

proof fn lemma_element_value_cut(b: Seq<u8>, k: int, pool: Seq<EntryModel>, p: int)
    requires
        0 <= k <= b.len(),
    ensures
        cut_ok(spec_element_value(b, pool, p), spec_element_value(b.take(k), pool, p), p, k, b.len() as int),
    decreases b.len() - p, 0int,
{
    lemma_u1_cut(b, k, p);
    if let Ok((tag, q)) = spec_u1(b, p) {
        lemma_constant_ref_cut(b, k, pool, q);
        lemma_utf8_ref_cut(b, k, pool, q);
        if let Ok((_, r)) = spec_utf8_ref(b, pool, q) {
            lemma_utf8_ref_cut(b, k, pool, r);
        }
        lemma_annotation_cut(b, k, pool, q);
        lemma_u2_cut(b, k, q);
        if let Ok((n, r)) = spec_u2(b, q) {
            lemma_element_values_cut(b, k, pool, r, n as nat);
        }
    }
}

proof fn lemma_element_values_cut(b: Seq<u8>, k: int, pool: Seq<EntryModel>, p: int, n: nat)
    requires
        0 <= k <= b.len(),
    ensures
        cut_ok(spec_element_values(b, pool, p, n), spec_element_values(b.take(k), pool, p, n), p, k, b.len() as int),
    decreases b.len() - p, n + 1,
{
    if n > 0 {
        lemma_element_value_cut(b, k, pool, p);
        if let Ok((_, q)) = spec_element_value(b, pool, p) {
            if p < q <= b.len() {
                lemma_element_values_cut(b, k, pool, q, (n - 1) as nat);
            }
        }
    }
}

proof fn lemma_annotation_cut(b: Seq<u8>, k: int, pool: Seq<EntryModel>, p: int)
    requires
        0 <= k <= b.len(),
    ensures
        cut_ok(spec_annotation(b, pool, p), spec_annotation(b.take(k), pool, p), p, k, b.len() as int),
    decreases b.len() - p, 0int,
{
    lemma_utf8_ref_cut(b, k, pool, p);
    if let Ok((_, q)) = spec_utf8_ref(b, pool, p) {
        lemma_u2_cut(b, k, q);
        if let Ok((n, r)) = spec_u2(b, q) {
            lemma_element_value_pairs_cut(b, k, pool, r, n as nat);
        }
    }
}

proof fn lemma_element_value_pairs_cut(b: Seq<u8>, k: int, pool: Seq<EntryModel>, p: int, n: nat)
    requires
        0 <= k <= b.len(),
    ensures
        cut_ok(spec_element_value_pairs(b, pool, p, n), spec_element_value_pairs(b.take(k), pool, p, n), p, k, b.len() as int),
    decreases b.len() - p, n + 1,
{
    if n > 0 {
        lemma_utf8_ref_cut(b, k, pool, p);
        if let Ok((_, q)) = spec_utf8_ref(b, pool, p) {
            lemma_element_value_cut(b, k, pool, q);
            if let Ok((_, r)) = spec_element_value(b, pool, q) {
                if p < r <= b.len() {
                    lemma_element_value_pairs_cut(b, k, pool, r, (n - 1) as nat);
                }
            }
        }
    }
}

proof fn lemma_annotation_seq_cut(b: Seq<u8>, k: int, pool: Seq<EntryModel>, p: int, n: nat)
    requires
        0 <= k <= b.len(),
    ensures
        cut_ok(spec_annotation_seq(b, pool, p, n), spec_annotation_seq(b.take(k), pool, p, n), p, k, b.len() as int),
    decreases n,
{
    if n > 0 {
        lemma_annotation_cut(b, k, pool, p);
        if let Ok((_, q)) = spec_annotation(b, pool, p) {
            lemma_annotation_seq_cut(b, k, pool, q, (n - 1) as nat);
        }
    }
}

proof fn lemma_annotations_cut(b: Seq<u8>, k: int, pool: Seq<EntryModel>, p: int)
    requires
        0 <= k <= b.len(),
    ensures
        cut_ok(spec_annotations(b, pool, p), spec_annotations(b.take(k), pool, p), p, k, b.len() as int),
{
    lemma_u2_cut(b, k, p);
    if let Ok((n, q)) = spec_u2(b, p) {
        lemma_annotation_seq_cut(b, k, pool, q, n as nat);
    }
}

proof fn lemma_parameter_seq_cut(b: Seq<u8>, k: int, pool: Seq<EntryModel>, p: int, n: nat)
    requires
        0 <= k <= b.len(),
    ensures
        cut_ok(spec_parameter_seq(b, pool, p, n), spec_parameter_seq(b.take(k), pool, p, n), p, k, b.len() as int),
    decreases n,
{
    if n > 0 {
        lemma_annotations_cut(b, k, pool, p);
        if let Ok((_, q)) = spec_annotations(b, pool, p) {
            lemma_parameter_seq_cut(b, k, pool, q, (n - 1) as nat);
        }
    }
}

proof fn lemma_parameter_annotations_cut(b: Seq<u8>, k: int, pool: Seq<EntryModel>, p: int)
    requires
        0 <= k <= b.len(),
    ensures
        cut_ok(spec_parameter_annotations(b, pool, p), spec_parameter_annotations(b.take(k), pool, p), p, k, b.len() as int),
{
    lemma_u1_cut(b, k, p);
    if let Ok((n, q)) = spec_u1(b, p) {
        lemma_parameter_seq_cut(b, k, pool, q, n as nat);
    }
}

proof fn lemma_line_number_seq_cut(b: Seq<u8>, k: int, p: int, n: nat)
    requires
        0 <= k <= b.len(),
    ensures
        cut_ok(spec_line_number_seq(b, p, n), spec_line_number_seq(b.take(k), p, n), p, k, b.len() as int),
    decreases n,
{
    if n > 0 {
        lemma_u2_cut(b, k, p);
        if let Ok((_, q)) = spec_u2(b, p) {
            lemma_u2_cut(b, k, q);
            if let Ok((_, r)) = spec_u2(b, q) {
                lemma_line_number_seq_cut(b, k, r, (n - 1) as nat);
            }
        }
    }
}

proof fn lemma_line_number_table_cut(b: Seq<u8>, k: int, p: int)
    requires
        0 <= k <= b.len(),
    ensures
        cut_ok(spec_line_number_table(b, p), spec_line_number_table(b.take(k), p), p, k, b.len() as int),
{
    lemma_u2_cut(b, k, p);
    if let Ok((n, q)) = spec_u2(b, p) {
        lemma_line_number_seq_cut(b, k, q, n as nat);
    }
}

proof fn lemma_handler_cut(b: Seq<u8>, k: int, pool: Seq<EntryModel>, p: int)
    requires
        0 <= k <= b.len(),
    ensures
        cut_ok(spec_handler(b, pool, p), spec_handler(b.take(k), pool, p), p, k, b.len() as int),
{
    lemma_u2_cut(b, k, p);
    if let Ok((_, q1)) = spec_u2(b, p) {
        lemma_u2_cut(b, k, q1);
        if let Ok((_, q2)) = spec_u2(b, q1) {
            lemma_u2_cut(b, k, q2);
            if let Ok((_, q3)) = spec_u2(b, q2) {
                lemma_u2_cut(b, k, q3);
            }
        }
    }
}

proof fn lemma_handler_seq_cut(b: Seq<u8>, k: int, pool: Seq<EntryModel>, p: int, n: nat)
    requires
        0 <= k <= b.len(),
    ensures
        cut_ok(spec_handler_seq(b, pool, p, n), spec_handler_seq(b.take(k), pool, p, n), p, k, b.len() as int),
    decreases n,
{
    if n > 0 {
        lemma_handler_cut(b, k, pool, p);
        if let Ok((_, q)) = spec_handler(b, pool, p) {
            lemma_handler_seq_cut(b, k, pool, q, (n - 1) as nat);
        }
    }
}

proof fn lemma_exception_table_cut(b: Seq<u8>, k: int, pool: Seq<EntryModel>, p: int)
    requires
        0 <= k <= b.len(),
    ensures
        cut_ok(spec_exception_table(b, pool, p), spec_exception_table(b.take(k), pool, p), p, k, b.len() as int),
{
    lemma_u2_cut(b, k, p);
    if let Ok((n, q)) = spec_u2(b, p) {
        lemma_handler_seq_cut(b, k, pool, q, n as nat);
    }
}

proof fn lemma_class_seq_cut(b: Seq<u8>, k: int, pool: Seq<EntryModel>, p: int, n: nat)
    requires
        0 <= k <= b.len(),
    ensures
        cut_ok(spec_class_seq(b, pool, p, n), spec_class_seq(b.take(k), pool, p, n), p, k, b.len() as int),
    decreases n,
{
    if n > 0 {
        lemma_class_ref_cut(b, k, pool, p);
        if let Ok((_, q)) = spec_class_ref(b, pool, p) {
            lemma_class_seq_cut(b, k, pool, q, (n - 1) as nat);
        }
    }
}

proof fn lemma_class_list_cut(b: Seq<u8>, k: int, pool: Seq<EntryModel>, p: int)
    requires
        0 <= k <= b.len(),
    ensures
        cut_ok(spec_class_list(b, pool, p), spec_class_list(b.take(k), pool, p), p, k, b.len() as int),
{
    lemma_u2_cut(b, k, p);
    if let Ok((n, q)) = spec_u2(b, p) {
        lemma_class_seq_cut(b, k, pool, q, n as nat);
    }
}

proof fn lemma_attribute_cut(b: Seq<u8>, k: int, pool: Seq<EntryModel>, p: int)
    requires
        0 <= k <= b.len(),
    ensures
        cut_ok(spec_attribute(b, pool, p), spec_attribute(b.take(k), pool, p), p, k, b.len() as int),
    decreases b.len() - p, 0int,
{
    lemma_utf8_ref_cut(b, k, pool, p);
    if let Ok((name, q)) = spec_utf8_ref(b, pool, p) {
        lemma_u4_cut(b, k, q);
        if let Ok((declared, body)) = spec_u4(b, q) {
            lemma_attribute_body_cut(b, k, pool, name, declared, body);
        }
    }
}

proof fn lemma_attribute_body_cut(b: Seq<u8>, k: int, pool: Seq<EntryModel>, name: Seq<char>, declared: u32, p: int)
    requires
        0 <= k <= b.len(),
    ensures
        cut_ok(
            spec_attribute_body(b, pool, name, declared, p),
            spec_attribute_body(b.take(k), pool, name, declared, p),
            p,
            k,
            b.len() as int,
        ),
    decreases b.len() - p, 1int,
{
    if name == "ConstantValue"@ {
        lemma_constant_ref_cut(b, k, pool, p);
    } else if name == "Synthetic"@ {
    } else if name == "Signature"@ {
        lemma_utf8_ref_cut(b, k, pool, p);
    } else if name == "Deprecated"@ {
    } else if name == "RuntimeVisibleAnnotations"@ {
        lemma_annotations_cut(b, k, pool, p);
    } else if name == "RuntimeInvisibleAnnotations"@ {
        lemma_annotations_cut(b, k, pool, p);
    } else if name == "Code"@ {
        lemma_code_cut(b, k, pool, p);
    } else if name == "Exceptions"@ {
        lemma_class_list_cut(b, k, pool, p);
    } else if name == "RuntimeVisibleParameterAnnotations"@ {
        lemma_parameter_annotations_cut(b, k, pool, p);
    } else if name == "RuntimeInvisibleParameterAnnotations"@ {
        lemma_parameter_annotations_cut(b, k, pool, p);
    } else if name == "AnnotationDefault"@ {
        lemma_element_value_cut(b, k, pool, p);
    } else if name == "LineNumberTable"@ {
        lemma_line_number_table_cut(b, k, p);
    } else if name == "SourceFile"@ {
        lemma_utf8_ref_cut(b, k, pool, p);
    } else if name == "NestMembers"@ {
        lemma_class_list_cut(b, k, pool, p);
    } else {
        lemma_bytes_cut(b, k, p, declared as int);
    }
}

proof fn lemma_code_cut(b: Seq<u8>, k: int, pool: Seq<EntryModel>, p: int)
    requires
        0 <= k <= b.len(),
    ensures
        cut_ok(spec_code(b, pool, p), spec_code(b.take(k), pool, p), p, k, b.len() as int),
    decreases b.len() - p, 0int,
{
    lemma_u2_cut(b, k, p);
    if let Ok((_, q1)) = spec_u2(b, p) {
        lemma_u2_cut(b, k, q1);
        if let Ok((_, q2)) = spec_u2(b, q1) {
            lemma_u4_cut(b, k, q2);
            if let Ok((code_length, q3)) = spec_u4(b, q2) {
                lemma_bytes_cut(b, k, q3, code_length as int);
                if let Ok((_, q4)) = spec_bytes(b, q3, code_length as int) {
                    lemma_exception_table_cut(b, k, pool, q4);
                    if let Ok((_, q5)) = spec_exception_table(b, pool, q4) {
                        if p < q5 <= b.len() {
                            lemma_attributes_cut(b, k, pool, q5);
                        }
                    }
                }
            }
        }
    }
}

proof fn lemma_attribute_seq_cut(b: Seq<u8>, k: int, pool: Seq<EntryModel>, p: int, n: nat)
    requires
        0 <= k <= b.len(),
    ensures
        cut_ok(spec_attribute_seq(b, pool, p, n), spec_attribute_seq(b.take(k), pool, p, n), p, k, b.len() as int),
    decreases b.len() - p, n + 1,
{
    if n > 0 {
        lemma_attribute_cut(b, k, pool, p);
        if let Ok((_, q)) = spec_attribute(b, pool, p) {
            if p < q <= b.len() {
                lemma_attribute_seq_cut(b, k, pool, q, (n - 1) as nat);
            }
        }
    }
}

proof fn lemma_attributes_cut(b: Seq<u8>, k: int, pool: Seq<EntryModel>, p: int)
    requires
        0 <= k <= b.len(),
    ensures
        cut_ok(spec_attributes(b, pool, p), spec_attributes(b.take(k), pool, p), p, k, b.len() as int),
    decreases b.len() - p, 0int,
{
    lemma_u2_cut(b, k, p);
    if let Ok((n, q)) = spec_u2(b, p) {
        lemma_attribute_seq_cut(b, k, pool, q, n as nat);
    }
}

proof fn lemma_field_cut(b: Seq<u8>, k: int, pool: Seq<EntryModel>, p: int)
    requires
        0 <= k <= b.len(),
    ensures
        cut_ok(spec_field(b, pool, p), spec_field(b.take(k), pool, p), p, k, b.len() as int),
{
    lemma_u2_cut(b, k, p);
    if let Ok((_, q1)) = spec_u2(b, p) {
        lemma_utf8_ref_cut(b, k, pool, q1);
        if let Ok((_, q2)) = spec_utf8_ref(b, pool, q1) {
            lemma_utf8_ref_cut(b, k, pool, q2);
            if let Ok((_, q3)) = spec_utf8_ref(b, pool, q2) {
                lemma_attributes_cut(b, k, pool, q3);
            }
        }
    }
}

proof fn lemma_field_seq_cut(b: Seq<u8>, k: int, pool: Seq<EntryModel>, p: int, n: nat)
    requires
        0 <= k <= b.len(),
    ensures
        cut_ok(spec_field_seq(b, pool, p, n), spec_field_seq(b.take(k), pool, p, n), p, k, b.len() as int),
    decreases n,
{
    if n > 0 {
        lemma_field_cut(b, k, pool, p);
        if let Ok((_, q)) = spec_field(b, pool, p) {
            lemma_field_seq_cut(b, k, pool, q, (n - 1) as nat);
        }
    }
}

proof fn lemma_fields_cut(b: Seq<u8>, k: int, pool: Seq<EntryModel>, p: int)
    requires
        0 <= k <= b.len(),
    ensures
        cut_ok(spec_fields(b, pool, p), spec_fields(b.take(k), pool, p), p, k, b.len() as int),
{
    lemma_u2_cut(b, k, p);
    if let Ok((n, q)) = spec_u2(b, p) {
        lemma_field_seq_cut(b, k, pool, q, n as nat);
    }
}

proof fn lemma_method_cut(b: Seq<u8>, k: int, pool: Seq<EntryModel>, p: int)
    requires
        0 <= k <= b.len(),
    ensures
        cut_ok(spec_method(b, pool, p), spec_method(b.take(k), pool, p), p, k, b.len() as int),
{
    lemma_u2_cut(b, k, p);
    if let Ok((_, q1)) = spec_u2(b, p) {
        lemma_utf8_ref_cut(b, k, pool, q1);
        if let Ok((_, q2)) = spec_utf8_ref(b, pool, q1) {
            lemma_utf8_ref_cut(b, k, pool, q2);
            if let Ok((_, q3)) = spec_utf8_ref(b, pool, q2) {
                lemma_attributes_cut(b, k, pool, q3);
            }
        }
    }
}

proof fn lemma_method_seq_cut(b: Seq<u8>, k: int, pool: Seq<EntryModel>, p: int, n: nat)
    requires
        0 <= k <= b.len(),
    ensures
        cut_ok(spec_method_seq(b, pool, p, n), spec_method_seq(b.take(k), pool, p, n), p, k, b.len() as int),
    decreases n,
{
    if n > 0 {
        lemma_method_cut(b, k, pool, p);
        if let Ok((_, q)) = spec_method(b, pool, p) {
            lemma_method_seq_cut(b, k, pool, q, (n - 1) as nat);
        }
    }
}

proof fn lemma_methods_cut(b: Seq<u8>, k: int, pool: Seq<EntryModel>, p: int)
    requires
        0 <= k <= b.len(),
    ensures
        cut_ok(spec_methods(b, pool, p), spec_methods(b.take(k), pool, p), p, k, b.len() as int),
{
    lemma_u2_cut(b, k, p);
    if let Ok((n, q)) = spec_u2(b, p) {
        lemma_method_seq_cut(b, k, pool, q, n as nat);
    }
}

proof fn lemma_class_body_cut(
    b: Seq<u8>,
    k: int,
    magic: u32,
    minor_version: u16,
    major_version: u16,
    pool: Seq<EntryModel>,
    p: int,
)
    requires
        0 <= k <= b.len(),
        b.len() <= usize::MAX,
        0 <= p <= b.len(),
    ensures
        (spec_class_body(b, magic, minor_version, major_version, pool, p) matches Ok(m) ==> (p <= m.parsed_bytes
            <= b.len() && (p <= k ==> if m.parsed_bytes <= k {
            spec_class_body(b.take(k), magic, minor_version, major_version, pool, p) == Ok::<
                ClassFileModel,
                ErrorModel,
            >(m)
        } else {
            spec_class_body(b.take(k), magic, minor_version, major_version, pool, p) matches Err(
                ErrorModel::UnexpectedEof { .. },
            )
        }))),
{
    lemma_access_flags_cut(b, k, p);
    if let Ok((_, q1)) = spec_access_flags(b, p) {
        lemma_class_ref_cut(b, k, pool, q1);
        if let Ok((_, q2)) = spec_class_ref(b, pool, q1) {
            lemma_class_ref_cut(b, k, pool, q2);
            if let Ok((_, q3)) = spec_class_ref(b, pool, q2) {
                lemma_class_list_cut(b, k, pool, q3);
                if let Ok((_, q4)) = spec_class_list(b, pool, q3) {
                    lemma_fields_cut(b, k, pool, q4);
                    if let Ok((_, q5)) = spec_fields(b, pool, q4) {
                        lemma_methods_cut(b, k, pool, q5);
                        if let Ok((_, q6)) = spec_methods(b, pool, q5) {
                            lemma_attributes_cut(b, k, pool, q6);
                        }
                    }
                }
            }
        }
    }
}

proof fn lemma_class_file_cut(b: Seq<u8>, k: int)
    requires
        0 <= k <= b.len(),
        b.len() <= usize::MAX,
    ensures
        (spec_class_file(b) matches Ok(m) ==> (m.parsed_bytes <= b.len() && if m.parsed_bytes <= k {
            spec_class_file(b.take(k)) == Ok::<ClassFileModel, ErrorModel>(m)
        } else {
            spec_class_file(b.take(k)) matches Err(ErrorModel::UnexpectedEof { .. })
        })),
{
    lemma_u4_cut(b, k, 0);
    if let Ok((_, q1)) = spec_u4(b, 0) {
        lemma_u2_cut(b, k, q1);
        if let Ok((_, q2)) = spec_u2(b, q1) {
            lemma_u2_cut(b, k, q2);
            if let Ok((_, q3)) = spec_u2(b, q2) {
                lemma_constant_pool_cut(b, k, q3);
                if let Ok((pool, q4)) = spec_constant_pool(b, q3) {
                    if let Ok((magic, _)) = spec_u4(b, 0) {
                        if let Ok((minor_version, _)) = spec_u2(b, q1) {
                            if let Ok((major_version, _)) = spec_u2(b, q2) {
                                lemma_class_body_cut(b, k, magic, minor_version, major_version, pool, q4);
                            }
                        }
                    }
                }
            }
        }
    }
}

/// The reported byte count is exactly what decoding consumed: when a classfile decodes, its
/// first `parsed_bytes` bytes form a valid classfile on their own, which decodes to the same
/// value and so reports its whole length.
pub proof fn lemma_consumed_prefix(b: Seq<u8>)
    requires
        b.len() <= usize::MAX,
    ensures
        (spec_class_file(b) matches Ok(m) ==> (m.parsed_bytes <= b.len() && spec_class_file(
            b.take(m.parsed_bytes as int),
        ) == Ok::<ClassFileModel, ErrorModel>(m))),
{
    if let Ok(m) = spec_class_file(b) {
        lemma_class_file_cut(b, b.len() as int);
        lemma_class_file_cut(b, m.parsed_bytes as int);
    }
}

/// Cutting a valid classfile (one whose decoding consumes all of it) short at any offset
/// makes decoding fail with `UnexpectedEof`.
pub proof fn lemma_truncation_fails(b: Seq<u8>, k: int)
    requires
        b.len() <= usize::MAX,
        0 <= k < b.len(),
        spec_class_file(b) matches Ok(m) && m.parsed_bytes == b.len(),
    ensures
        spec_class_file(b.take(k)) matches Err(ErrorModel::UnexpectedEof { .. }),
{
    lemma_class_file_cut(b, k);
}

} // verus!
