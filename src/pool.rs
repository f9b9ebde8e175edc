use vstd::prelude::*;
use crate::cursor::{Parsed, outcome, read_length_and_utf8, read_u1, read_u2, read_u4, read_u8, spec_length_and_utf8, spec_u1, spec_u2, spec_u4, spec_u8};
use crate::types::{Class, ConstantPool, ConstantPoolEntry, EntryKind, EntryModel, ErrorModel, ParsingError, kind_of};

verus! {

/// Two u2 values in a row.
pub open spec fn spec_u2_pair(b: Seq<u8>, p: int) -> Parsed<(u16, u16)> {
    match spec_u2(b, p) {
        Err(e) => Err(e),
        Ok((x, q)) => match spec_u2(b, q) {
            Err(e) => Err(e),
            Ok((y, r)) => Ok(((x, y), r)),
        },
    }
}

/// One tagged constant-pool entry: a u1 tag, then the payload that the tag calls for.
pub open spec fn spec_pool_entry(b: Seq<u8>, p: int) -> Parsed<EntryModel> {
    match spec_u1(b, p) {
        Err(e) => Err(e),
        Ok((tag, q)) => if tag == 1 {
            match spec_length_and_utf8(b, q) {
                Err(e) => Err(e),
                Ok((v, r)) => Ok((EntryModel::Utf8Info { value: v }, r)),
            }
        } else if tag == 3 || tag == 4 {
            match spec_u4(b, q) {
                Err(e) => Err(e),
                Ok((v, r)) => Ok((
                    if tag == 3 {
                        EntryModel::IntegerInfo { value: v }
                    } else {
                        EntryModel::FloatInfo { bits: v }
                    },
                    r,
                )),
            }
        } else if tag == 5 || tag == 6 {
            match spec_u8(b, q) {
                Err(e) => Err(e),
                Ok((v, r)) => Ok((
                    if tag == 5 {
                        EntryModel::LongInfo { value: v }
                    } else {
                        EntryModel::DoubleInfo { bits: v }
                    },
                    r,
                )),
            }
        } else if tag == 7 || tag == 8 || tag == 16 {
            match spec_u2(b, q) {
                Err(e) => Err(e),
                Ok((v, r)) => Ok((
                    if tag == 7 {
                        EntryModel::Class { name_index: v }
                    } else if tag == 8 {
                        EntryModel::StringInfo { string_index: v }
                    } else {
                        EntryModel::MethodTypeInfo { descriptor_index: v }
                    },
                    r,
                )),
            }
        } else if tag == 9 || tag == 10 || tag == 11 || tag == 12 || tag == 18 {
            match spec_u2_pair(b, q) {
                Err(e) => Err(e),
                Ok(((x, y), r)) => Ok((
                    if tag == 9 {
                        EntryModel::Fieldref { class_index: x, name_and_type_index: y }
                    } else if tag == 10 {
                        EntryModel::Methodref { class_index: x, name_and_type_index: y }
                    } else if tag == 11 {
                        EntryModel::InterfaceMethodref { class_index: x, name_and_type_index: y }
                    } else if tag == 12 {
                        EntryModel::NameAndTypeInfo { name_index: x, descriptor_index: y }
                    } else {
                        EntryModel::InvokeDynamicInfo {
                            bootstrap_method_attr_index: x,
                            name_and_type_index: y,
                        }
                    },
                    r,
                )),
            }
        } else if tag == 15 {
            match spec_u1(b, q) {
                Err(e) => Err(e),
                Ok((k, r)) => match spec_u2(b, r) {
                    Err(e) => Err(e),
                    Ok((i, s)) => Ok((EntryModel::MethodHandle { reference_kind: k, reference_index: i }, s)),
                },
            }
        } else {
            Err(ErrorModel::InvalidTag { tag, offset: p as usize })
        },
    }
}

/// A Long or a Double: an entry that takes two slots.
pub open spec fn is_wide(e: EntryModel) -> bool {
    e is LongInfo || e is DoubleInfo
}

/// The first `n` slots of a pool whose entries start at `p`: the slot after a wide entry
/// is a Gap and reads nothing; every other slot reads one entry.
pub open spec fn spec_pool_slots(b: Seq<u8>, p: int, n: nat) -> Parsed<Seq<EntryModel>>
    decreases n,
{
    if n == 0 {
        Ok((Seq::empty(), p))
    } else {
        match spec_pool_slots(b, p, (n - 1) as nat) {
            Err(e) => Err(e),
            Ok((s, q)) => if s.len() > 0 && is_wide(s.last()) {
                Ok((s.push(EntryModel::Empty), q))
            } else {
                match spec_pool_entry(b, q) {
                    Err(e) => Err(e),
                    Ok((e, r)) => Ok((s.push(e), r)),
                }
            },
        }
    }
}

/// Number of slots for a pool count as the header gives it.
pub open spec fn slot_count(count: u16) -> nat {
    if count == 0 {
        0
    } else {
        (count - 1) as nat
    }
}

/// The constant pool: a u2 count, then `count - 1` slots.
pub open spec fn spec_constant_pool(b: Seq<u8>, p: int) -> Parsed<Seq<EntryModel>> {
    match spec_u2(b, p) {
        Err(e) => Err(e),
        Ok((count, q)) => spec_pool_slots(b, q, slot_count(count)),
    }
}

/// The entry at 1-based `idx`, which must exist and not be a Gap.
pub open spec fn spec_slot(pool: Seq<EntryModel>, idx: u16, offset: int, expected: EntryKind) -> Result<
    EntryModel,
    ErrorModel,
> {
    if 1 <= idx <= pool.len() && !(pool[idx - 1] is Empty) {
        Ok(pool[idx - 1])
    } else {
        Err(ErrorModel::DanglingIndex { index: idx, offset: offset as usize, expected })
    }
}

/// The text of the Utf8 entry at `idx`.
pub open spec fn spec_utf8_at(pool: Seq<EntryModel>, idx: u16, offset: int) -> Result<Seq<char>, ErrorModel> {
    match spec_slot(pool, idx, offset, EntryKind::Utf8) {
        Err(e) => Err(e),
        Ok(EntryModel::Utf8Info { value }) => Ok(value),
        Ok(e) => Err(ErrorModel::WrongKind { offset: offset as usize, expected: EntryKind::Utf8, actual: kind_of(e) }),
    }
}

/// The name of the Class entry at `idx`, read from the Utf8 entry that it names.
pub open spec fn spec_class_at(pool: Seq<EntryModel>, idx: u16, offset: int) -> Result<Seq<char>, ErrorModel> {
    match spec_slot(pool, idx, offset, EntryKind::Class) {
        Err(e) => Err(e),
        Ok(EntryModel::Class { name_index }) => spec_utf8_at(pool, name_index, offset),
        Ok(e) => Err(ErrorModel::WrongKind { offset: offset as usize, expected: EntryKind::Class, actual: kind_of(e) }),
    }
}

/// A u2 index at `p` that names a class.
pub open spec fn spec_class_ref(b: Seq<u8>, pool: Seq<EntryModel>, p: int) -> Parsed<Seq<char>> {
    match spec_u2(b, p) {
        Err(e) => Err(e),
        Ok((idx, q)) => match spec_class_at(pool, idx, p) {
            Err(e) => Err(e),
            Ok(name) => Ok((name, q)),
        },
    }
}

/// A u2 index at `p` that names a Utf8 entry.
pub open spec fn spec_utf8_ref(b: Seq<u8>, pool: Seq<EntryModel>, p: int) -> Parsed<Seq<char>> {
    match spec_u2(b, p) {
        Err(e) => Err(e),
        Ok((idx, q)) => match spec_utf8_at(pool, idx, p) {
            Err(e) => Err(e),
            Ok(s) => Ok((s, q)),
        },
    }
}

/// A u2 index at `p` that names any entry but a Gap (a constant value).
pub open spec fn spec_constant_ref(b: Seq<u8>, pool: Seq<EntryModel>, p: int) -> Parsed<EntryModel> {
    match spec_u2(b, p) {
        Err(e) => Err(e),
        Ok((idx, q)) => match spec_slot(pool, idx, p, EntryKind::Constant) {
            Err(e) => Err(e),
            Ok(e) => Ok((e, q)),
        },
    }
}

/// Reads one tagged constant-pool entry.
pub fn read_constant_pool_entry(buffer: &Vec<u8>, index: &mut usize) -> (r: Result<ConstantPoolEntry, ParsingError>)
    ensures
        outcome(r, *final(index), spec_pool_entry(buffer@, *old(index) as int)),
        r is Ok ==> *old(index) < *final(index) <= buffer.len(),
{
    let start = *index;
    let tag = read_u1(buffer, index)?;
    if tag == 1 {
        let value = read_length_and_utf8(buffer, index)?;
        Ok(ConstantPoolEntry::Utf8Info { value })
    } else if tag == 3 {
        Ok(ConstantPoolEntry::IntegerInfo { value: read_u4(buffer, index)? })
    } else if tag == 4 {
        Ok(ConstantPoolEntry::FloatInfo { bits: read_u4(buffer, index)? })
    } else if tag == 5 {
        Ok(ConstantPoolEntry::LongInfo { value: read_u8(buffer, index)? })
    } else if tag == 6 {
        Ok(ConstantPoolEntry::DoubleInfo { bits: read_u8(buffer, index)? })
    } else if tag == 7 {
        Ok(ConstantPoolEntry::Class { name_index: read_u2(buffer, index)? })
    } else if tag == 8 {
        Ok(ConstantPoolEntry::StringInfo { string_index: read_u2(buffer, index)? })
    } else if tag == 16 {
        Ok(ConstantPoolEntry::MethodTypeInfo { descriptor_index: read_u2(buffer, index)? })
    } else if tag == 9 || tag == 10 || tag == 11 || tag == 12 || tag == 18 {
        let x = read_u2(buffer, index)?;
        let y = read_u2(buffer, index)?;
        if tag == 9 {
            Ok(ConstantPoolEntry::Fieldref { class_index: x, name_and_type_index: y })
        } else if tag == 10 {
            Ok(ConstantPoolEntry::Methodref { class_index: x, name_and_type_index: y })
        } else if tag == 11 {
            Ok(ConstantPoolEntry::InterfaceMethodref { class_index: x, name_and_type_index: y })
        } else if tag == 12 {
            Ok(ConstantPoolEntry::NameAndTypeInfo { name_index: x, descriptor_index: y })
        } else {
            Ok(ConstantPoolEntry::InvokeDynamicInfo { bootstrap_method_attr_index: x, name_and_type_index: y })
        }
    } else if tag == 15 {
        let reference_kind = read_u1(buffer, index)?;
        let reference_index = read_u2(buffer, index)?;
        Ok(ConstantPoolEntry::MethodHandle { reference_kind, reference_index })
    } else {
        Err(ParsingError::InvalidTag { tag, offset: start })
    }
}

/// Reads the pool count and the slots it announces, with a Gap after every Long and Double.
pub fn read_constant_pool(buffer: &Vec<u8>, index: &mut usize) -> (r: Result<ConstantPool, ParsingError>)
    ensures
        outcome(r, *final(index), spec_constant_pool(buffer@, *old(index) as int)),
        r is Ok ==> *old(index) < *final(index) <= buffer.len(),
{
    let ghost p0 = *index as int;
    let count = read_u2(buffer, index)?;
    let slots: u16 = if count == 0 { 0 } else { count - 1 };
    let ghost start = *index as int;
    let mut pool: ConstantPool = Vec::new();
    let mut should_put_empty = false;
    let mut i: u16 = 0;
    assert(pool.deep_view() =~= Seq::<EntryModel>::empty());
    while i < slots
        invariant
            i <= slots,
            slots == slot_count(count),
            p0 == *old(index) as int,
            spec_constant_pool(buffer@, p0) == spec_pool_slots(buffer@, start, slots as nat),
            spec_pool_slots(buffer@, start, i as nat) == Ok::<(Seq<EntryModel>, int), ErrorModel>(
                (pool.deep_view(), *index as int),
            ),
            pool@.len() == i,
            p0 < start <= *index <= buffer.len(),
            should_put_empty == (pool@.len() > 0 && is_wide(pool.deep_view().last())),
        decreases slots - i,
    {
        let ghost before = pool.deep_view();
        if should_put_empty {
            pool.push(ConstantPoolEntry::Empty);
            should_put_empty = false;
        } else {
            let entry = match read_constant_pool_entry(buffer, index) {
                Ok(e) => e,
                Err(e) => {
                    proof {
                        assert(spec_pool_slots(buffer@, start, (i + 1) as nat) == Err::<
                            (Seq<EntryModel>, int),
                            ErrorModel,
                        >(e.deep_view()));
                        lemma_pool_slots_error_sticks(buffer@, start, (i + 1) as nat, slots as nat);
                    }
                    return Err(e);
                },
            };
            should_put_empty = match entry {
                ConstantPoolEntry::LongInfo { .. } | ConstantPoolEntry::DoubleInfo { .. } => true,
                _ => false,
            };
            pool.push(entry);
        }
        assert(pool.deep_view() =~= before.push(pool@[i as int].deep_view()));
        i = i + 1;
    }
    Ok(pool)
}

/// Once the first `n` slots fail, every longer run of slots fails with the same error.
pub proof fn lemma_pool_slots_error_sticks(b: Seq<u8>, p: int, n: nat, m: nat)
    requires
        n <= m,
        spec_pool_slots(b, p, n) is Err,
    ensures
        spec_pool_slots(b, p, m) == spec_pool_slots(b, p, n),
    decreases m - n,
{
    if n < m {
        lemma_pool_slots_error_sticks(b, p, n, (m - 1) as nat);
    }
}

/// The entry at 1-based `index`, copied; fails on 0, past the end and on a Gap.
pub fn resolve_entry(constant_pool: &ConstantPool, index: u16, offset: usize, expected: EntryKind) -> (r: Result<
    ConstantPoolEntry,
    ParsingError,
>)
    ensures
        match spec_slot(constant_pool.deep_view(), index, offset as int, expected) {
            Ok(e) => r matches Ok(x) && x.deep_view() == e,
            Err(e) => r matches Err(x) && x.deep_view() == e,
        },
{
    if index == 0 || index as usize > constant_pool.len() {
        return Err(ParsingError::DanglingIndex { index, offset, expected });
    }
    let entry = &constant_pool[index as usize - 1];
    if let ConstantPoolEntry::Empty = entry {
        Err(ParsingError::DanglingIndex { index, offset, expected })
    } else {
        Ok(entry.duplicate())
    }
}

/// The text of the Utf8 entry at 1-based `index`.
pub fn read_utf8_from_constant_pool(constant_pool: &ConstantPool, index: u16, offset: usize) -> (r: Result<
    String,
    ParsingError,
>)
    ensures
        match spec_utf8_at(constant_pool.deep_view(), index, offset as int) {
            Ok(s) => r matches Ok(x) && x@ == s,
            Err(e) => r matches Err(x) && x.deep_view() == e,
        },
{
    if index == 0 || index as usize > constant_pool.len() {
        return Err(ParsingError::DanglingIndex { index, offset, expected: EntryKind::Utf8 });
    }
    let entry = &constant_pool[index as usize - 1];
    match entry {
        ConstantPoolEntry::Utf8Info { value } => Ok(value.clone()),
        ConstantPoolEntry::Empty => Err(ParsingError::DanglingIndex { index, offset, expected: EntryKind::Utf8 }),
        _ => Err(ParsingError::WrongKind { offset, expected: EntryKind::Utf8, actual: entry.kind() }),
    }
}

/// The name of the Class entry at 1-based `index`.
pub fn resolve_class(constant_pool: &ConstantPool, index: u16, offset: usize) -> (r: Result<Class, ParsingError>)
    ensures
        match spec_class_at(constant_pool.deep_view(), index, offset as int) {
            Ok(s) => r matches Ok(x) && x.name@ == s,
            Err(e) => r matches Err(x) && x.deep_view() == e,
        },
{
    if index == 0 || index as usize > constant_pool.len() {
        return Err(ParsingError::DanglingIndex { index, offset, expected: EntryKind::Class });
    }
    let entry = &constant_pool[index as usize - 1];
    match entry {
        ConstantPoolEntry::Class { name_index } => {
            let name = read_utf8_from_constant_pool(constant_pool, *name_index, offset)?;
            Ok(Class { name })
        },
        ConstantPoolEntry::Empty => Err(ParsingError::DanglingIndex { index, offset, expected: EntryKind::Class }),
        _ => Err(ParsingError::WrongKind { offset, expected: EntryKind::Class, actual: entry.kind() }),
    }
}

/// Reads a u2 index and resolves the class it names.
pub fn read_class(buffer: &Vec<u8>, index: &mut usize, constant_pool: &ConstantPool) -> (r: Result<Class, ParsingError>)
    ensures
        outcome(r, *final(index), spec_class_ref(buffer@, constant_pool.deep_view(), *old(index) as int)),
{
    let at = *index;
    let class_index = read_u2(buffer, index)?;
    resolve_class(constant_pool, class_index, at)
}

/// Reads a u2 index and resolves the Utf8 entry it names.
pub fn read_utf8_ref(buffer: &Vec<u8>, index: &mut usize, constant_pool: &ConstantPool) -> (r: Result<String, ParsingError>)
    ensures
        outcome(r, *final(index), spec_utf8_ref(buffer@, constant_pool.deep_view(), *old(index) as int)),
{
    let at = *index;
    let utf8_index = read_u2(buffer, index)?;
    read_utf8_from_constant_pool(constant_pool, utf8_index, at)
}

/// Reads a u2 index and copies the constant it names.
pub fn read_constant_ref(buffer: &Vec<u8>, index: &mut usize, constant_pool: &ConstantPool) -> (r: Result<
    ConstantPoolEntry,
    ParsingError,
>)
    ensures
        outcome(r, *final(index), spec_constant_ref(buffer@, constant_pool.deep_view(), *old(index) as int)),
{
    let at = *index;
    let constant_index = read_u2(buffer, index)?;
    resolve_entry(constant_pool, constant_index, at, EntryKind::Constant)
}

} // verus!

verus! {

/// Gap slots stand exactly after Longs and Doubles: slot `i` is a Gap if and only if
/// slot `i - 1` exists and is a Long or a Double.
pub open spec fn gaps_follow_wide(pool: Seq<EntryModel>) -> bool {
    forall|i: int| 0 <= i < pool.len() ==> ((#[trigger] pool[i] is Empty) <==> (i > 0 && is_wide(pool[i - 1])))
}

proof fn lemma_entry_is_no_gap(b: Seq<u8>, p: int)
    ensures
        (spec_pool_entry(b, p) matches Ok((e, _)) ==> !(e is Empty)),
{
}

proof fn lemma_slots_gaps(b: Seq<u8>, p: int, n: nat)
    ensures
        (spec_pool_slots(b, p, n) matches Ok((pool, _)) ==> gaps_follow_wide(pool) && pool.len() == n),
    decreases n,
{
    if n > 0 {
        lemma_slots_gaps(b, p, (n - 1) as nat);
        if let Ok((s, q)) = spec_pool_slots(b, p, (n - 1) as nat) {
            lemma_entry_is_no_gap(b, q);
            if let Ok((pool, _)) = spec_pool_slots(b, p, n) {
                assert forall|i: int| 0 <= i < pool.len() implies ((#[trigger] pool[i] is Empty) <==> (i > 0
                    && is_wide(pool[i - 1]))) by {
                    if i < s.len() {
                        assert(pool[i] == s[i]);
                        if i > 0 {
                            assert(pool[i - 1] == s[i - 1]);
                        }
                    }
                }
            }
        }
    }
}

/// In every decoded constant pool, each Long and Double is followed by a Gap (unless it
/// fills the last slot), no other entry is followed by a Gap, and the first slot is no Gap.
pub proof fn lemma_pool_gaps(b: Seq<u8>, p: int)
    ensures
        (spec_constant_pool(b, p) matches Ok((pool, _)) ==> gaps_follow_wide(pool)),
{
    if let Ok((count, q)) = spec_u2(b, p) {
        lemma_slots_gaps(b, q, slot_count(count));
    }
}

/// Every reference that resolves reads an existing slot that is no Gap and has the
/// expected kind: a Utf8 entry for text, a Class entry naming a Utf8 entry for a class.
pub proof fn lemma_references_resolve(pool: Seq<EntryModel>, idx: u16, offset: int, expected: EntryKind)
    ensures
        (spec_slot(pool, idx, offset, expected) matches Ok(e) ==> (1 <= idx <= pool.len() && pool[idx - 1] == e
            && !(e is Empty))),
        (spec_utf8_at(pool, idx, offset) matches Ok(s) ==> (1 <= idx <= pool.len() && pool[idx - 1] == (
        EntryModel::Utf8Info { value: s }))),
        (spec_class_at(pool, idx, offset) matches Ok(s) ==> (1 <= idx <= pool.len() && (pool[idx - 1] matches EntryModel::Class { name_index }
            && 1 <= name_index <= pool.len() && pool[name_index - 1] == (EntryModel::Utf8Info { value: s })))),
{
}

} // verus!
