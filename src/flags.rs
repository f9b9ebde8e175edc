use vstd::prelude::*;
use crate::cursor::{outcome, read_u2, spec_u2, Parsed};
use crate::types::{AccessFlag, FieldFlag, MethodFlag, ParsingError};

verus! {

/// `seq![f]` when `bit` is set in `mask`, else nothing.
pub open spec fn flag_if<F>(mask: u16, bit: u16, f: F) -> Seq<F> {
    if mask & bit != 0 {
        seq![f]
    } else {
        Seq::empty()
    }
}

/// Class-level flags named by `mask`, in ascending bit order.
pub open spec fn access_flags_of(mask: u16) -> Seq<AccessFlag> {
    flag_if(mask, 0x0001, AccessFlag::AccPublic) + flag_if(mask, 0x0010, AccessFlag::AccFinal)
        + flag_if(mask, 0x0020, AccessFlag::AccSuper) + flag_if(mask, 0x0200, AccessFlag::AccInterface)
        + flag_if(mask, 0x0400, AccessFlag::AccAbstract) + flag_if(mask, 0x1000, AccessFlag::AccSynthetic)
        + flag_if(mask, 0x2000, AccessFlag::AccAnnotation) + flag_if(mask, 0x4000, AccessFlag::AccEnum)
}

/// Field flags named by `mask`, in ascending bit order.
pub open spec fn field_flags_of(mask: u16) -> Seq<FieldFlag> {
    flag_if(mask, 0x0001, FieldFlag::AccPublic) + flag_if(mask, 0x0002, FieldFlag::AccPrivate)
        + flag_if(mask, 0x0004, FieldFlag::AccProtected) + flag_if(mask, 0x0008, FieldFlag::AccStatic)
        + flag_if(mask, 0x0010, FieldFlag::AccFinal) + flag_if(mask, 0x0040, FieldFlag::AccVolatile)
        + flag_if(mask, 0x0080, FieldFlag::AccTransient) + flag_if(mask, 0x1000, FieldFlag::AccSynthetic)
        + flag_if(mask, 0x4000, FieldFlag::AccEnum)
}

/// Method flags named by `mask`, in ascending bit order.
pub open spec fn method_flags_of(mask: u16) -> Seq<MethodFlag> {
    flag_if(mask, 0x0001, MethodFlag::AccPublic) + flag_if(mask, 0x0002, MethodFlag::AccPrivate)
        + flag_if(mask, 0x0004, MethodFlag::AccProtected) + flag_if(mask, 0x0008, MethodFlag::AccStatic)
        + flag_if(mask, 0x0010, MethodFlag::AccFinal) + flag_if(mask, 0x0020, MethodFlag::AccSynchronized)
        + flag_if(mask, 0x0040, MethodFlag::AccBridge) + flag_if(mask, 0x0080, MethodFlag::AccVarargs)
        + flag_if(mask, 0x0100, MethodFlag::AccNative) + flag_if(mask, 0x0400, MethodFlag::AccAbstract)
        + flag_if(mask, 0x0800, MethodFlag::AccStrict) + flag_if(mask, 0x1000, MethodFlag::AccSynthetic)
}

/// The bit that stands for a class-level flag.
pub open spec fn access_flag_bit(f: AccessFlag) -> u16 {
    match f {
        AccessFlag::AccPublic => 0x0001,
        AccessFlag::AccFinal => 0x0010,
        AccessFlag::AccSuper => 0x0020,
        AccessFlag::AccInterface => 0x0200,
        AccessFlag::AccAbstract => 0x0400,
        AccessFlag::AccSynthetic => 0x1000,
        AccessFlag::AccAnnotation => 0x2000,
        AccessFlag::AccEnum => 0x4000,
    }
}

fn push_if<F: Copy>(flags: &mut Vec<F>, mask: u16, bit: u16, f: F)
    ensures
        final(flags)@ == old(flags)@ + flag_if(mask, bit, f),
{
    if mask & bit != 0 {
        flags.push(f);
        assert(final(flags)@ =~= old(flags)@ + flag_if(mask, bit, f));
    } else {
        assert(old(flags)@ =~= old(flags)@ + flag_if(mask, bit, f));
    }
}

/// Decodes a class-level access mask; unknown bits are ignored.
pub fn parse_access_flags(mask: u16) -> (r: Vec<AccessFlag>)
    ensures
        r@ == access_flags_of(mask),
{
    let mut flags: Vec<AccessFlag> = Vec::new();
    assert(flags@ =~= Seq::<AccessFlag>::empty());
    assert(flags@ + flag_if(mask, 0x0001, AccessFlag::AccPublic) =~= flag_if(mask, 0x0001, AccessFlag::AccPublic));
    push_if(&mut flags, mask, 0x0001, AccessFlag::AccPublic);
    push_if(&mut flags, mask, 0x0010, AccessFlag::AccFinal);
    push_if(&mut flags, mask, 0x0020, AccessFlag::AccSuper);
    push_if(&mut flags, mask, 0x0200, AccessFlag::AccInterface);
    push_if(&mut flags, mask, 0x0400, AccessFlag::AccAbstract);
    push_if(&mut flags, mask, 0x1000, AccessFlag::AccSynthetic);
    push_if(&mut flags, mask, 0x2000, AccessFlag::AccAnnotation);
    push_if(&mut flags, mask, 0x4000, AccessFlag::AccEnum);
    flags
}

/// Decodes a field access mask; unknown bits are ignored.
pub fn parse_field_flags(mask: u16) -> (r: Vec<FieldFlag>)
    ensures
        r@ == field_flags_of(mask),
{
    let mut flags: Vec<FieldFlag> = Vec::new();
    assert(flags@ + flag_if(mask, 0x0001, FieldFlag::AccPublic) =~= flag_if(mask, 0x0001, FieldFlag::AccPublic));
    push_if(&mut flags, mask, 0x0001, FieldFlag::AccPublic);
    push_if(&mut flags, mask, 0x0002, FieldFlag::AccPrivate);
    push_if(&mut flags, mask, 0x0004, FieldFlag::AccProtected);
    push_if(&mut flags, mask, 0x0008, FieldFlag::AccStatic);
    push_if(&mut flags, mask, 0x0010, FieldFlag::AccFinal);
    push_if(&mut flags, mask, 0x0040, FieldFlag::AccVolatile);
    push_if(&mut flags, mask, 0x0080, FieldFlag::AccTransient);
    push_if(&mut flags, mask, 0x1000, FieldFlag::AccSynthetic);
    push_if(&mut flags, mask, 0x4000, FieldFlag::AccEnum);
    flags
}

/// Decodes a method access mask; unknown bits are ignored.
pub fn parse_method_flags(mask: u16) -> (r: Vec<MethodFlag>)
    ensures
        r@ == method_flags_of(mask),
{
    let mut flags: Vec<MethodFlag> = Vec::new();
    assert(flags@ + flag_if(mask, 0x0001, MethodFlag::AccPublic) =~= flag_if(mask, 0x0001, MethodFlag::AccPublic));
    push_if(&mut flags, mask, 0x0001, MethodFlag::AccPublic);
    push_if(&mut flags, mask, 0x0002, MethodFlag::AccPrivate);
    push_if(&mut flags, mask, 0x0004, MethodFlag::AccProtected);
    push_if(&mut flags, mask, 0x0008, MethodFlag::AccStatic);
    push_if(&mut flags, mask, 0x0010, MethodFlag::AccFinal);
    push_if(&mut flags, mask, 0x0020, MethodFlag::AccSynchronized);
    push_if(&mut flags, mask, 0x0040, MethodFlag::AccBridge);
    push_if(&mut flags, mask, 0x0080, MethodFlag::AccVarargs);
    push_if(&mut flags, mask, 0x0100, MethodFlag::AccNative);
    push_if(&mut flags, mask, 0x0400, MethodFlag::AccAbstract);
    push_if(&mut flags, mask, 0x0800, MethodFlag::AccStrict);
    push_if(&mut flags, mask, 0x1000, MethodFlag::AccSynthetic);
    flags
}

/// The class-level access mask at `p`, decoded.
pub open spec fn spec_access_flags(b: Seq<u8>, p: int) -> Parsed<Seq<AccessFlag>> {
    match spec_u2(b, p) {
        Err(e) => Err(e),
        Ok((mask, q)) => Ok((access_flags_of(mask), q)),
    }
}

/// Reads a u2 class-level access mask and decodes it.
pub fn read_access_flags(buffer: &Vec<u8>, index: &mut usize) -> (r: Result<Vec<AccessFlag>, ParsingError>)
    ensures
        outcome(r, *final(index), spec_access_flags(buffer@, *old(index) as int)),
{
    let access_flags_mask = read_u2(buffer, index)?;
    let flags = parse_access_flags(access_flags_mask);
    assert(flags.deep_view() =~= flags@);
    Ok(flags)
}

} // verus!

verus! {

/// The flags' bits rise strictly from each flag to the next.
pub open spec fn ascending_bits(s: Seq<AccessFlag>) -> bool {
    forall|i: int, j: int| 0 <= i < j < s.len() ==> access_flag_bit(#[trigger] s[i]) < access_flag_bit(#[trigger] s[j])
}

proof fn lemma_extend_ascending(s: Seq<AccessFlag>, mask: u16, f: AccessFlag)
    requires
        ascending_bits(s),
        forall|i: int| 0 <= i < s.len() ==> access_flag_bit(#[trigger] s[i]) < access_flag_bit(f),
    ensures
        ascending_bits(s + flag_if(mask, access_flag_bit(f), f)),
        forall|i: int|
            0 <= i < (s + flag_if(mask, access_flag_bit(f), f)).len() ==> access_flag_bit(
                #[trigger] (s + flag_if(mask, access_flag_bit(f), f))[i],
            ) <= access_flag_bit(f),
        forall|g: AccessFlag|
            (s + flag_if(mask, access_flag_bit(f), f)).contains(g) <==> (s.contains(g) || (g == f && mask
                & access_flag_bit(f) != 0)),
{
    let t = s + flag_if(mask, access_flag_bit(f), f);
    assert forall|g: AccessFlag| t.contains(g) <==> (s.contains(g) || (g == f && mask & access_flag_bit(f) != 0)) by {
        if s.contains(g) {
            let k = choose|k: int| 0 <= k < s.len() && s[k] == g;
            assert(t[k] == g);
        }
        if g == f && mask & access_flag_bit(f) != 0 {
            assert(t[s.len() as int] == g);
        }
        if t.contains(g) {
            let k = choose|k: int| 0 <= k < t.len() && t[k] == g;
            if k < s.len() {
                assert(s[k] == g);
            }
        }
    }
}

/// Class-level flag decoding lists the flags in the ascending order of their bits, and a
/// flag is listed exactly when its bit is set in the mask.
pub proof fn lemma_access_flags_ordered(mask: u16)
    ensures
        ascending_bits(access_flags_of(mask)),
        forall|f: AccessFlag| access_flags_of(mask).contains(f) <==> mask & access_flag_bit(f) != 0,
{
    let s0 = Seq::<AccessFlag>::empty();
    lemma_extend_ascending(s0, mask, AccessFlag::AccPublic);
    let s1 = s0 + flag_if(mask, 0x0001, AccessFlag::AccPublic);
    lemma_extend_ascending(s1, mask, AccessFlag::AccFinal);
    let s2 = s1 + flag_if(mask, 0x0010, AccessFlag::AccFinal);
    lemma_extend_ascending(s2, mask, AccessFlag::AccSuper);
    let s3 = s2 + flag_if(mask, 0x0020, AccessFlag::AccSuper);
    lemma_extend_ascending(s3, mask, AccessFlag::AccInterface);
    let s4 = s3 + flag_if(mask, 0x0200, AccessFlag::AccInterface);
    lemma_extend_ascending(s4, mask, AccessFlag::AccAbstract);
    let s5 = s4 + flag_if(mask, 0x0400, AccessFlag::AccAbstract);
    lemma_extend_ascending(s5, mask, AccessFlag::AccSynthetic);
    let s6 = s5 + flag_if(mask, 0x1000, AccessFlag::AccSynthetic);
    lemma_extend_ascending(s6, mask, AccessFlag::AccAnnotation);
    let s7 = s6 + flag_if(mask, 0x2000, AccessFlag::AccAnnotation);
    lemma_extend_ascending(s7, mask, AccessFlag::AccEnum);
    let s8 = s7 + flag_if(mask, 0x4000, AccessFlag::AccEnum);
    assert(s1 =~= flag_if(mask, 0x0001, AccessFlag::AccPublic));
    assert(s8 == access_flags_of(mask));
    assert forall|f: AccessFlag| s8.contains(f) <==> mask & access_flag_bit(f) != 0 by {
        assert(!s0.contains(f));
    }
}

} // verus!
