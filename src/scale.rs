//! The rule that scaling applies to normals, and when scaling fails.
use vstd::prelude::*;
use crate::error::Error;
use crate::float::{eq_spec, float_eq, gt_zero_spec, is_zero, is_zero_spec};

verus! {

/// What scaling by `(x, y, z)` does to a normal.
#[derive(Debug, Clone, Copy, PartialEq, Eq, Structural)]
pub enum NormalRule {
    /// Uniform scaling by zero: the normal is left as it is (renormalising a
    /// zero vector would do nothing).
    Keep,
    /// Uniform scaling by a nonzero factor: the direction is kept and the
    /// normal is renormalised.
    Renormalize,
    /// Non-uniform scaling: each normal component is divided by the factor of
    /// its own axis (the inverse transpose of a diagonal matrix), then the
    /// normal is renormalised.
    InverseScale,
}

/// The three factors are IEEE-equal: the scaling is uniform.
pub open spec fn is_uniform(x: u32, y: u32, z: u32) -> bool {
    eq_spec(x, y) && eq_spec(y, z)
}

/// Some factor is a zero of either sign.
pub open spec fn has_zero_factor(x: u32, y: u32, z: u32) -> bool {
    is_zero_spec(x) || is_zero_spec(y) || is_zero_spec(z)
}

/// How scaling by the factors with bits `x`, `y`, `z` treats normals, or
/// `None` where it fails.
pub open spec fn normal_rule_spec(x: u32, y: u32, z: u32) -> Option<NormalRule> {
    if is_uniform(x, y, z) {
        if is_zero_spec(x) {
            Some(NormalRule::Keep)
        } else {
            Some(NormalRule::Renormalize)
        }
    } else if has_zero_factor(x, y, z) {
        None
    } else {
        Some(NormalRule::InverseScale)
    }
}

/// Decides how scaling by `(x, y, z)` treats normals, or that it fails: a
/// non-uniform scaling with a zero factor has no inverse to apply to normals
/// and is a transform error. Uniform scaling by zero is not refused.
pub fn normal_rule(x: u32, y: u32, z: u32) -> (r: Result<NormalRule, Error>)
    ensures
        r is Err <==> normal_rule_spec(x, y, z) is None,
        r is Err <==> !is_uniform(x, y, z) && has_zero_factor(x, y, z),
        r is Err ==> r->Err_0 is TransformError,
        r is Ok ==> normal_rule_spec(x, y, z) == Some(r->Ok_0),
{
    if float_eq(x, y) && float_eq(y, z) {
        if is_zero(x) {
            Ok(NormalRule::Keep)
        } else {
            Ok(NormalRule::Renormalize)
        }
    } else if is_zero(x) || is_zero(y) || is_zero(z) {
        Err(Error::TransformError("Cannot scale by zero in any dimension".to_owned()))
    } else {
        Ok(NormalRule::InverseScale)
    }
}

/// Uniform scaling by a positive factor never fails and renormalises every
/// normal to unit length.
pub proof fn lemma_uniform_positive_scale(s: u32)
    requires
        gt_zero_spec(s),
    ensures
        normal_rule_spec(s, s, s) == Some(NormalRule::Renormalize),
{
    assert(s & 0x7f80_0000u32 == 0x7f80_0000u32 && s & 0x007f_ffffu32 != 0 ==> s > 0x7f80_0000u32)
        by (bit_vector);
    assert(0 < s ==> s & 0x7fff_ffffu32 != 0 || s == 0x8000_0000u32) by (bit_vector);
}

} // verus!
