//! The library's laws: what holds of the collected point set and of the
//! resolver, stated over the same specifications that the executable
//! functions are proved against.

use vstd::prelude::*;
use crate::finder::{
    lemma_point_lt_asym, point_lt, points_sorted, pos_pair_le, InstPointV,
};
use crate::resolver::{spec_resolve_crate, Pairs};
use crate::ast::CrateV;

verus! {

/// One recorded point's span strictly contains another's, as far as the
/// point records it: same source file, it begins no later and ends on no
/// earlier line, and it is not the same span.
pub open spec fn strictly_contains(a: InstPointV, b: InstPointV) -> bool {
    &&& a.static_data.source_file == b.static_data.source_file
    &&& pos_pair_le(a.ast_pos.1, a.ast_pos.2, b.ast_pos.1, b.ast_pos.2)
    &&& a.static_data.lines_end >= b.static_data.lines_end
    &&& (a.ast_pos.1 != b.ast_pos.1 || a.ast_pos.2 != b.ast_pos.2
        || a.static_data.lines_end > b.static_data.lines_end)
}

/// The depth discipline that the ancestor stack yields on well-nested
/// spans: an enclosing point sits at a strictly smaller depth, or at the
/// same depth with a strictly earlier begin.
pub open spec fn depth_respects_containment(s: Seq<InstPointV>) -> bool {
    forall|k: int, l: int|
        0 <= k < s.len() && 0 <= l < s.len() && strictly_contains(#[trigger] s[k], #[trigger] s[l])
            ==> s[k].ast_pos.0 < s[l].ast_pos.0 || (s[k].ast_pos.0 == s[l].ast_pos.0 && (
        s[k].ast_pos.1 < s[l].ast_pos.1 || (s[k].ast_pos.1 == s[l].ast_pos.1 && s[k].ast_pos.2
            < s[l].ast_pos.2)))
}

/// Ordering law. In a collected set, sorted in the canonical point order
/// and with depths respecting containment, a point whose span strictly
/// contains another's stands strictly before it — and, because rewrites are
/// applied in reverse of the order, is rewritten strictly after it.
pub proof fn lemma_containment_orders_first(s: Seq<InstPointV>, i: int, j: int)
    requires
        points_sorted(s),
        depth_respects_containment(s),
        0 <= i < s.len(),
        0 <= j < s.len(),
        strictly_contains(s[i], s[j]),
    ensures
        i < j,
{
    assert(point_lt(s[i], s[j]));
    if i == j {
        lemma_point_lt_asym(s[i], s[j]);
    }
    if j < i {
        assert(point_lt(s[j], s[i]));
        lemma_point_lt_asym(s[j], s[i]);
    }
}

/// Resolver determinism. The mapping a resolver pass builds is a function
/// of the tree alone, so running the resolver twice on the same tree yields
/// identical maps.
pub proof fn lemma_resolver_deterministic(c: CrateV, m1: Pairs, m2: Pairs)
    requires
        m1 == spec_resolve_crate(c),
        m2 == spec_resolve_crate(c),
    ensures
        m1 == m2,
{
}

} // verus!
