//! Discovery of instrumentation points: the rewrite kinds, the ordered point
//! set, the ancestor stack, and the tree walk that matches nodes against the
//! configuration.

use vstd::prelude::*;
use vstd::string::*;
use crate::ast::{
    Block, BlockV, Crate, Expr, ExprKind, ExprKindV, ExprV, ImplItem, ImplItemKind, ImplItemKindV,
    ImplItemV, Item, ItemKind, ItemKindV, ItemV, ModData, ModV, Span, SpanV, Stmt, StmtKind,
    StmtKindV, StmtV, AstPath, block_view, expr_view, exprs_view, impl_item_view, impl_items_view,
    item_view, items_view, lemma_exprs_view, lemma_impl_items_view, lemma_items_view,
    lemma_stmts_view, mod_view, path_view, stmt_view, stmts_view,
};
use crate::data::{StaticData, StaticDataV};
use crate::resolver::{map_get, map_has, PathMap, Pairs};
use crate::strings::{join_opt, join_tail, spec_split_cc, split_cc, strs_view};

verus! {

/// The closed set of rewrite kinds.
#[derive(Clone, Copy, PartialEq, Eq, Structural, Debug)]
pub enum InstKind {
    InstCallForFunction,
    InstCallForMethod,
    GlobalScope,
    LocalScope,
    ExternCrateItem,
}

/// The printed name of a rewrite kind, as configuration files spell it.
pub open spec fn spec_kind_str(k: InstKind) -> Seq<char> {
    match k {
        InstKind::InstCallForFunction => "InstCallForFunction"@,
        InstKind::InstCallForMethod => "InstCallForMethod"@,
        InstKind::GlobalScope => "GlobalScope"@,
        InstKind::LocalScope => "LocalScope"@,
        InstKind::ExternCrateItem => "ExternCrateItem"@,
    }
}

/// Rank of a kind in the alphabetical order of the printed names; the point
/// order compares kinds by their printed names, and this is that order.
pub open spec fn kind_rank(k: InstKind) -> int {
    match k {
        InstKind::ExternCrateItem => 0,
        InstKind::GlobalScope => 1,
        InstKind::InstCallForFunction => 2,
        InstKind::InstCallForMethod => 3,
        InstKind::LocalScope => 4,
    }
}

impl InstKind {
    /// String representation of the instrumentation kind.
    pub fn get_string_rep(&self) -> (r: String)
        ensures
            r@ == spec_kind_str(*self),
    {
        match self {
            InstKind::InstCallForFunction => "InstCallForFunction".to_owned(),
            InstKind::InstCallForMethod => "InstCallForMethod".to_owned(),
            InstKind::GlobalScope => "GlobalScope".to_owned(),
            InstKind::LocalScope => "LocalScope".to_owned(),
            InstKind::ExternCrateItem => "ExternCrateItem".to_owned(),
        }
    }

    fn rank(&self) -> (r: u8)
        ensures
            r as int == kind_rank(*self),
    {
        match self {
            InstKind::ExternCrateItem => 0,
            InstKind::GlobalScope => 1,
            InstKind::InstCallForFunction => 2,
            InstKind::InstCallForMethod => 3,
            InstKind::LocalScope => 4,
        }
    }
}

/// Source information of one visited node: its kind name, its file, and its
/// begin and end positions.
pub struct PositionInfo {
    pub node_kind: String,
    pub filename: String,
    pub begin_line: u128,
    pub begin_col: u128,
    pub end_line: u128,
    pub end_col: u128,
}

/// Mathematical image of a `PositionInfo`.
#[verifier::ext_equal]
pub struct PositionInfoV {
    pub node_kind: Seq<char>,
    pub filename: Seq<char>,
    pub begin_line: u128,
    pub begin_col: u128,
    pub end_line: u128,
    pub end_col: u128,
}

impl View for PositionInfo {
    type V = PositionInfoV;

    open spec fn view(&self) -> PositionInfoV {
        PositionInfoV {
            node_kind: self.node_kind@,
            filename: self.filename@,
            begin_line: self.begin_line,
            begin_col: self.begin_col,
            end_line: self.end_line,
            end_col: self.end_col,
        }
    }
}

/// A recorded intent to rewrite the node `node_id` with the given kind, at
/// the given stack depth and source position.
#[derive(Debug)]
pub struct InstPoint {
    pub kind: InstKind,
    pub node_id: u64,
    pub absolute_path: String,
    pub ast_pos: (u128, u128, u128),
    pub static_data: StaticData,
}

/// Mathematical image of an `InstPoint`.
#[verifier::ext_equal]
pub struct InstPointV {
    pub kind: InstKind,
    pub node_id: u64,
    pub absolute_path: Seq<char>,
    pub ast_pos: (u128, u128, u128),
    pub static_data: StaticDataV,
}

impl View for InstPoint {
    type V = InstPointV;

    open spec fn view(&self) -> InstPointV {
        InstPointV {
            kind: self.kind,
            node_id: self.node_id,
            absolute_path: self.absolute_path@,
            ast_pos: self.ast_pos,
            static_data: self.static_data@,
        }
    }
}

// ------------------------------------------------------------------
// The total order on points.

/// Strict lexicographic order on character sequences, by code point; for
/// strings this coincides with the byte order of their encodings.
pub open spec fn lex_lt(a: Seq<char>, b: Seq<char>) -> bool
    decreases a.len(),
{
    if b.len() == 0 {
        false
    } else if a.len() == 0 {
        true
    } else if (a[0] as int) < (b[0] as int) {
        true
    } else if (b[0] as int) < (a[0] as int) {
        false
    } else {
        lex_lt(a.drop_first(), b.drop_first())
    }
}

pub proof fn lemma_lex_trichotomy(a: Seq<char>, b: Seq<char>)
    ensures
        lex_lt(a, b) || lex_lt(b, a) || a == b,
    decreases a.len(),
{
    if a.len() > 0 && b.len() > 0 && !lex_lt(a, b) && !lex_lt(b, a) {
        assert(!((a[0] as int) < (b[0] as int)));
        assert(!((b[0] as int) < (a[0] as int)));
        assert(a[0] == b[0]);
        assert(!lex_lt(a.drop_first(), b.drop_first()));
        assert(!lex_lt(b.drop_first(), a.drop_first()));
        lemma_lex_trichotomy(a.drop_first(), b.drop_first());
        assert forall|i: int| 0 <= i < a.len() implies a[i] == b[i] by {
            if i > 0 {
                assert(a[i] == a.drop_first()[i - 1]);
                assert(b[i] == b.drop_first()[i - 1]);
            }
        }
        assert(a =~= b);
    }
}

/// The lexicographic order is asymmetric and distinguishes its arguments.
pub proof fn lemma_lex_asym(a: Seq<char>, b: Seq<char>)
    requires
        lex_lt(a, b),
    ensures
        !lex_lt(b, a),
    decreases a.len(),
{
    if a.len() > 0 && b.len() > 0 && a[0] == b[0] {
        lemma_lex_asym(a.drop_first(), b.drop_first());
    }
}

/// The point order is asymmetric, and separated points never share a key.
pub proof fn lemma_point_lt_asym(a: InstPointV, b: InstPointV)
    requires
        point_lt(a, b),
    ensures
        !point_lt(b, a),
        !point_key_eq(a, b),
        !point_key_eq(b, a),
{
    if a.ast_pos == b.ast_pos && a.absolute_path != b.absolute_path {
        lemma_lex_asym(a.absolute_path, b.absolute_path);
        lemma_lex_irrefl(a.absolute_path, b.absolute_path);
    }
}

/// Strict order on the triple `(depth, begin line, begin column)`.
pub open spec fn pos_triple_lt(a: (u128, u128, u128), b: (u128, u128, u128)) -> bool {
    a.0 < b.0 || (a.0 == b.0 && (a.1 < b.1 || (a.1 == b.1 && a.2 < b.2)))
}

/// The canonical strict order on points: position triple, then absolute
/// path, then the printed kind name, then end line.
pub open spec fn point_lt(a: InstPointV, b: InstPointV) -> bool {
    if a.ast_pos != b.ast_pos {
        pos_triple_lt(a.ast_pos, b.ast_pos)
    } else if a.absolute_path != b.absolute_path {
        lex_lt(a.absolute_path, b.absolute_path)
    } else if a.kind != b.kind {
        kind_rank(a.kind) < kind_rank(b.kind)
    } else {
        a.static_data.lines_end < b.static_data.lines_end
    }
}

/// Two points that the order cannot separate: equal on every key component.
pub open spec fn point_key_eq(a: InstPointV, b: InstPointV) -> bool {
    a.ast_pos == b.ast_pos && a.absolute_path == b.absolute_path && a.kind == b.kind
        && a.static_data.lines_end == b.static_data.lines_end
}

pub proof fn lemma_point_trichotomy(a: InstPointV, b: InstPointV)
    ensures
        point_lt(a, b) || point_lt(b, a) || point_key_eq(a, b),
{
    if a.absolute_path != b.absolute_path {
        lemma_lex_trichotomy(a.absolute_path, b.absolute_path);
    }
}

/// Strictly ascending in the point order; in particular, no two elements
/// share a key.
pub open spec fn points_sorted(s: Seq<InstPointV>) -> bool {
    forall|i: int, j: int| 0 <= i < j < s.len() ==> point_lt(#[trigger] s[i], #[trigger] s[j])
}

/// Insertion into the ordered, deduplicating set: a point whose key is
/// already present is discarded, the first write wins.
pub open spec fn spec_insert_point(s: Seq<InstPointV>, p: InstPointV) -> Seq<InstPointV>
    decreases s.len(),
{
    if s.len() == 0 {
        seq![p]
    } else if point_lt(p, s[0]) {
        seq![p] + s
    } else if point_key_eq(p, s[0]) {
        s
    } else {
        seq![s[0]] + spec_insert_point(s.drop_first(), p)
    }
}

proof fn lemma_insert_point_prefix(s: Seq<InstPointV>, p: InstPointV, i: int)
    requires
        0 <= i <= s.len(),
        forall|j: int| 0 <= j < i ==> point_lt(#[trigger] s[j], p),
    ensures
        spec_insert_point(s, p) == s.subrange(0, i) + spec_insert_point(s.skip(i), p),
    decreases i,
{
    if i == 0 {
        assert(s.skip(0) =~= s);
        assert(s.subrange(0, 0) + spec_insert_point(s, p) =~= spec_insert_point(s, p));
    } else {
        assert(point_lt(s[0], p));
        lemma_point_lt_asym(s[0], p);
        assert(spec_insert_point(s, p) == seq![s[0]] + spec_insert_point(s.drop_first(), p));
        assert(forall|j: int|
            0 <= j < i - 1 ==> point_lt(#[trigger] s.drop_first()[j], p)) by {
            assert(forall|j: int| 0 <= j < i - 1 ==> s.drop_first()[j] == s[j + 1]);
        }
        lemma_insert_point_prefix(s.drop_first(), p, i - 1);
        assert(s.drop_first().skip(i - 1) =~= s.skip(i));
        assert(seq![s[0]] + (s.drop_first().subrange(0, i - 1) + spec_insert_point(
            s.skip(i),
            p,
        )) =~= s.subrange(0, i) + spec_insert_point(s.skip(i), p));
    }
}

/// The ordered set of collected points.
pub struct PointSet {
    pub points: Vec<InstPoint>,
}

/// The view of a vector of points.
pub open spec fn points_view(v: Seq<InstPoint>) -> Seq<InstPointV> {
    Seq::new(v.len(), |i: int| v[i]@)
}

impl View for PointSet {
    type V = Seq<InstPointV>;

    open spec fn view(&self) -> Seq<InstPointV> {
        points_view(self.points@)
    }
}

fn str_lex_lt(a: &str, b: &str) -> (r: bool)
    ensures
        r == lex_lt(a@, b@),
{
    let na = a.unicode_len();
    let nb = b.unicode_len();
    proof {
        assert(a@.skip(0) =~= a@);
        assert(b@.skip(0) =~= b@);
    }
    let mut i: usize = 0;
    while i < na && i < nb
        invariant
            na == a@.len(),
            nb == b@.len(),
            0 <= i <= na,
            0 <= i <= nb,
            lex_lt(a@, b@) == lex_lt(a@.skip(i as int), b@.skip(i as int)),
            forall|j: int| 0 <= j < i ==> a@[j] == b@[j],
        decreases na - i,
    {
        let ca = a.get_char(i);
        let cb = b.get_char(i);
        proof {
            assert(a@.skip(i as int)[0] == a@[i as int]);
            assert(b@.skip(i as int)[0] == b@[i as int]);
            assert(a@.skip(i as int).drop_first() =~= a@.skip(i as int + 1));
            assert(b@.skip(i as int).drop_first() =~= b@.skip(i as int + 1));
        }
        if (ca as u32) < (cb as u32) {
            return true;
        }
        if (cb as u32) < (ca as u32) {
            return false;
        }
        i = i + 1;
    }
    proof {
        if i < nb {
            assert(b@.skip(i as int).len() > 0);
        }
    }
    na < nb
}

fn point_lt_exec(a: &InstPoint, b: &InstPoint) -> (r: bool)
    ensures
        r == point_lt(a@, b@),
{
    if a.ast_pos.0 != b.ast_pos.0 {
        return a.ast_pos.0 < b.ast_pos.0;
    }
    if a.ast_pos.1 != b.ast_pos.1 {
        return a.ast_pos.1 < b.ast_pos.1;
    }
    if a.ast_pos.2 != b.ast_pos.2 {
        return a.ast_pos.2 < b.ast_pos.2;
    }
    if !a.absolute_path.eq(&b.absolute_path) {
        return str_lex_lt(a.absolute_path.as_str(), b.absolute_path.as_str());
    }
    let ra = a.kind.rank();
    let rb = b.kind.rank();
    if ra != rb {
        proof {
            assert(a@.kind != b@.kind);
        }
        return ra < rb;
    }
    proof {
        assert(a@.kind == b@.kind);
    }
    a.static_data.lines_end < b.static_data.lines_end
}

fn point_key_eq_exec(a: &InstPoint, b: &InstPoint) -> (r: bool)
    ensures
        r == point_key_eq(a@, b@),
{
    let ra = a.kind.rank();
    let rb = b.kind.rank();
    proof {
        assert(ra == rb ==> a@.kind == b@.kind);
    }
    a.ast_pos.0 == b.ast_pos.0 && a.ast_pos.1 == b.ast_pos.1 && a.ast_pos.2 == b.ast_pos.2
        && a.absolute_path.eq(&b.absolute_path) && ra == rb && a.static_data.lines_end
        == b.static_data.lines_end
}

impl PointSet {
    pub fn new() -> (r: PointSet)
        ensures
            r@ == Seq::<InstPointV>::empty(),
    {
        let r = PointSet { points: Vec::new() };
        proof {
            assert(r@ =~= Seq::<InstPointV>::empty());
        }
        r
    }

    pub fn len(&self) -> (r: usize)
        ensures
            r == self@.len(),
    {
        self.points.len()
    }

    /// Inserts the point at its place in the order; a point with an already
    /// present key is discarded.
    pub fn insert(&mut self, p: InstPoint)
        ensures
            final(self)@ == spec_insert_point(old(self)@, p@),
    {
        let n = self.points.len();
        let mut i: usize = 0;
        while i < n && point_lt_exec(&self.points[i], &p)
            invariant
                n == self.points@.len(),
                0 <= i <= n,
                self == old(self),
                forall|j: int| 0 <= j < i ==> point_lt(#[trigger] self@[j], p@),
            decreases n - i,
        {
            i = i + 1;
        }
        proof {
            lemma_insert_point_prefix(self@, p@, i as int);
        }
        if i < n {
            let dup = point_key_eq_exec(&p, &self.points[i]);
            proof {
                assert(self@.skip(i as int)[0] == self@[i as int]);
            }
            if dup {
                proof {
                    assert(spec_insert_point(self@.skip(i as int), p@) == self@.skip(i as int));
                    assert(self@.subrange(0, i as int) + self@.skip(i as int) =~= self@);
                }
                return ;
            }
            proof {
                lemma_point_trichotomy(p@, self@[i as int]);
                assert(point_lt(p@, self@[i as int]));
                assert(spec_insert_point(self@.skip(i as int), p@) == seq![p@] + self@.skip(
                    i as int,
                ));
            }
            self.points.insert(i, p);
            proof {
                assert(self@ =~= old(self)@.subrange(0, i as int) + (seq![p@] + old(
                    self,
                )@.skip(i as int)));
            }
        } else {
            proof {
                assert(self@.skip(i as int) =~= Seq::<InstPointV>::empty());
                assert(spec_insert_point(self@.skip(i as int), p@) =~= seq![p@]);
            }
            self.points.push(p);
            proof {
                assert(self@ =~= old(self)@.subrange(0, n as int) + seq![p@]);
            }
        }
    }
}

/// Insertion keeps the set strictly sorted in the point order.
pub proof fn lemma_insert_point_sorted(s: Seq<InstPointV>, p: InstPointV)
    requires
        points_sorted(s),
    ensures
        points_sorted(spec_insert_point(s, p)),
    decreases s.len(),
{
    if s.len() == 0 {
    } else if point_lt(p, s[0]) {
        let r = seq![p] + s;
        assert forall|i: int, j: int| 0 <= i < j < r.len() implies point_lt(r[i], r[j]) by {
            if i == 0 {
                if j > 1 {
                    assert(point_lt(s[0], s[j - 1]));
                    lemma_point_lt_trans(p, s[0], s[j - 1]);
                }
            } else {
                assert(r[i] == s[i - 1] && r[j] == s[j - 1]);
            }
        }
    } else if point_key_eq(p, s[0]) {
    } else {
        lemma_point_trichotomy(p, s[0]);
        assert(point_lt(s[0], p));
        assert(forall|i: int, j: int|
            0 <= i < j < s.drop_first().len() ==> point_lt(
                #[trigger] s.drop_first()[i],
                #[trigger] s.drop_first()[j],
            )) by {
            assert(forall|i: int| 0 <= i < s.drop_first().len() ==> s.drop_first()[i] == s[i + 1]);
        }
        lemma_insert_point_sorted(s.drop_first(), p);
        let rest = spec_insert_point(s.drop_first(), p);
        let r = seq![s[0]] + rest;
        lemma_insert_point_members(s.drop_first(), p);
        assert forall|i: int, j: int| 0 <= i < j < r.len() implies point_lt(r[i], r[j]) by {
            if i == 0 {
                assert(rest.contains(rest[j - 1]));
                if rest[j - 1] == p {
                    assert(point_lt(s[0], p));
                } else {
                    assert(s.drop_first().contains(rest[j - 1]));
                    let k = choose|k: int|
                        0 <= k < s.drop_first().len() && s.drop_first()[k] == rest[j - 1];
                    assert(s[0 + 1 + k] == rest[j - 1]);
                    assert(point_lt(s[0], s[1 + k]));
                }
            } else {
                assert(r[i] == rest[i - 1] && r[j] == rest[j - 1]);
            }
        }
    }
}

/// Every member of the set after an insertion is the new point or an old
/// member.
pub proof fn lemma_insert_point_members(s: Seq<InstPointV>, p: InstPointV)
    ensures
        forall|x: InstPointV|
            #[trigger] spec_insert_point(s, p).contains(x) ==> x == p || s.contains(x),
    decreases s.len(),
{
    let r = spec_insert_point(s, p);
    if s.len() == 0 {
        assert(r[0] == p);
    } else if point_lt(p, s[0]) {
        assert(r[0] == p);
        assert forall|x: InstPointV| #[trigger] r.contains(x) implies x == p || s.contains(x) by {
            let k = choose|k: int| 0 <= k < r.len() && r[k] == x;
            if k > 0 {
                assert(s[k - 1] == x);
            }
        }
    } else if point_key_eq(p, s[0]) {
        assert(s.contains(s[0]));
    } else {
        lemma_insert_point_members(s.drop_first(), p);
        let rest = spec_insert_point(s.drop_first(), p);
        assert forall|x: InstPointV| #[trigger] r.contains(x) implies x == p || s.contains(x) by {
            let k = choose|k: int| 0 <= k < r.len() && r[k] == x;
            if k == 0 {
                assert(s.contains(s[0]));
            } else {
                assert(rest[k - 1] == x);
                assert(rest.contains(x));
                if x != p {
                    assert(s.drop_first().contains(x));
                    let k2 = choose|k2: int|
                        0 <= k2 < s.drop_first().len() && s.drop_first()[k2] == x;
                    assert(s[1 + k2] == x);
                    assert(s.contains(x));
                }
            }
        }
    }
}

pub proof fn lemma_point_lt_trans(a: InstPointV, b: InstPointV, c: InstPointV)
    requires
        point_lt(a, b),
        point_lt(b, c),
    ensures
        point_lt(a, c),
{
    if a.ast_pos == b.ast_pos && b.ast_pos == c.ast_pos {
        if a.absolute_path == b.absolute_path && b.absolute_path == c.absolute_path {
        } else if a.absolute_path != b.absolute_path && b.absolute_path != c.absolute_path {
            lemma_lex_lt_trans(a.absolute_path, b.absolute_path, c.absolute_path);
            lemma_lex_irrefl(a.absolute_path, c.absolute_path);
        } else {
        }
    }
}

pub proof fn lemma_lex_lt_trans(a: Seq<char>, b: Seq<char>, c: Seq<char>)
    requires
        lex_lt(a, b),
        lex_lt(b, c),
    ensures
        lex_lt(a, c),
    decreases a.len() + b.len() + c.len(),
{
    if a.len() > 0 && b.len() > 0 && c.len() > 0 {
        if (a[0] as int) == (b[0] as int) && (b[0] as int) == (c[0] as int) {
            lemma_lex_lt_trans(a.drop_first(), b.drop_first(), c.drop_first());
        }
    }
}

pub proof fn lemma_lex_irrefl(a: Seq<char>, b: Seq<char>)
    requires
        lex_lt(a, b),
    ensures
        a != b,
    decreases a.len(),
{
    if a.len() > 0 && b.len() > 0 && a[0] == b[0] {
        lemma_lex_irrefl(a.drop_first(), b.drop_first());
        if a == b {
            assert(a.drop_first() =~= b.drop_first());
        }
    }
}


// ------------------------------------------------------------------
// The ancestor stack and the matching rules.

/// Lexicographic order on a (line, column) pair.
pub open spec fn pos_pair_le(l1: u128, c1: u128, l2: u128, c2: u128) -> bool {
    l1 < l2 || (l1 == l2 && c1 <= c2)
}

/// Whether the stacked position `x` still contains the incoming span:
/// same file, begins no later, ends no earlier.
pub open spec fn pos_contains(x: PositionInfoV, inc: PositionInfoV) -> bool {
    x.filename == inc.filename && pos_pair_le(x.begin_line, x.begin_col, inc.begin_line,
        inc.begin_col) && pos_pair_le(inc.end_line, inc.end_col, x.end_line, x.end_col)
}

/// Length of the longest prefix of the stack whose top still contains the
/// incoming span; entries above it are discarded.
pub open spec fn trunc_idx(s: Seq<PositionInfoV>, inc: PositionInfoV) -> int
    decreases s.len(),
{
    if s.len() == 0 {
        0
    } else if pos_contains(s.last(), inc) {
        s.len() as int
    } else {
        trunc_idx(s.drop_last(), inc)
    }
}

/// The stack after one visit step: truncate to the containing prefix, then
/// push the incoming position.
pub open spec fn spec_set_stack(s: Seq<PositionInfoV>, inc: PositionInfoV) -> Seq<PositionInfoV> {
    s.subrange(0, trunc_idx(s, inc)).push(inc)
}

/// The position record for a node of the given kind name and span.
pub open spec fn pos_of_span(node_kind: Seq<char>, sp: SpanV) -> PositionInfoV {
    PositionInfoV {
        node_kind,
        filename: sp.file,
        begin_line: sp.begin_line,
        begin_col: sp.begin_col,
        end_line: sp.end_line,
        end_col: sp.end_col,
    }
}

/// The kind strings that the configuration pairs associate with this
/// canonical name, in configuration order.
pub open spec fn spec_kinds_for(c2m: Pairs, abs: Seq<char>) -> Seq<Seq<char>>
    decreases c2m.len(),
{
    if c2m.len() == 0 {
        Seq::empty()
    } else if c2m[0].0 == abs {
        seq![c2m[0].1] + spec_kinds_for(c2m.drop_first(), abs)
    } else {
        spec_kinds_for(c2m.drop_first(), abs)
    }
}

/// A path as it prints: segments joined by the separator.
pub open spec fn spec_path_str(segs: Seq<Seq<char>>) -> Seq<char> {
    if segs.len() == 0 {
        Seq::empty()
    } else {
        join_tail(segs[0], segs.drop_first())
    }
}

/// Canonicalisation of a matched name: method names are used verbatim; any
/// other name has its first segment resolved through the mapping when the
/// mapping binds it, and is otherwise rebuilt unchanged.
pub open spec fn spec_determine_abs_path(m: Pairs, path: Seq<char>, kind: InstKind) -> Seq<char> {
    if kind == InstKind::InstCallForMethod {
        path
    } else {
        let segs = spec_split_cc(path);
        if map_has(m, segs[0]) {
            join_tail(map_get(m, segs[0]), segs.drop_first())
        } else {
            join_opt(Seq::empty(), segs)
        }
    }
}

/// The site record the finder attaches to a point; the description is left
/// empty for the rewriter to fill in.
pub open spec fn spec_static_data(abs: Seq<char>, depth: u128, pos: PositionInfoV) -> StaticDataV {
    StaticDataV {
        absolute_path: abs,
        description: Seq::empty(),
        ast_depth: depth,
        source_file: pos.filename,
        lines_begin: pos.begin_line,
        lines_end: pos.end_line,
    }
}

pub open spec fn spec_mk_point(
    kind: InstKind,
    node_id: u64,
    abs: Seq<char>,
    depth: u128,
    pos: PositionInfoV,
) -> InstPointV {
    InstPointV {
        kind,
        node_id,
        absolute_path: abs,
        ast_pos: (depth, pos.begin_line, pos.begin_col),
        static_data: spec_static_data(abs, depth, pos),
    }
}

/// The full matching rule for one candidate node: canonicalise the name,
/// collect the configured kinds, and emit. A configuration that asks only
/// for `LocalScope` on a call or method call anchors the thread-local
/// rewrite at that call; otherwise a point is emitted exactly when the
/// candidate kind itself is configured.
pub open spec fn spec_add_point(
    m: Pairs,
    c2m: Pairs,
    points: Seq<InstPointV>,
    depth: u128,
    path: Seq<char>,
    kind: InstKind,
    node_id: u64,
    pos: PositionInfoV,
) -> Seq<InstPointV> {
    let abs = spec_determine_abs_path(m, path, kind);
    let kinds = spec_kinds_for(c2m, abs);
    if kinds.len() == 0 {
        points
    } else if kinds.len() == 1 && kinds[0] == "LocalScope"@ && (kind
        == InstKind::InstCallForFunction || kind == InstKind::InstCallForMethod) {
        spec_insert_point(points, spec_mk_point(InstKind::LocalScope, node_id, abs, depth, pos))
    } else if kinds.contains(spec_kind_str(kind)) {
        spec_insert_point(points, spec_mk_point(kind, node_id, abs, depth, pos))
    } else {
        points
    }
}

// ------------------------------------------------------------------
// The walk, as a function from tree to finder state.

/// The finder's mutable state during the walk: the ancestor stack and the
/// ordered point set.
#[verifier::ext_equal]
pub struct FindState {
    pub stack: Seq<PositionInfoV>,
    pub points: Seq<InstPointV>,
}

/// Push the position for one visited node.
pub open spec fn fs_push(st: FindState, pos: PositionInfoV) -> FindState {
    FindState { stack: spec_set_stack(st.stack, pos), points: st.points }
}

/// Record a candidate, the depth being the stack size at this moment.
pub open spec fn fs_add(
    m: Pairs,
    c2m: Pairs,
    st: FindState,
    path: Seq<char>,
    kind: InstKind,
    node_id: u64,
    pos: PositionInfoV,
) -> FindState {
    FindState {
        stack: st.stack,
        points: spec_add_point(
            m,
            c2m,
            st.points,
            st.stack.len() as u128,
            path,
            kind,
            node_id,
            pos,
        ),
    }
}

pub open spec fn sv_expr(m: Pairs, c2m: Pairs, st: FindState, e: ExprV, in_mac: bool) -> FindState
    decreases e, 1int,
{
    let pos = pos_of_span("expression"@, e.span);
    let st1 = fs_push(st, pos);
    match e.kind {
        ExprKindV::Call(callee, args) => {
            let st2 = match callee.kind {
                ExprKindV::Path(segs) => if !in_mac {
                    fs_add(m, c2m, st1, spec_path_str(segs), InstKind::InstCallForFunction, e.id,
                        pos)
                } else {
                    st1
                },
                _ => st1,
            };
            sv_exprs(m, c2m, sv_expr(m, c2m, st2, *callee, in_mac), args, in_mac)
        },
        ExprKindV::MethodCall(name, recv, args) => {
            let st2 = if !in_mac {
                fs_add(m, c2m, st1, name, InstKind::InstCallForMethod, e.id, pos)
            } else {
                st1
            };
            sv_exprs(m, c2m, sv_expr(m, c2m, st2, *recv, in_mac), args, in_mac)
        },
        ExprKindV::Closure(body) => {
            let st2 = fs_push(st1, pos_of_span("function"@, e.span));
            sv_expr(m, c2m, st2, *body, in_mac)
        },
        ExprKindV::Block(b) => sv_block(m, c2m, st1, b, in_mac),
        ExprKindV::MacCall(args) => {
            let st2 = fs_push(st1, pos_of_span("macro"@, e.span));
            sv_exprs(m, c2m, st2, args, true)
        },
        ExprKindV::Binary(a, b) => sv_expr(m, c2m, sv_expr(m, c2m, st1, *a, in_mac), *b, in_mac),
        ExprKindV::Unary(a) => sv_expr(m, c2m, st1, *a, in_mac),
        ExprKindV::AddrOf(a) => sv_expr(m, c2m, st1, *a, in_mac),
        ExprKindV::Ret(oe) => match oe {
            Option::Some(a) => sv_expr(m, c2m, st1, *a, in_mac),
            Option::None => st1,
        },
        ExprKindV::Try(a) => sv_expr(m, c2m, st1, *a, in_mac),
        _ => st1,
    }
}

pub open spec fn sv_exprs(m: Pairs, c2m: Pairs, st: FindState, es: Seq<ExprV>, in_mac: bool) -> FindState
    decreases es, 0int,
{
    if es.len() == 0 {
        st
    } else {
        sv_exprs(m, c2m, sv_expr(m, c2m, st, es[0], in_mac), es.drop_first(), in_mac)
    }
}

pub open spec fn sv_block(m: Pairs, c2m: Pairs, st: FindState, b: BlockV, in_mac: bool) -> FindState
    decreases b, 1int,
{
    let st1 = fs_push(st, pos_of_span("block"@, b.span));
    sv_stmts(m, c2m, st1, b.stmts, in_mac)
}

pub open spec fn sv_stmts(m: Pairs, c2m: Pairs, st: FindState, ss: Seq<StmtV>, in_mac: bool) -> FindState
    decreases ss, 0int,
{
    if ss.len() == 0 {
        st
    } else {
        sv_stmts(m, c2m, sv_stmt(m, c2m, st, ss[0], in_mac), ss.drop_first(), in_mac)
    }
}

pub open spec fn sv_stmt(m: Pairs, c2m: Pairs, st: FindState, s: StmtV, in_mac: bool) -> FindState
    decreases s, 1int,
{
    let st1 = fs_push(st, pos_of_span("statement"@, s.span));
    match s.kind {
        StmtKindV::Local(_, oe) => {
            let st2 = fs_push(st1, pos_of_span("local"@, s.span));
            match oe {
                Option::Some(e) => sv_expr(m, c2m, st2, e, in_mac),
                Option::None => st2,
            }
        },
        StmtKindV::Semi(e) => sv_expr(m, c2m, st1, e, in_mac),
        StmtKindV::Tail(e) => sv_expr(m, c2m, st1, e, in_mac),
    }
}

pub open spec fn sv_impl_item(m: Pairs, c2m: Pairs, st: FindState, ii: ImplItemV) -> FindState
    decreases ii,
{
    let st1 = fs_push(st, pos_of_span("impl_item"@, ii.span));
    match ii.kind {
        ImplItemKindV::Method(b) => {
            let st2 = fs_push(st1, pos_of_span("function"@, ii.span));
            sv_block(m, c2m, st2, b, false)
        },
        ImplItemKindV::Other => st1,
    }
}

pub open spec fn sv_impl_items(m: Pairs, c2m: Pairs, st: FindState, iis: Seq<ImplItemV>) -> FindState
    decreases iis, 0int,
{
    if iis.len() == 0 {
        st
    } else {
        sv_impl_items(m, c2m, sv_impl_item(m, c2m, st, iis[0]), iis.drop_first())
    }
}

pub open spec fn sv_item(m: Pairs, c2m: Pairs, st: FindState, it: ItemV) -> FindState
    decreases it, 1int,
{
    let pos = pos_of_span("item"@, it.span);
    let st1 = fs_push(st, pos);
    let st2 = fs_add(m, c2m, st1, it.ident, InstKind::GlobalScope, it.id, pos);
    match it.kind {
        ItemKindV::Fn(b) => {
            let st3 = fs_push(st2, pos_of_span("function"@, it.span));
            sv_block(m, c2m, st3, b, false)
        },
        ItemKindV::Impl(iis) => sv_impl_items(m, c2m, st2, iis),
        ItemKindV::ModItem(sub) => sv_mod(m, c2m, st2, sub),
        _ => st2,
    }
}

pub open spec fn sv_items(m: Pairs, c2m: Pairs, st: FindState, items: Seq<ItemV>) -> FindState
    decreases items, 0int,
{
    if items.len() == 0 {
        st
    } else {
        sv_items(m, c2m, sv_item(m, c2m, st, items[0]), items.drop_first())
    }
}

pub open spec fn sv_mod(m: Pairs, c2m: Pairs, st: FindState, mo: ModV) -> FindState
    decreases mo, 1int,
{
    let pos = pos_of_span("module"@, mo.span);
    let st1 = fs_push(st, pos);
    let st2 = fs_add(m, c2m, st1, Seq::empty(), InstKind::ExternCrateItem, mo.id, pos);
    sv_items(m, c2m, st2, mo.items)
}

/// The points that one finder pass collects over a whole tree, from an
/// empty stack and an empty set.
pub open spec fn spec_find_points(m: Pairs, c2m: Pairs, c: crate::ast::CrateV) -> Seq<InstPointV> {
    sv_mod(m, c2m, FindState { stack: Seq::empty(), points: Seq::empty() }, c.module).points
}


// ------------------------------------------------------------------
// The executable finder.

/// The view of a vector of string pairs.
pub open spec fn pairs_view(v: Seq<(String, String)>) -> Pairs {
    Seq::new(v.len(), |i: int| (v[i].0@, v[i].1@))
}

/// The view of the ancestor stack.
pub open spec fn stack_view(v: Seq<PositionInfo>) -> Seq<PositionInfoV> {
    Seq::new(v.len(), |i: int| v[i]@)
}

impl PositionInfo {
    /// An independent copy.
    pub fn duplicate(&self) -> (r: PositionInfo)
        ensures
            r@ == self@,
    {
        PositionInfo {
            node_kind: self.node_kind.clone(),
            filename: self.filename.clone(),
            begin_line: self.begin_line,
            begin_col: self.begin_col,
            end_line: self.end_line,
            end_col: self.end_col,
        }
    }
}

fn pos_contains_exec(x: &PositionInfo, inc: &PositionInfo) -> (r: bool)
    ensures
        r == pos_contains(x@, inc@),
{
    x.filename.eq(&inc.filename) && (x.begin_line < inc.begin_line || (x.begin_line
        == inc.begin_line && x.begin_col <= inc.begin_col)) && (inc.end_line < x.end_line || (
    inc.end_line == x.end_line && inc.end_col <= x.end_col))
}

fn vec_contains_string(v: &Vec<String>, s: &String) -> (r: bool)
    ensures
        r == strs_view(v@).contains(s@),
{
    let n = v.len();
    let mut i: usize = 0;
    while i < n
        invariant
            n == v@.len(),
            0 <= i <= n,
            forall|j: int| 0 <= j < i ==> strs_view(v@)[j] != s@,
        decreases n - i,
    {
        if v[i].eq(s) {
            proof {
                assert(strs_view(v@)[i as int] == s@);
            }
            return true;
        }
        i = i + 1;
    }
    proof {
        if strs_view(v@).contains(s@) {
            let k = choose|k: int| 0 <= k < strs_view(v@).len() && strs_view(v@)[k] == s@;
            assert(strs_view(v@)[k] != s@);
        }
    }
    false
}

/// A path as it prints: segments joined by `::`.
fn path_to_string(p: &AstPath) -> (r: String)
    ensures
        r@ == spec_path_str(path_view(*p)),
{
    proof {
        reveal_strlit("::");
    }
    let ghost segs = path_view(*p);
    if p.segments.len() == 0 {
        let r = String::new();
        proof {
            assert(r@ =~= spec_path_str(segs));
        }
        return r;
    }
    let n = p.segments.len();
    let mut acc = p.segments[0].clone();
    let mut i: usize = 1;
    while i < n
        invariant
            n == p.segments@.len(),
            segs == path_view(*p),
            segs.len() == n,
            1 <= i <= n,
            join_tail(segs[0], segs.drop_first()) == join_tail(acc@, segs.skip(i as int)),
        decreases n - i,
    {
        proof {
            assert(segs.skip(i as int)[0] == segs[i as int]);
            assert(segs.skip(i as int).drop_first() =~= segs.skip(i as int + 1));
            assert(segs[i as int] == p.segments@[i as int]@);
            reveal_strlit("::");
            assert("::"@ =~= crate::strings::colcol());
        }
        acc.append("::");
        acc.append(p.segments[i].as_str());
        i = i + 1;
    }
    proof {
        assert(segs.skip(n as int) =~= Seq::<Seq<char>>::empty());
        assert(segs.drop_first() =~= segs.skip(1));
    }
    acc
}

/// Walks the tree once, matching each candidate node against the
/// configuration, and collects the ordered set of instrumentation points.
pub struct InstFinder {
    pub resolv_paths: PathMap,
    pub code_2_monitor: Vec<(String, String)>,
    pub inst_points: PointSet,
    pub ast_node_stack: Vec<PositionInfo>,
}

/// The finder's mutable state, as the walk specification sees it.
pub open spec fn fstate(f: InstFinder) -> FindState {
    FindState { stack: stack_view(f.ast_node_stack@), points: f.inst_points@ }
}

impl InstFinder {
    /// A finder over the given resolver mapping and configuration pairs,
    /// with an empty point set and an empty ancestor stack.
    pub fn new(r_paths: PathMap, c_2_m: Vec<(String, String)>) -> (r: InstFinder)
        ensures
            r.resolv_paths@ == r_paths@,
            pairs_view(r.code_2_monitor@) == pairs_view(c_2_m@),
            r.inst_points@ == Seq::<InstPointV>::empty(),
            stack_view(r.ast_node_stack@) == Seq::<PositionInfoV>::empty(),
    {
        let r = InstFinder {
            resolv_paths: r_paths,
            code_2_monitor: c_2_m,
            inst_points: PointSet::new(),
            ast_node_stack: Vec::new(),
        };
        proof {
            assert(stack_view(r.ast_node_stack@) =~= Seq::<PositionInfoV>::empty());
        }
        r
    }

    /// The collected points, in the canonical order.
    pub fn get_inst_points(&self) -> (r: &PointSet)
        ensures
            r@ == self.inst_points@,
    {
        &self.inst_points
    }

    /// The position record of the current node; the tree carries the source
    /// map's answer on every node, so this only shapes it.
    fn get_file_lines(&self, node_kind: &str, span: &Span) -> (r: PositionInfo)
        ensures
            r@ == pos_of_span(node_kind@, span@),
    {
        PositionInfo {
            node_kind: node_kind.to_owned(),
            filename: span.file.clone(),
            begin_line: span.begin_line,
            begin_col: span.begin_col,
            end_line: span.end_line,
            end_col: span.end_col,
        }
    }

    /// One stack step: drop what no longer contains the incoming span, then
    /// push it.
    fn set_ast_stack(&mut self, pos_info: PositionInfo)
        ensures
            stack_view(final(self).ast_node_stack@) == spec_set_stack(
                stack_view(old(self).ast_node_stack@),
                pos_info@,
            ),
            final(self).resolv_paths == old(self).resolv_paths,
            final(self).code_2_monitor == old(self).code_2_monitor,
            final(self).inst_points == old(self).inst_points,
    {
        let ghost s0 = stack_view(self.ast_node_stack@);
        proof {
            assert(s0.subrange(0, s0.len() as int) =~= s0);
        }
        let mut index = self.ast_node_stack.len();
        while index > 0 && !pos_contains_exec(&self.ast_node_stack[index - 1], &pos_info)
            invariant
                0 <= index <= self.ast_node_stack@.len(),
                self == old(self),
                s0 == stack_view(self.ast_node_stack@),
                trunc_idx(s0, pos_info@) == trunc_idx(s0.subrange(0, index as int), pos_info@),
            decreases index,
        {
            proof {
                let sub = s0.subrange(0, index as int);
                assert(sub.last() == s0[index as int - 1]);
                assert(!pos_contains(sub.last(), pos_info@));
                assert(sub.drop_last() =~= s0.subrange(0, index as int - 1));
            }
            index = index - 1;
        }
        proof {
            let sub = s0.subrange(0, index as int);
            if index > 0 {
                assert(sub.last() == s0[index as int - 1]);
                assert(pos_contains(sub.last(), pos_info@));
                assert(trunc_idx(sub, pos_info@) == index as int);
            } else {
                assert(sub =~= Seq::<PositionInfoV>::empty());
            }
        }
        self.ast_node_stack.truncate(index);
        self.ast_node_stack.push(pos_info);
        proof {
            assert(stack_view(self.ast_node_stack@) =~= spec_set_stack(s0, pos_info@));
        }
    }

    /// Resolves the absolute path of a name.
    fn determine_abs_path(&self, path: &String, kind: InstKind) -> (r: String)
        ensures
            r@ == spec_determine_abs_path(self.resolv_paths@, path@, kind),
    {
        proof {
            reveal_strlit("::");
            assert("::"@ =~= crate::strings::colcol());
        }
        if kind == InstKind::InstCallForMethod {
            return path.clone();
        }
        let segments = split_cc(path.as_str());
        let ghost segs = spec_split_cc(path@);
        let n = segments.len();
        proof {
            assert(segments@[0]@ == segs[0]);
        }
        match self.resolv_paths.get(&segments[0]) {
            Option::Some(resolved) => {
                proof {
                    assert(segs.skip(1) =~= segs.drop_first());
                }
                let mut acc = resolved.clone();
                let mut i: usize = 1;
                while i < n
                    invariant
                        n == segments@.len(),
                        strs_view(segments@) == segs,
                        segs.len() == n,
                        1 <= i <= n,
                        join_tail(acc@, segs.skip(i as int)) == join_tail(
                            map_get(self.resolv_paths@, segs[0]),
                            segs.drop_first(),
                        ),
                    decreases n - i,
                {
                    proof {
                        assert(segs.skip(i as int)[0] == segs[i as int]);
                        assert(segs.skip(i as int).drop_first() =~= segs.skip(i as int + 1));
                        assert(segs[i as int] == segments@[i as int]@);
                        reveal_strlit("::");
                        assert("::"@ =~= crate::strings::colcol());
                    }
                    acc.append("::");
                    acc.append(segments[i].as_str());
                    i = i + 1;
                }
                proof {
                    assert(segs.skip(1) =~= segs.drop_first());
                    assert(segs.skip(n as int) =~= Seq::<Seq<char>>::empty());
                }
                acc
            },
            Option::None => {
                proof {
                    assert(segs.skip(0) =~= segs);
                }
                let mut acc = String::new();
                let mut i: usize = 0;
                while i < n
                    invariant
                        n == segments@.len(),
                        strs_view(segments@) == segs,
                        segs.len() == n,
                        0 <= i <= n,
                        join_opt(acc@, segs.skip(i as int)) == join_opt(
                            Seq::empty(),
                            segs,
                        ),
                    decreases n - i,
                {
                    proof {
                        assert(segs.skip(i as int)[0] == segs[i as int]);
                        assert(segs.skip(i as int).drop_first() =~= segs.skip(i as int + 1));
                        assert(segs[i as int] == segments@[i as int]@);
                        reveal_strlit("::");
                        assert("::"@ =~= crate::strings::colcol());
                    }
                    if acc.as_str().is_empty() {
                        proof {
                            assert(acc@ =~= Seq::<char>::empty());
                            assert(acc@ + segs[i as int] =~= segs[i as int]);
                        }
                        let mut acc2 = segments[i].clone();
                        acc = acc2;
                    } else {
                        acc.append("::");
                        acc.append(segments[i].as_str());
                    }
                    i = i + 1;
                }
                proof {
                    assert(segs.skip(0) =~= segs);
                    assert(segs.skip(n as int) =~= Seq::<Seq<char>>::empty());
                }
                acc
            },
        }
    }

    /// Filters the configuration pairs for this canonical name.
    fn get_from_code_2_moditor(&self, absolute_path: &String) -> (r: Vec<String>)
        ensures
            strs_view(r@) == spec_kinds_for(pairs_view(self.code_2_monitor@), absolute_path@),
    {
        let ghost c2m = pairs_view(self.code_2_monitor@);
        let mut r: Vec<String> = Vec::new();
        let n = self.code_2_monitor.len();
        let mut i: usize = 0;
        proof {
            assert(c2m.skip(0) =~= c2m);
        }
        while i < n
            invariant
                n == self.code_2_monitor@.len(),
                c2m == pairs_view(self.code_2_monitor@),
                c2m.len() == n,
                0 <= i <= n,
                spec_kinds_for(c2m, absolute_path@) == strs_view(r@) + spec_kinds_for(
                    c2m.skip(i as int),
                    absolute_path@,
                ),
            decreases n - i,
        {
            proof {
                assert(c2m.skip(i as int)[0] == c2m[i as int]);
                assert(c2m.skip(i as int).drop_first() =~= c2m.skip(i as int + 1));
                assert(c2m[i as int] == (self.code_2_monitor@[i as int].0@,
                    self.code_2_monitor@[i as int].1@));
            }
            if self.code_2_monitor[i].0.eq(absolute_path) {
                let ghost prev = strs_view(r@);
                r.push(self.code_2_monitor[i].1.clone());
                proof {
                    assert(strs_view(r@) =~= prev.push(c2m[i as int].1));
                    assert(strs_view(r@) + spec_kinds_for(c2m.skip(i as int + 1), absolute_path@)
                        =~= prev + (seq![c2m[i as int].1] + spec_kinds_for(
                        c2m.skip(i as int + 1),
                        absolute_path@,
                    )));
                }
            }
            i = i + 1;
        }
        proof {
            assert(c2m.skip(n as int) =~= Pairs::empty());
            assert(strs_view(r@) + spec_kinds_for(c2m.skip(n as int), absolute_path@) =~= strs_view(
                r@,
            ));
        }
        r
    }

    /// Checks whether an expression needs instrumentation: canonicalises the
    /// name and hands back the configured kind strings, if there are any.
    fn needs_inst(&self, path: String, kind: InstKind) -> (r: Option<(String, Vec<String>)>)
        ensures
            match r {
                Option::Some(ak) => ak.0@ == spec_determine_abs_path(
                    self.resolv_paths@,
                    path@,
                    kind,
                ) && strs_view(ak.1@) == spec_kinds_for(
                    pairs_view(self.code_2_monitor@),
                    ak.0@,
                ) && ak.1@.len() > 0,
                Option::None => spec_kinds_for(
                    pairs_view(self.code_2_monitor@),
                    spec_determine_abs_path(self.resolv_paths@, path@, kind),
                ).len() == 0,
            },
    {
        let absolute_path = self.determine_abs_path(&path, kind);
        let point_kinds = self.get_from_code_2_moditor(&absolute_path);
        if point_kinds.len() > 0 {
            Option::Some((absolute_path, point_kinds))
        } else {
            Option::None
        }
    }

    /// Builds the point for one emission.
    fn make_point(
        &self,
        kind: InstKind,
        node_id: u64,
        absolute_path: String,
        depth: u128,
        pos_info: &PositionInfo,
    ) -> (r: InstPoint)
        ensures
            r@ == spec_mk_point(kind, node_id, absolute_path@, depth, pos_info@),
    {
        let static_data = StaticData::new(
            absolute_path.as_str(),
            "",
            depth,
            pos_info.filename.as_str(),
            pos_info.begin_line,
            pos_info.end_line,
        );
        proof {
            reveal_strlit("");
            assert(""@ =~= Seq::<char>::empty());
        }
        InstPoint {
            kind,
            node_id,
            absolute_path,
            ast_pos: (depth, pos_info.begin_line, pos_info.begin_col),
            static_data,
        }
    }

    /// Adds an InstPoint to the set if the configuration asks for it.
    fn add_point_if_needed(
        &mut self,
        path: String,
        kind: InstKind,
        node_id: u64,
        pos_info: &PositionInfo,
    )
        ensures
            fstate(*final(self)) == fs_add(
                old(self).resolv_paths@,
                pairs_view(old(self).code_2_monitor@),
                fstate(*old(self)),
                path@,
                kind,
                node_id,
                pos_info@,
            ),
            final(self).resolv_paths == old(self).resolv_paths,
            final(self).code_2_monitor == old(self).code_2_monitor,
            final(self).ast_node_stack == old(self).ast_node_stack,
    {
        match self.needs_inst(path, kind) {
            Option::None => {},
            Option::Some((absolute_path, point_kinds)) => {
                let ast_depth = self.ast_node_stack.len() as u128;
                let ls = "LocalScope".to_owned();
                let special = point_kinds.len() == 1 && point_kinds[0].eq(&ls);
                proof {
                    assert(strs_view(point_kinds@)[0] == point_kinds@[0]@);
                }
                let is_call = kind == InstKind::InstCallForFunction || kind
                    == InstKind::InstCallForMethod;
                if special && is_call {
                    let p = self.make_point(
                        InstKind::LocalScope,
                        node_id,
                        absolute_path,
                        ast_depth,
                        pos_info,
                    );
                    self.inst_points.insert(p);
                } else {
                    let rep = kind.get_string_rep();
                    if vec_contains_string(&point_kinds, &rep) {
                        let p = self.make_point(kind, node_id, absolute_path, ast_depth, pos_info);
                        self.inst_points.insert(p);
                    }
                }
            },
        }
    }
}


impl InstFinder {
    /// Visits one expression: records its position, matches calls and
    /// method calls against the configuration (never inside a macro), and
    /// walks its children.
    #[verifier::loop_isolation(false)]
    fn visit_expr(&mut self, e: &Expr, in_mac: bool)
        ensures
            fstate(*final(self)) == sv_expr(
                old(self).resolv_paths@,
                pairs_view(old(self).code_2_monitor@),
                fstate(*old(self)),
                e@,
                in_mac,
            ),
            final(self).resolv_paths == old(self).resolv_paths,
            final(self).code_2_monitor == old(self).code_2_monitor,
        decreases e, 1int,
    {
        let ghost m = self.resolv_paths@;
        let ghost c2m = pairs_view(self.code_2_monitor@);
        let ghost st0 = fstate(*self);
        let pos = self.get_file_lines("expression", &e.span);
        self.set_ast_stack(pos.duplicate());
        let ghost st1 = fstate(*self);
        proof {
            assert(st1 == fs_push(st0, pos_of_span("expression"@, e.span@)));
        }
        match &e.kind {
            ExprKind::Call(callee, args) => {
                match &callee.kind {
                    ExprKind::Path(p) => {
                        if !in_mac {
                            let path_str = path_to_string(p);
                            self.add_point_if_needed(
                                path_str,
                                InstKind::InstCallForFunction,
                                e.id,
                                &pos,
                            );
                        }
                    },
                    _ => {},
                }
                self.visit_expr(&**callee, in_mac);
                let ghost stc = fstate(*self);
                let ghost argsv = exprs_view(args@);
                proof {
                    lemma_exprs_view(args@);
                    assert(argsv.skip(0) =~= argsv);
                }
                let n = args.len();
                let mut i: usize = 0;
                while i < n
                    invariant
                        n == args@.len(),
                        argsv == exprs_view(args@),
                        argsv.len() == n,
                        forall|j: int| 0 <= j < n ==> argsv[j] == expr_view(args@[j]),
                        0 <= i <= n,
                        m == self.resolv_paths@,
                        c2m == pairs_view(self.code_2_monitor@),
                        self.resolv_paths == old(self).resolv_paths,
                        self.code_2_monitor == old(self).code_2_monitor,
                        sv_exprs(m, c2m, stc, argsv, in_mac) == sv_exprs(
                            m,
                            c2m,
                            fstate(*self),
                            argsv.skip(i as int),
                            in_mac,
                        ),
                    decreases n - i,
                {
                    proof {
                        assert(argsv.skip(i as int)[0] == argsv[i as int]);
                        assert(argsv.skip(i as int).drop_first() =~= argsv.skip(i as int + 1));
                        assert(decreases_to!(e => e.kind));
                        assert(decreases_to!(e.kind => e.kind->Call_1));
                        assert(e.kind->Call_1 == *args);
                        assert(decreases_to!(e.kind->Call_1 => e.kind->Call_1@));
                        assert(decreases_to!(e.kind->Call_1@ => e.kind->Call_1@[i as int]));
                        assert(e.kind->Call_1@[i as int] == args@[i as int]);
                        assert(decreases_to!(e => args@[i as int]));
                    }
                    self.visit_expr(&args[i], in_mac);
                    i = i + 1;
                }
                proof {
                    assert(argsv.skip(n as int) =~= Seq::<ExprV>::empty());
                }
            },
            ExprKind::MethodCall(name, recv, args) => {
                if !in_mac {
                    self.add_point_if_needed(
                        name.clone(),
                        InstKind::InstCallForMethod,
                        e.id,
                        &pos,
                    );
                }
                self.visit_expr(&**recv, in_mac);
                let ghost stc = fstate(*self);
                let ghost argsv = exprs_view(args@);
                proof {
                    lemma_exprs_view(args@);
                    assert(argsv.skip(0) =~= argsv);
                }
                let n = args.len();
                let mut i: usize = 0;
                while i < n
                    invariant
                        n == args@.len(),
                        argsv == exprs_view(args@),
                        argsv.len() == n,
                        forall|j: int| 0 <= j < n ==> argsv[j] == expr_view(args@[j]),
                        0 <= i <= n,
                        m == self.resolv_paths@,
                        c2m == pairs_view(self.code_2_monitor@),
                        self.resolv_paths == old(self).resolv_paths,
                        self.code_2_monitor == old(self).code_2_monitor,
                        sv_exprs(m, c2m, stc, argsv, in_mac) == sv_exprs(
                            m,
                            c2m,
                            fstate(*self),
                            argsv.skip(i as int),
                            in_mac,
                        ),
                    decreases n - i,
                {
                    proof {
                        assert(argsv.skip(i as int)[0] == argsv[i as int]);
                        assert(argsv.skip(i as int).drop_first() =~= argsv.skip(i as int + 1));
                        assert(decreases_to!(e => e.kind));
                        assert(decreases_to!(e.kind => e.kind->MethodCall_2));
                        assert(e.kind->MethodCall_2 == *args);
                        assert(decreases_to!(e.kind->MethodCall_2 => e.kind->MethodCall_2@));
                        assert(decreases_to!(e.kind->MethodCall_2@ => e.kind->MethodCall_2@[i as int]));
                        assert(e.kind->MethodCall_2@[i as int] == args@[i as int]);
                        assert(decreases_to!(e => args@[i as int]));
                    }
                    self.visit_expr(&args[i], in_mac);
                    i = i + 1;
                }
                proof {
                    assert(argsv.skip(n as int) =~= Seq::<ExprV>::empty());
                }
            },
            ExprKind::Closure(body) => {
                let posf = self.get_file_lines("function", &e.span);
                self.set_ast_stack(posf);
                self.visit_expr(&**body, in_mac);
            },
            ExprKind::Block(b) => {
                self.visit_block(b, in_mac);
            },
            ExprKind::MacCall(args) => {
                let posm = self.get_file_lines("macro", &e.span);
                self.set_ast_stack(posm);
                let ghost stc = fstate(*self);
                let ghost argsv = exprs_view(args@);
                proof {
                    lemma_exprs_view(args@);
                    assert(argsv.skip(0) =~= argsv);
                }
                let n = args.len();
                let mut i: usize = 0;
                while i < n
                    invariant
                        n == args@.len(),
                        argsv == exprs_view(args@),
                        argsv.len() == n,
                        forall|j: int| 0 <= j < n ==> argsv[j] == expr_view(args@[j]),
                        0 <= i <= n,
                        m == self.resolv_paths@,
                        c2m == pairs_view(self.code_2_monitor@),
                        self.resolv_paths == old(self).resolv_paths,
                        self.code_2_monitor == old(self).code_2_monitor,
                        sv_exprs(m, c2m, stc, argsv, true) == sv_exprs(
                            m,
                            c2m,
                            fstate(*self),
                            argsv.skip(i as int),
                            true,
                        ),
                    decreases n - i,
                {
                    proof {
                        assert(argsv.skip(i as int)[0] == argsv[i as int]);
                        assert(argsv.skip(i as int).drop_first() =~= argsv.skip(i as int + 1));
                        assert(decreases_to!(e => e.kind));
                        assert(decreases_to!(e.kind => e.kind->MacCall_0));
                        assert(e.kind->MacCall_0 == *args);
                        assert(decreases_to!(e.kind->MacCall_0 => e.kind->MacCall_0@));
                        assert(decreases_to!(e.kind->MacCall_0@ => e.kind->MacCall_0@[i as int]));
                        assert(e.kind->MacCall_0@[i as int] == args@[i as int]);
                        assert(decreases_to!(e => args@[i as int]));
                    }
                    self.visit_expr(&args[i], true);
                    i = i + 1;
                }
                proof {
                    assert(argsv.skip(n as int) =~= Seq::<ExprV>::empty());
                }
            },
            ExprKind::Binary(a, b) => {
                self.visit_expr(&**a, in_mac);
                self.visit_expr(&**b, in_mac);
            },
            ExprKind::Unary(a) => {
                self.visit_expr(&**a, in_mac);
            },
            ExprKind::AddrOf(a) => {
                self.visit_expr(&**a, in_mac);
            },
            ExprKind::Ret(oe) => {
                match oe {
                    Option::Some(a) => {
                        self.visit_expr(&**a, in_mac);
                    },
                    Option::None => {},
                }
            },
            ExprKind::Try(a) => {
                self.visit_expr(&**a, in_mac);
            },
            ExprKind::Lit(_) => {},
            ExprKind::Path(_) => {},
        }
    }

    /// Visits a block: its own position, then its statements in order.
    fn visit_block(&mut self, b: &Block, in_mac: bool)
        ensures
            fstate(*final(self)) == sv_block(
                old(self).resolv_paths@,
                pairs_view(old(self).code_2_monitor@),
                fstate(*old(self)),
                b@,
                in_mac,
            ),
            final(self).resolv_paths == old(self).resolv_paths,
            final(self).code_2_monitor == old(self).code_2_monitor,
        decreases b, 2int,
    {
        let ghost m = self.resolv_paths@;
        let ghost c2m = pairs_view(self.code_2_monitor@);
        let pos = self.get_file_lines("block", &b.span);
        self.set_ast_stack(pos);
        let ghost stc = fstate(*self);
        let ghost ssv = stmts_view(b.stmts@);
        proof {
            lemma_stmts_view(b.stmts@);
            assert(ssv.skip(0) =~= ssv);
        }
        let n = b.stmts.len();
        let mut i: usize = 0;
        while i < n
            invariant
                n == b.stmts@.len(),
                ssv == stmts_view(b.stmts@),
                ssv.len() == n,
                forall|j: int| 0 <= j < n ==> ssv[j] == stmt_view(b.stmts@[j]),
                0 <= i <= n,
                m == self.resolv_paths@,
                c2m == pairs_view(self.code_2_monitor@),
                self.resolv_paths == old(self).resolv_paths,
                self.code_2_monitor == old(self).code_2_monitor,
                sv_stmts(m, c2m, stc, ssv, in_mac) == sv_stmts(
                    m,
                    c2m,
                    fstate(*self),
                    ssv.skip(i as int),
                    in_mac,
                ),
            decreases n - i,
        {
            proof {
                assert(ssv.skip(i as int)[0] == ssv[i as int]);
                assert(ssv.skip(i as int).drop_first() =~= ssv.skip(i as int + 1));
            }
            self.visit_stmt(&b.stmts[i], in_mac);
            i = i + 1;
        }
        proof {
            assert(ssv.skip(n as int) =~= Seq::<StmtV>::empty());
        }
    }

    /// Visits a statement; a `let` binding contributes a second stack entry
    /// before its initialiser.
    fn visit_stmt(&mut self, s: &Stmt, in_mac: bool)
        ensures
            fstate(*final(self)) == sv_stmt(
                old(self).resolv_paths@,
                pairs_view(old(self).code_2_monitor@),
                fstate(*old(self)),
                s@,
                in_mac,
            ),
            final(self).resolv_paths == old(self).resolv_paths,
            final(self).code_2_monitor == old(self).code_2_monitor,
        decreases s, 1int,
    {
        let pos = self.get_file_lines("statement", &s.span);
        self.set_ast_stack(pos);
        match &s.kind {
            StmtKind::Local(_, oe) => {
                let posl = self.get_file_lines("local", &s.span);
                self.set_ast_stack(posl);
                match oe {
                    Option::Some(e) => {
                        self.visit_expr(e, in_mac);
                    },
                    Option::None => {},
                }
            },
            StmtKind::Semi(e) => {
                self.visit_expr(e, in_mac);
            },
            StmtKind::Tail(e) => {
                self.visit_expr(e, in_mac);
            },
        }
    }

    /// Visits one impl item; methods contribute a function entry and their
    /// body.
    fn visit_impl_item(&mut self, ii: &ImplItem)
        ensures
            fstate(*final(self)) == sv_impl_item(
                old(self).resolv_paths@,
                pairs_view(old(self).code_2_monitor@),
                fstate(*old(self)),
                ii@,
            ),
            final(self).resolv_paths == old(self).resolv_paths,
            final(self).code_2_monitor == old(self).code_2_monitor,
        decreases ii,
    {
        let pos = self.get_file_lines("impl_item", &ii.span);
        self.set_ast_stack(pos);
        match &ii.kind {
            ImplItemKind::Method(b) => {
                let posf = self.get_file_lines("function", &ii.span);
                self.set_ast_stack(posf);
                self.visit_block(b, false);
            },
            ImplItemKind::Other => {},
        }
    }

    /// Visits one item: every item is a `GlobalScope` candidate under its
    /// own identifier; then its children.
    fn visit_item(&mut self, item: &Item)
        ensures
            fstate(*final(self)) == sv_item(
                old(self).resolv_paths@,
                pairs_view(old(self).code_2_monitor@),
                fstate(*old(self)),
                item@,
            ),
            final(self).resolv_paths == old(self).resolv_paths,
            final(self).code_2_monitor == old(self).code_2_monitor,
        decreases item, 3int,
    {
        let ghost m = self.resolv_paths@;
        let ghost c2m = pairs_view(self.code_2_monitor@);
        let pos = self.get_file_lines("item", &item.span);
        self.set_ast_stack(pos.duplicate());
        self.add_point_if_needed(item.ident.clone(), InstKind::GlobalScope, item.id, &pos);
        match &item.kind {
            ItemKind::Fn(b) => {
                let posf = self.get_file_lines("function", &item.span);
                self.set_ast_stack(posf);
                self.visit_block(b, false);
            },
            ItemKind::Impl(iis) => {
                let ghost stc = fstate(*self);
                let ghost iiv = impl_items_view(iis@);
                proof {
                    lemma_impl_items_view(iis@);
                    assert(iiv.skip(0) =~= iiv);
                }
                let n = iis.len();
                let mut i: usize = 0;
                while i < n
                    invariant
                        n == iis@.len(),
                        iiv == impl_items_view(iis@),
                        iiv.len() == n,
                        forall|j: int| 0 <= j < n ==> iiv[j] == impl_item_view(iis@[j]),
                        0 <= i <= n,
                        m == self.resolv_paths@,
                        c2m == pairs_view(self.code_2_monitor@),
                        self.resolv_paths == old(self).resolv_paths,
                        self.code_2_monitor == old(self).code_2_monitor,
                        sv_impl_items(m, c2m, stc, iiv) == sv_impl_items(
                            m,
                            c2m,
                            fstate(*self),
                            iiv.skip(i as int),
                        ),
                    decreases n - i,
                {
                    proof {
                        assert(iiv.skip(i as int)[0] == iiv[i as int]);
                        assert(iiv.skip(i as int).drop_first() =~= iiv.skip(i as int + 1));
                    }
                    self.visit_impl_item(&iis[i]);
                    i = i + 1;
                }
                proof {
                    assert(iiv.skip(n as int) =~= Seq::<ImplItemV>::empty());
                }
            },
            ItemKind::ModItem(sub) => {
                self.visit_mod_inner(sub);
            },
            ItemKind::ExternCrate(_) => {},
            ItemKind::Use(_) => {},
            ItemKind::Other => {},
        }
    }

    /// Visits a module: the module is the `ExternCrateItem` candidate, under
    /// the empty name; then its items in order.
    fn visit_mod_inner(&mut self, mo: &ModData)
        ensures
            fstate(*final(self)) == sv_mod(
                old(self).resolv_paths@,
                pairs_view(old(self).code_2_monitor@),
                fstate(*old(self)),
                mo@,
            ),
            final(self).resolv_paths == old(self).resolv_paths,
            final(self).code_2_monitor == old(self).code_2_monitor,
        decreases mo, 4int,
    {
        let ghost m = self.resolv_paths@;
        let ghost c2m = pairs_view(self.code_2_monitor@);
        let pos = self.get_file_lines("module", &mo.span);
        self.set_ast_stack(pos.duplicate());
        self.add_point_if_needed(String::new(), InstKind::ExternCrateItem, mo.id, &pos);
        let ghost stc = fstate(*self);
        let ghost itv = items_view(mo.items@);
        proof {
            lemma_items_view(mo.items@);
            assert(itv.skip(0) =~= itv);
        }
        let n = mo.items.len();
        let mut i: usize = 0;
        while i < n
            invariant
                n == mo.items@.len(),
                itv == items_view(mo.items@),
                itv.len() == n,
                forall|j: int| 0 <= j < n ==> itv[j] == item_view(mo.items@[j]),
                0 <= i <= n,
                m == self.resolv_paths@,
                c2m == pairs_view(self.code_2_monitor@),
                self.resolv_paths == old(self).resolv_paths,
                self.code_2_monitor == old(self).code_2_monitor,
                sv_items(m, c2m, stc, itv) == sv_items(
                    m,
                    c2m,
                    fstate(*self),
                    itv.skip(i as int),
                ),
            decreases n - i,
        {
            proof {
                assert(itv.skip(i as int)[0] == itv[i as int]);
                assert(itv.skip(i as int).drop_first() =~= itv.skip(i as int + 1));
            }
            self.visit_item(&mo.items[i]);
            i = i + 1;
        }
        proof {
            assert(itv.skip(n as int) =~= Seq::<ItemV>::empty());
        }
    }

    /// Collects the InstPoints by walking the whole tree.
    pub fn find_inst_points(&mut self, krate: &Crate)
        ensures
            fstate(*final(self)) == sv_mod(
                old(self).resolv_paths@,
                pairs_view(old(self).code_2_monitor@),
                fstate(*old(self)),
                krate@.module,
            ),
            final(self).resolv_paths == old(self).resolv_paths,
            final(self).code_2_monitor == old(self).code_2_monitor,
    {
        self.visit_mod_inner(&krate.module);
    }
}

} // verus!
