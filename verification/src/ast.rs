//! The syntax-tree model that the instrumentation pass operates on.
//!
//! Every node carries an identifier, assigned by the host that built the
//! tree, and the source span that the host's source map gave it. The finder
//! records points against node identifiers and the rewriter rebuilds the tree
//! around them, so no aliasing into the tree is ever needed.

use vstd::prelude::*;

verus! {

/// A source span: file name plus begin and end positions (line, column).
#[derive(Clone, Debug, PartialEq, Eq)]
pub struct Span {
    pub file: String,
    pub begin_line: u128,
    pub begin_col: u128,
    pub end_line: u128,
    pub end_col: u128,
}

/// Mathematical image of a `Span`.
#[verifier::ext_equal]
pub struct SpanV {
    pub file: Seq<char>,
    pub begin_line: u128,
    pub begin_col: u128,
    pub end_line: u128,
    pub end_col: u128,
}

impl View for Span {
    type V = SpanV;

    open spec fn view(&self) -> SpanV {
        SpanV {
            file: self.file@,
            begin_line: self.begin_line,
            begin_col: self.begin_col,
            end_line: self.end_line,
            end_col: self.end_col,
        }
    }
}

/// A `::`-separated path, kept as its segments.
#[derive(Clone, Debug, PartialEq, Eq)]
pub struct AstPath {
    pub segments: Vec<String>,
}

/// A literal expression.
#[derive(Clone, Debug, PartialEq, Eq)]
pub enum Lit {
    Int(u128),
    Str(String),
}

/// An expression node.
pub struct Expr {
    pub id: u64,
    pub span: Span,
    pub kind: ExprKind,
}

/// The shapes of expression the pass distinguishes. `Binary`, `Unary`,
/// `AddrOf`, `Ret` and `Try` stand for the expression shapes on which a
/// method call cannot sit directly; a chain whose base is one of them is
/// never unwound.
pub enum ExprKind {
    Lit(Lit),
    Path(AstPath),
    Call(Box<Expr>, Vec<Expr>),
    MethodCall(String, Box<Expr>, Vec<Expr>),
    Closure(Box<Expr>),
    Block(Block),
    MacCall(Vec<Expr>),
    Binary(Box<Expr>, Box<Expr>),
    Unary(Box<Expr>),
    AddrOf(Box<Expr>),
    Ret(Option<Box<Expr>>),
    Try(Box<Expr>),
}

/// A block of statements; its value is the value of a trailing `Tail`
/// statement, if any.
pub struct Block {
    pub id: u64,
    pub span: Span,
    pub stmts: Vec<Stmt>,
}

/// A statement node.
pub struct Stmt {
    pub id: u64,
    pub span: Span,
    pub kind: StmtKind,
}

/// `Local` is a `let` binding of an immutable name; `Semi` discards its
/// value; `Tail` yields it as the value of the enclosing block.
pub enum StmtKind {
    Local(String, Option<Expr>),
    Semi(Expr),
    Tail(Expr),
}

/// A top-level or module-level item.
pub struct Item {
    pub id: u64,
    pub span: Span,
    pub ident: String,
    pub kind: ItemKind,
}

/// The item shapes the pass reads. `ExternCrate` carries the real crate name
/// when the declaration aliases it; `Use` carries the printed prefix of the
/// use tree; `Other` stands for every remaining item shape.
pub enum ItemKind {
    Fn(Block),
    ExternCrate(Option<String>),
    Use(String),
    Impl(Vec<ImplItem>),
    ModItem(ModData),
    Other,
}

/// An item inside an `impl` block.
pub struct ImplItem {
    pub id: u64,
    pub span: Span,
    pub ident: String,
    pub kind: ImplItemKind,
}

pub enum ImplItemKind {
    Method(Block),
    Other,
}

/// A module: the unit that an import item can be prepended to.
pub struct ModData {
    pub id: u64,
    pub span: Span,
    pub items: Vec<Item>,
}

/// A whole compilation unit.
pub struct Crate {
    pub module: ModData,
}

// ------------------------------------------------------------------
// Mathematical images of the tree types.

#[verifier::ext_equal]
pub enum LitV {
    Int(u128),
    Str(Seq<char>),
}

#[verifier::ext_equal]
pub struct ExprV {
    pub id: u64,
    pub span: SpanV,
    pub kind: ExprKindV,
}

#[verifier::ext_equal]
pub enum ExprKindV {
    Lit(LitV),
    Path(Seq<Seq<char>>),
    Call(Box<ExprV>, Seq<ExprV>),
    MethodCall(Seq<char>, Box<ExprV>, Seq<ExprV>),
    Closure(Box<ExprV>),
    Block(BlockV),
    MacCall(Seq<ExprV>),
    Binary(Box<ExprV>, Box<ExprV>),
    Unary(Box<ExprV>),
    AddrOf(Box<ExprV>),
    Ret(Option<Box<ExprV>>),
    Try(Box<ExprV>),
}

#[verifier::ext_equal]
pub struct BlockV {
    pub id: u64,
    pub span: SpanV,
    pub stmts: Seq<StmtV>,
}

#[verifier::ext_equal]
pub struct StmtV {
    pub id: u64,
    pub span: SpanV,
    pub kind: StmtKindV,
}

#[verifier::ext_equal]
pub enum StmtKindV {
    Local(Seq<char>, Option<ExprV>),
    Semi(ExprV),
    Tail(ExprV),
}

#[verifier::ext_equal]
pub struct ItemV {
    pub id: u64,
    pub span: SpanV,
    pub ident: Seq<char>,
    pub kind: ItemKindV,
}

#[verifier::ext_equal]
pub enum ItemKindV {
    Fn(BlockV),
    ExternCrate(Option<Seq<char>>),
    Use(Seq<char>),
    Impl(Seq<ImplItemV>),
    ModItem(ModV),
    Other,
}

#[verifier::ext_equal]
pub struct ImplItemV {
    pub id: u64,
    pub span: SpanV,
    pub ident: Seq<char>,
    pub kind: ImplItemKindV,
}

#[verifier::ext_equal]
pub enum ImplItemKindV {
    Method(BlockV),
    Other,
}

#[verifier::ext_equal]
pub struct ModV {
    pub id: u64,
    pub span: SpanV,
    pub items: Seq<ItemV>,
}

#[verifier::ext_equal]
pub struct CrateV {
    pub module: ModV,
}

// ------------------------------------------------------------------
// The view functions.

pub open spec fn lit_view(l: Lit) -> LitV {
    match l {
        Lit::Int(n) => LitV::Int(n),
        Lit::Str(s) => LitV::Str(s@),
    }
}

pub open spec fn path_view(p: AstPath) -> Seq<Seq<char>> {
    Seq::new(p.segments@.len(), |i: int| p.segments@[i]@)
}

pub open spec fn exprs_view(s: Seq<Expr>) -> Seq<ExprV>
    decreases s,
{
    if s.len() == 0 {
        Seq::empty()
    } else {
        exprs_view(s.drop_last()).push(expr_view(s.last()))
    }
}

pub open spec fn stmts_view(s: Seq<Stmt>) -> Seq<StmtV>
    decreases s,
{
    if s.len() == 0 {
        Seq::empty()
    } else {
        stmts_view(s.drop_last()).push(stmt_view(s.last()))
    }
}

pub open spec fn items_view(s: Seq<Item>) -> Seq<ItemV>
    decreases s,
{
    if s.len() == 0 {
        Seq::empty()
    } else {
        items_view(s.drop_last()).push(item_view(s.last()))
    }
}

pub open spec fn impl_items_view(s: Seq<ImplItem>) -> Seq<ImplItemV>
    decreases s,
{
    if s.len() == 0 {
        Seq::empty()
    } else {
        impl_items_view(s.drop_last()).push(impl_item_view(s.last()))
    }
}

pub open spec fn expr_view(e: Expr) -> ExprV
    decreases e,
{
    ExprV { id: e.id, span: e.span@, kind: expr_kind_view(e.kind) }
}

pub open spec fn expr_kind_view(k: ExprKind) -> ExprKindV
    decreases k,
{
    match k {
        ExprKind::Lit(l) => ExprKindV::Lit(lit_view(l)),
        ExprKind::Path(p) => ExprKindV::Path(path_view(p)),
        ExprKind::Call(callee, args) => ExprKindV::Call(
            Box::new(expr_view(*callee)),
            exprs_view(args@),
        ),
        ExprKind::MethodCall(m, recv, args) => ExprKindV::MethodCall(
            m@,
            Box::new(expr_view(*recv)),
            exprs_view(args@),
        ),
        ExprKind::Closure(body) => ExprKindV::Closure(Box::new(expr_view(*body))),
        ExprKind::Block(b) => ExprKindV::Block(block_view(b)),
        ExprKind::MacCall(args) => ExprKindV::MacCall(exprs_view(args@)),
        ExprKind::Binary(a, b) => ExprKindV::Binary(
            Box::new(expr_view(*a)),
            Box::new(expr_view(*b)),
        ),
        ExprKind::Unary(a) => ExprKindV::Unary(Box::new(expr_view(*a))),
        ExprKind::AddrOf(a) => ExprKindV::AddrOf(Box::new(expr_view(*a))),
        ExprKind::Ret(oe) => ExprKindV::Ret(match oe {
            Option::Some(a) => Option::Some(Box::new(expr_view(*a))),
            Option::None => Option::None,
        }),
        ExprKind::Try(a) => ExprKindV::Try(Box::new(expr_view(*a))),
    }
}

pub open spec fn block_view(b: Block) -> BlockV
    decreases b,
{
    BlockV {
        id: b.id,
        span: b.span@,
        stmts: stmts_view(b.stmts@),
    }
}

pub open spec fn stmt_view(s: Stmt) -> StmtV
    decreases s,
{
    StmtV {
        id: s.id,
        span: s.span@,
        kind: match s.kind {
            StmtKind::Local(name, oe) => StmtKindV::Local(
                name@,
                match oe {
                    Option::Some(e) => Option::Some(expr_view(e)),
                    Option::None => Option::None,
                },
            ),
            StmtKind::Semi(e) => StmtKindV::Semi(expr_view(e)),
            StmtKind::Tail(e) => StmtKindV::Tail(expr_view(e)),
        },
    }
}

pub open spec fn item_view(i: Item) -> ItemV
    decreases i,
{
    ItemV {
        id: i.id,
        span: i.span@,
        ident: i.ident@,
        kind: match i.kind {
            ItemKind::Fn(b) => ItemKindV::Fn(block_view(b)),
            ItemKind::ExternCrate(o) => ItemKindV::ExternCrate(match o {
                Option::Some(s) => Option::Some(s@),
                Option::None => Option::None,
            }),
            ItemKind::Use(p) => ItemKindV::Use(p@),
            ItemKind::Impl(items) => ItemKindV::Impl(impl_items_view(items@)),
            ItemKind::ModItem(m) => ItemKindV::ModItem(mod_view(m)),
            ItemKind::Other => ItemKindV::Other,
        },
    }
}

pub open spec fn impl_item_view(i: ImplItem) -> ImplItemV
    decreases i,
{
    ImplItemV {
        id: i.id,
        span: i.span@,
        ident: i.ident@,
        kind: match i.kind {
            ImplItemKind::Method(b) => ImplItemKindV::Method(block_view(b)),
            ImplItemKind::Other => ImplItemKindV::Other,
        },
    }
}

pub open spec fn mod_view(m: ModData) -> ModV
    decreases m,
{
    ModV {
        id: m.id,
        span: m.span@,
        items: items_view(m.items@),
    }
}

pub broadcast proof fn lemma_exprs_view(s: Seq<Expr>)
    ensures
        (#[trigger] exprs_view(s)).len() == s.len(),
        forall|i: int| 0 <= i < s.len() ==> exprs_view(s)[i] == expr_view(s[i]),
    decreases s.len(),
{
    if s.len() > 0 {
        lemma_exprs_view(s.drop_last());
    }
}

pub broadcast proof fn lemma_stmts_view(s: Seq<Stmt>)
    ensures
        (#[trigger] stmts_view(s)).len() == s.len(),
        forall|i: int| 0 <= i < s.len() ==> stmts_view(s)[i] == stmt_view(s[i]),
    decreases s.len(),
{
    if s.len() > 0 {
        lemma_stmts_view(s.drop_last());
    }
}

pub broadcast proof fn lemma_items_view(s: Seq<Item>)
    ensures
        (#[trigger] items_view(s)).len() == s.len(),
        forall|i: int| 0 <= i < s.len() ==> items_view(s)[i] == item_view(s[i]),
    decreases s.len(),
{
    if s.len() > 0 {
        lemma_items_view(s.drop_last());
    }
}

pub broadcast proof fn lemma_impl_items_view(s: Seq<ImplItem>)
    ensures
        (#[trigger] impl_items_view(s)).len() == s.len(),
        forall|i: int| 0 <= i < s.len() ==> impl_items_view(s)[i] == impl_item_view(s[i]),
    decreases s.len(),
{
    if s.len() > 0 {
        lemma_impl_items_view(s.drop_last());
    }
}

impl View for Expr {
    type V = ExprV;

    open spec fn view(&self) -> ExprV {
        expr_view(*self)
    }
}

impl View for Block {
    type V = BlockV;

    open spec fn view(&self) -> BlockV {
        block_view(*self)
    }
}

impl View for Stmt {
    type V = StmtV;

    open spec fn view(&self) -> StmtV {
        stmt_view(*self)
    }
}

impl View for Item {
    type V = ItemV;

    open spec fn view(&self) -> ItemV {
        item_view(*self)
    }
}

impl View for ImplItem {
    type V = ImplItemV;

    open spec fn view(&self) -> ImplItemV {
        impl_item_view(*self)
    }
}

impl View for ModData {
    type V = ModV;

    open spec fn view(&self) -> ModV {
        mod_view(*self)
    }
}

impl View for Crate {
    type V = CrateV;

    open spec fn view(&self) -> CrateV {
        CrateV { module: mod_view(self.module) }
    }
}

} // verus!
