//! Synthesis of the replacement subtrees: for each point, the target node is
//! replaced by a block that preserves the original value and evaluation
//! order while inserting probe calls around it.

use vstd::prelude::*;
use crate::ast::{
    AstPath, Block, BlockV, Expr, ExprKind, ExprKindV, ExprV, Item, ItemKind, ItemKindV, ItemV,
    Lit, LitV, ModData, ModV, Span, SpanV, Stmt, StmtKind, StmtKindV, StmtV, exprs_view,
    lemma_exprs_view, lemma_stmts_view, stmts_view,
};
use crate::data::{StaticData, StaticDataV};
use crate::strings::{dec_rep, decimal_string};

verus! {

// ------------------------------------------------------------------
// Names the rewriter reserves, and the nodes it synthesises. Synthesised
// nodes carry the identifier 0 and an empty span.

pub open spec fn ret_var_name() -> Seq<char> {
    "instrumentation_return_value"@
}

pub open spec fn handle_var_name() -> Seq<char> {
    "instrumentation_local_join_handle"@
}

pub open spec fn arg_var_name(n: nat) -> Seq<char> {
    "instrumentation_argument_var_"@ + dec_rep(n)
}

pub open spec fn inter_var_name(n: nat) -> Seq<char> {
    "instrumentation_intermediate_var_"@ + dec_rep(n)
}

pub open spec fn dummy_span_v() -> SpanV {
    SpanV { file: Seq::empty(), begin_line: 0, begin_col: 0, end_line: 0, end_col: 0 }
}

fn dummy_span() -> (r: Span)
    ensures
        r@ == dummy_span_v(),
{
    proof {
        reveal_strlit("");
        assert(""@ =~= Seq::<char>::empty());
    }
    Span { file: "".to_owned(), begin_line: 0, begin_col: 0, end_line: 0, end_col: 0 }
}

fn make_arg_var(n: u64) -> (r: String)
    ensures
        r@ == arg_var_name(n as nat),
{
    let mut s = "instrumentation_argument_var_".to_owned();
    s.append(decimal_string(n).as_str());
    s
}

fn make_inter_var(n: u64) -> (r: String)
    ensures
        r@ == inter_var_name(n as nat),
{
    let mut s = "instrumentation_intermediate_var_".to_owned();
    s.append(decimal_string(n).as_str());
    s
}

/// A one-segment path expression naming a synthesised local.
pub open spec fn sv_var_expr(name: Seq<char>) -> ExprV {
    ExprV { id: 0, span: dummy_span_v(), kind: ExprKindV::Path(seq![name]) }
}

/// A two-segment path expression, `a::b`.
pub open spec fn sv_path2_expr(a: Seq<char>, b: Seq<char>) -> ExprV {
    ExprV { id: 0, span: dummy_span_v(), kind: ExprKindV::Path(seq![a, b]) }
}

/// A three-segment path expression, `a::b::c`.
pub open spec fn sv_path3_expr(a: Seq<char>, b: Seq<char>, c: Seq<char>) -> ExprV {
    ExprV { id: 0, span: dummy_span_v(), kind: ExprKindV::Path(seq![a, b, c]) }
}

pub open spec fn sv_str_lit(s: Seq<char>) -> ExprV {
    ExprV { id: 0, span: dummy_span_v(), kind: ExprKindV::Lit(LitV::Str(s)) }
}

pub open spec fn sv_int_lit(n: u128) -> ExprV {
    ExprV { id: 0, span: dummy_span_v(), kind: ExprKindV::Lit(LitV::Int(n)) }
}

pub open spec fn sv_call_expr(callee: ExprV, args: Seq<ExprV>) -> ExprV {
    ExprV { id: 0, span: dummy_span_v(), kind: ExprKindV::Call(Box::new(callee), args) }
}

pub open spec fn sv_semi_stmt(e: ExprV) -> StmtV {
    StmtV { id: 0, span: dummy_span_v(), kind: StmtKindV::Semi(e) }
}

pub open spec fn sv_local_stmt(name: Seq<char>, e: ExprV) -> StmtV {
    StmtV { id: 0, span: dummy_span_v(), kind: StmtKindV::Local(name, Option::Some(e)) }
}

pub open spec fn sv_block_expr(stmts: Seq<StmtV>) -> ExprV {
    ExprV {
        id: 0,
        span: dummy_span_v(),
        kind: ExprKindV::Block(BlockV { id: 0, span: dummy_span_v(), stmts }),
    }
}

/// The probe call statement
/// `instrument::instrument(instrument::StaticData::new(path, desc, depth, file, begin, end));`
/// with the site record embedded as literal arguments and the description
/// filled in by the rewrite.
#[verifier::opaque]
pub open spec fn spec_inst_call(sd: StaticDataV, desc: Seq<char>) -> StmtV {
    sv_semi_stmt(
        sv_call_expr(
            sv_path2_expr("instrument"@, "instrument"@),
            seq![
                sv_call_expr(
                    sv_path3_expr("instrument"@, "StaticData"@, "new"@),
                    seq![
                        sv_str_lit(sd.absolute_path),
                        sv_str_lit(desc),
                        sv_int_lit(sd.ast_depth),
                        sv_str_lit(sd.source_file),
                        sv_int_lit(sd.lines_begin),
                        sv_int_lit(sd.lines_end),
                    ],
                ),
            ],
        ),
    )
}

/// `instrument::global_init();`
#[verifier::opaque]
pub open spec fn spec_global_init_stmt() -> StmtV {
    sv_semi_stmt(sv_call_expr(sv_path2_expr("instrument"@, "global_init"@), Seq::empty()))
}

/// `let instrumentation_local_join_handle = instrument::local_init();`
#[verifier::opaque]
pub open spec fn spec_local_init_stmt() -> StmtV {
    sv_local_stmt(
        handle_var_name(),
        sv_call_expr(sv_path2_expr("instrument"@, "local_init"@), Seq::empty()),
    )
}

/// `instrument::clean_up(instrumentation_local_join_handle);`
#[verifier::opaque]
pub open spec fn spec_clean_up_stmt() -> StmtV {
    sv_semi_stmt(
        sv_call_expr(
            sv_path2_expr("instrument"@, "clean_up"@),
            seq![sv_var_expr(handle_var_name())],
        ),
    )
}

/// The tail statement that yields the stored return value.
#[verifier::opaque]
pub open spec fn spec_return_value_stmt() -> StmtV {
    StmtV { id: 0, span: dummy_span_v(), kind: StmtKindV::Tail(sv_var_expr(ret_var_name())) }
}

/// The import item that makes the probe library reachable.
#[verifier::opaque]
pub open spec fn spec_extern_crate_item() -> ItemV {
    ItemV {
        id: 0,
        span: dummy_span_v(),
        ident: "instrument"@,
        kind: ItemKindV::ExternCrate(Option::None),
    }
}

// ------------------------------------------------------------------
// Executable builders.

fn make_var_expr(name: String) -> (r: Expr)
    ensures
        r@ == sv_var_expr(name@),
{
    let mut segments: Vec<String> = Vec::new();
    segments.push(name);
    let r = Expr {
        id: 0,
        span: dummy_span(),
        kind: ExprKind::Path(AstPath { segments }),
    };
    proof {
        assert(crate::ast::path_view(r.kind->Path_0) =~= seq![segments@[0]@]);
    }
    r
}

fn make_path2_expr(a: &str, b: &str) -> (r: Expr)
    ensures
        r@ == sv_path2_expr(a@, b@),
{
    let mut segments: Vec<String> = Vec::new();
    segments.push(a.to_owned());
    segments.push(b.to_owned());
    let r = Expr {
        id: 0,
        span: dummy_span(),
        kind: ExprKind::Path(AstPath { segments }),
    };
    proof {
        assert(crate::ast::path_view(r.kind->Path_0) =~= seq![a@, b@]);
    }
    r
}

fn make_path3_expr(a: &str, b: &str, c: &str) -> (r: Expr)
    ensures
        r@ == sv_path3_expr(a@, b@, c@),
{
    let mut segments: Vec<String> = Vec::new();
    segments.push(a.to_owned());
    segments.push(b.to_owned());
    segments.push(c.to_owned());
    let r = Expr {
        id: 0,
        span: dummy_span(),
        kind: ExprKind::Path(AstPath { segments }),
    };
    proof {
        assert(crate::ast::path_view(r.kind->Path_0) =~= seq![a@, b@, c@]);
    }
    r
}

fn make_str_lit(s: &str) -> (r: Expr)
    ensures
        r@ == sv_str_lit(s@),
{
    Expr { id: 0, span: dummy_span(), kind: ExprKind::Lit(Lit::Str(s.to_owned())) }
}

fn make_int_lit(n: u128) -> (r: Expr)
    ensures
        r@ == sv_int_lit(n),
{
    Expr { id: 0, span: dummy_span(), kind: ExprKind::Lit(Lit::Int(n)) }
}

fn make_call_expr(callee: Expr, args: Vec<Expr>) -> (r: Expr)
    ensures
        r@ == sv_call_expr(callee@, exprs_view(args@)),
{
    Expr { id: 0, span: dummy_span(), kind: ExprKind::Call(Box::new(callee), args) }
}

fn make_semi_stmt(e: Expr) -> (r: Stmt)
    ensures
        r@ == sv_semi_stmt(e@),
{
    Stmt { id: 0, span: dummy_span(), kind: StmtKind::Semi(e) }
}

fn make_local_stmt(name: String, e: Expr) -> (r: Stmt)
    ensures
        r@ == sv_local_stmt(name@, e@),
{
    Stmt { id: 0, span: dummy_span(), kind: StmtKind::Local(name, Option::Some(e)) }
}

fn make_block_expr(stmts: Vec<Stmt>) -> (r: Expr)
    ensures
        r@ == sv_block_expr(stmts_view(stmts@)),
{
    let r = Expr {
        id: 0,
        span: dummy_span(),
        kind: ExprKind::Block(Block { id: 0, span: dummy_span(), stmts }),
    };
    proof {
        assert(crate::ast::block_view(r.kind->Block_0) =~~= (BlockV {
            id: 0,
            span: dummy_span_v(),
            stmts: stmts_view(stmts@),
        }));
        assert(r@ =~~= sv_block_expr(stmts_view(stmts@)));
    }
    r
}

/// Creates the instrumentation call statement for this site and description.
fn create_instrumentation_call(static_data: &StaticData, description: &str) -> (r: Stmt)
    ensures
        r@ == spec_inst_call(static_data@, description@),
{
    proof {
        reveal(spec_inst_call);
    }
    let mut new_args: Vec<Expr> = Vec::new();
    new_args.push(make_str_lit(static_data.absolute_path.as_str()));
    new_args.push(make_str_lit(description));
    new_args.push(make_int_lit(static_data.ast_depth));
    new_args.push(make_str_lit(static_data.source_file.as_str()));
    new_args.push(make_int_lit(static_data.lines_begin));
    new_args.push(make_int_lit(static_data.lines_end));
    let sd_call = make_call_expr(make_path3_expr("instrument", "StaticData", "new"), new_args);
    proof {
        lemma_exprs_view(new_args@);
        assert(exprs_view(new_args@) =~= seq![
            sv_str_lit(static_data@.absolute_path),
            sv_str_lit(description@),
            sv_int_lit(static_data@.ast_depth),
            sv_str_lit(static_data@.source_file),
            sv_int_lit(static_data@.lines_begin),
            sv_int_lit(static_data@.lines_end),
        ]);
    }
    let mut outer_args: Vec<Expr> = Vec::new();
    outer_args.push(sd_call);
    let ghost sdc = sv_call_expr(
        sv_path3_expr("instrument"@, "StaticData"@, "new"@),
        seq![
            sv_str_lit(static_data@.absolute_path),
            sv_str_lit(description@),
            sv_int_lit(static_data@.ast_depth),
            sv_str_lit(static_data@.source_file),
            sv_int_lit(static_data@.lines_begin),
            sv_int_lit(static_data@.lines_end),
        ],
    );
    proof {
        lemma_exprs_view(outer_args@);
        assert(exprs_view(outer_args@) =~= seq![sdc]);
    }
    make_semi_stmt(make_call_expr(make_path2_expr("instrument", "instrument"), outer_args))
}

/// Creates the global init statement.
fn create_global_init() -> (r: Stmt)
    ensures
        r@ == spec_global_init_stmt(),
{
    proof {
        reveal(spec_global_init_stmt);
    }
    let args: Vec<Expr> = Vec::new();
    proof {
        lemma_exprs_view(args@);
        assert(exprs_view(args@) =~= Seq::<ExprV>::empty());
    }
    make_semi_stmt(make_call_expr(make_path2_expr("instrument", "global_init"), args))
}

/// Creates the thread-local init statement binding the helper join handle.
fn create_local_init() -> (r: Stmt)
    ensures
        r@ == spec_local_init_stmt(),
{
    proof {
        reveal(spec_local_init_stmt);
    }
    let args: Vec<Expr> = Vec::new();
    proof {
        lemma_exprs_view(args@);
        assert(exprs_view(args@) =~= Seq::<ExprV>::empty());
    }
    make_local_stmt(
        "instrumentation_local_join_handle".to_owned(),
        make_call_expr(make_path2_expr("instrument", "local_init"), args),
    )
}

/// Creates the clean up statement that joins the helper thread.
fn create_local_clean_up() -> (r: Stmt)
    ensures
        r@ == spec_clean_up_stmt(),
{
    proof {
        reveal(spec_clean_up_stmt);
    }
    let mut args: Vec<Expr> = Vec::new();
    args.push(make_var_expr("instrumentation_local_join_handle".to_owned()));
    proof {
        lemma_exprs_view(args@);
        assert(exprs_view(args@) =~= seq![sv_var_expr(handle_var_name())]);
    }
    make_semi_stmt(make_call_expr(make_path2_expr("instrument", "clean_up"), args))
}

/// Creates the tail statement returning the stored value.
fn create_return_value() -> (r: Stmt)
    ensures
        r@ == spec_return_value_stmt(),
{
    proof {
        reveal(spec_return_value_stmt);
    }
    let e = make_var_expr("instrumentation_return_value".to_owned());
    Stmt { id: 0, span: dummy_span(), kind: StmtKind::Tail(e) }
}

/// Creates the import item for the probe library.
fn create_extern_crate_item() -> (r: Item)
    ensures
        r@ == spec_extern_crate_item(),
{
    proof {
        reveal(spec_extern_crate_item);
    }
    Item {
        id: 0,
        span: dummy_span(),
        ident: "instrument".to_owned(),
        kind: ItemKind::ExternCrate(Option::None),
    }
}


// ------------------------------------------------------------------
// The per-kind rewrites.

/// A fatal tree-shape violation or a missing target: the diagnostic carries
/// the offending point's canonical name and begin line.
#[derive(Clone, Debug)]
pub struct RewriteError {
    pub absolute_path: String,
    pub lines_begin: u128,
}

#[verifier::ext_equal]
pub struct RewriteErrorV {
    pub absolute_path: Seq<char>,
    pub lines_begin: u128,
}

impl View for RewriteError {
    type V = RewriteErrorV;

    open spec fn view(&self) -> RewriteErrorV {
        RewriteErrorV { absolute_path: self.absolute_path@, lines_begin: self.lines_begin }
    }
}

/// The hoisting `let` bindings for the arguments, in evaluation order.
pub open spec fn spec_arg_locals(args: Seq<ExprV>) -> Seq<StmtV> {
    Seq::new(args.len(), |i: int| sv_local_stmt(arg_var_name(i as nat), args[i]))
}

/// The paths that stand in for the hoisted arguments at the call.
pub open spec fn spec_arg_paths(n: nat) -> Seq<ExprV> {
    Seq::new(n, |i: int| sv_var_expr(arg_var_name(i as nat)))
}

/// The general envelope: begin probe, the transformed original bound to the
/// return variable, end probe, and the value yielded back.
pub open spec fn spec_envelope(sd: StaticDataV, inner: ExprV) -> Seq<StmtV> {
    seq![
        spec_inst_call(sd, "BEGIN"@),
        sv_local_stmt(ret_var_name(), inner),
        spec_inst_call(sd, "END"@),
        spec_return_value_stmt(),
    ]
}

/// The rewritten form of a call expression: arguments hoisted in order, then
/// the envelope around the call on the hoisted names.
pub open spec fn spec_rewrite_fn_call(e: ExprV, sd: StaticDataV) -> ExprV {
    let callee = e.kind->Call_0;
    let args = e.kind->Call_1;
    let inner = ExprV {
        id: 0,
        span: dummy_span_v(),
        kind: ExprKindV::Call(callee, spec_arg_paths(args.len())),
    };
    sv_block_expr(spec_arg_locals(args) + spec_envelope(sd, inner))
}

/// Number of leading method-call links on the receiver side.
pub open spec fn spec_unwind_chain(e: ExprV, k: u64) -> Option<Seq<StmtV>>
    decreases e,
{
    match e.kind {
        ExprKindV::MethodCall(m, recv, args) => if k == u64::MAX {
            Option::None
        } else {
            match spec_unwind_chain(*recv, (k + 1) as u64) {
                Option::None => Option::None,
                Option::Some(stmts) => Option::Some(
                    stmts.push(
                        sv_local_stmt(
                            inter_var_name(k as nat),
                            ExprV {
                                id: 0,
                                span: dummy_span_v(),
                                kind: ExprKindV::MethodCall(
                                    m,
                                    Box::new(sv_var_expr(inter_var_name((k + 1) as nat))),
                                    args,
                                ),
                            },
                        ),
                    ),
                ),
            }
        },
        ExprKindV::Binary(_, _) => Option::None,
        ExprKindV::Unary(_) => Option::None,
        ExprKindV::AddrOf(_) => Option::None,
        ExprKindV::Ret(_) => Option::None,
        ExprKindV::Try(_) => Option::None,
        _ => Option::Some(seq![sv_local_stmt(inter_var_name(k as nat), e)]),
    }
}

/// The rewritten form of a method call: the receiver chain unwound into
/// intermediate bindings where there is one, the arguments hoisted, and the
/// envelope around the final call. A chain that cannot be unwound leaves the
/// expression untouched; the point is skipped.
pub open spec fn spec_rewrite_method_call(e: ExprV, sd: StaticDataV) -> ExprV {
    let name = e.kind->MethodCall_0;
    let recv = e.kind->MethodCall_1;
    let args = e.kind->MethodCall_2;
    if (*recv).kind is MethodCall {
        match spec_unwind_chain(*recv, 0) {
            Option::None => e,
            Option::Some(chain) => {
                let inner = ExprV {
                    id: 0,
                    span: e.span,
                    kind: ExprKindV::MethodCall(
                        name,
                        Box::new(sv_var_expr(inter_var_name(0))),
                        spec_arg_paths(args.len()),
                    ),
                };
                sv_block_expr(chain + spec_arg_locals(args) + spec_envelope(sd, inner))
            },
        }
    } else {
        let inner = ExprV {
            id: 0,
            span: e.span,
            kind: ExprKindV::MethodCall(name, recv, spec_arg_paths(args.len())),
        };
        sv_block_expr(spec_arg_locals(args) + spec_envelope(sd, inner))
    }
}

/// A closure body after the thread-local wrap: init, begin probe, the body
/// bound to the return variable, end probe, the value yielded back.
pub open spec fn spec_wrap_closure_body(sd: StaticDataV, body: ExprV) -> ExprV {
    sv_block_expr(
        seq![
            spec_local_init_stmt(),
            spec_inst_call(sd, "LOCAL_BEGIN"@),
            sv_local_stmt(ret_var_name(), body),
            spec_inst_call(sd, "LOCAL_END"@),
            spec_return_value_stmt(),
        ],
    )
}

/// Closure arguments get their bodies wrapped; every other argument is left
/// as it stands.
pub open spec fn spec_wrap_closure_arg(sd: StaticDataV, a: ExprV) -> ExprV {
    if a.kind is Closure {
        ExprV {
            id: a.id,
            span: a.span,
            kind: ExprKindV::Closure(Box::new(spec_wrap_closure_body(sd, *a.kind->Closure_0))),
        }
    } else {
        a
    }
}

pub open spec fn spec_wrap_args(sd: StaticDataV, args: Seq<ExprV>) -> Seq<ExprV> {
    Seq::new(args.len(), |i: int| spec_wrap_closure_arg(sd, args[i]))
}

/// The thread-scope rewrite of a spawn call: every closure among the
/// receiver and arguments has its body wrapped, and the whole call gets the
/// general envelope.
pub open spec fn spec_rewrite_local_scope(e: ExprV, sd: StaticDataV) -> ExprV {
    match e.kind {
        ExprKindV::Call(callee, args) => {
            let inner = ExprV {
                id: e.id,
                span: e.span,
                kind: ExprKindV::Call(callee, spec_wrap_args(sd, args)),
            };
            sv_block_expr(spec_envelope(sd, inner))
        },
        ExprKindV::MethodCall(name, recv, args) => {
            let inner = ExprV {
                id: e.id,
                span: e.span,
                kind: ExprKindV::MethodCall(
                    name,
                    Box::new(spec_wrap_closure_arg(sd, *recv)),
                    spec_wrap_args(sd, args),
                ),
            };
            sv_block_expr(spec_envelope(sd, inner))
        },
        _ => e,
    }
}

/// The process-scope rewrite of a named function body: init prologue and
/// probe at the head, probe and clean-up at the tail. No value wrapping: the
/// target is a definition, not an expression.
pub open spec fn spec_rewrite_global_scope(it: ItemV, sd: StaticDataV) -> ItemV {
    let b = it.kind->Fn_0;
    ItemV {
        id: it.id,
        span: it.span,
        ident: it.ident,
        kind: ItemKindV::Fn(
            BlockV {
                id: b.id,
                span: b.span,
                stmts: seq![
                    spec_global_init_stmt(),
                    spec_local_init_stmt(),
                    spec_inst_call(sd, "GLOBAL_BEGIN"@),
                ] + b.stmts + seq![spec_inst_call(sd, "GLOBAL_END"@), spec_clean_up_stmt()],
            },
        ),
    }
}

/// The import rewrite: the probe library's import item is prepended to the
/// module.
pub open spec fn spec_insert_extern_crate(m: ModV) -> ModV {
    ModV { id: m.id, span: m.span, items: seq![spec_extern_crate_item()] + m.items }
}

fn error_for(point: &crate::finder::InstPoint) -> (r: RewriteError)
    ensures
        r@ == err_of(point@),
{
    RewriteError {
        absolute_path: point.absolute_path.clone(),
        lines_begin: point.static_data.lines_begin,
    }
}

/// Hoists call arguments into fresh locals, in evaluation order, and hands
/// back the paths that stand for them.
fn extract_arguments(arguments: Vec<Expr>) -> (r: (Vec<Stmt>, Vec<Expr>))
    ensures
        stmts_view(r.0@) == spec_arg_locals(exprs_view(arguments@)),
        exprs_view(r.1@) == spec_arg_paths(arguments@.len()),
{
    let ghost argsv = exprs_view(arguments@);
    proof {
        lemma_exprs_view(arguments@);
    }
    let mut extracted_args: Vec<Stmt> = Vec::new();
    let mut args_vars: Vec<Expr> = Vec::new();
    let mut arguments = arguments;
    let mut var_count: usize = 0;
    let n = arguments.len();
    while var_count < n
        invariant
            n == argsv.len(),
            arguments@.len() == n - var_count,
            exprs_view(arguments@) =~= argsv.skip(var_count as int),
            0 <= var_count <= n,
            stmts_view(extracted_args@) =~= spec_arg_locals(argsv).subrange(0, var_count as int),
            exprs_view(args_vars@) =~= spec_arg_paths(argsv.len()).subrange(0, var_count as int),
        decreases n - var_count,
    {
        proof {
            lemma_exprs_view(arguments@);
            assert(exprs_view(arguments@)[0] == crate::ast::expr_view(arguments@[0]));
            assert(argsv.skip(var_count as int)[0] == argsv[var_count as int]);
        }
        let ghost prev_stmts = stmts_view(extracted_args@);
        let ghost prev_vars = exprs_view(args_vars@);
        let ghost args_before = arguments@;
        let expr = arguments.remove(0);
        proof {
            lemma_stmts_view(extracted_args@);
            lemma_exprs_view(args_vars@);
            lemma_exprs_view(args_before);
            lemma_exprs_view(arguments@);
            assert(expr@ == argsv[var_count as int]);
            assert forall|j: int| 0 <= j < arguments@.len() implies exprs_view(arguments@)[j]
                == argsv[var_count + 1 + j] by {
                assert(arguments@[j] == args_before[j + 1]);
                assert(exprs_view(arguments@)[j] == crate::ast::expr_view(arguments@[j]));
                assert(crate::ast::expr_view(args_before[j + 1]) == exprs_view(args_before)[j
                    + 1]);
                assert(exprs_view(args_before)[j + 1] == argsv.skip(var_count as int)[j + 1]);
            }
        }
        extracted_args.push(make_local_stmt(make_arg_var(var_count as u64), expr));
        args_vars.push(make_var_expr(make_arg_var(var_count as u64)));
        var_count = var_count + 1;
        proof {
            lemma_stmts_view(extracted_args@);
            lemma_exprs_view(args_vars@);
            lemma_exprs_view(arguments@);
            assert(stmts_view(extracted_args@) =~= prev_stmts.push(
                sv_local_stmt(arg_var_name((var_count - 1) as nat), argsv[var_count - 1]),
            ));
            assert(exprs_view(args_vars@) =~= prev_vars.push(
                sv_var_expr(arg_var_name((var_count - 1) as nat)),
            ));
            assert(exprs_view(arguments@) =~= argsv.skip(var_count as int));
        }
    }
    proof {
        assert(stmts_view(extracted_args@) =~= spec_arg_locals(argsv));
        assert(exprs_view(args_vars@) =~= spec_arg_paths(argsv.len()));
    }
    (extracted_args, args_vars)
}

/// Unwinds a method chain into intermediate bindings; a chain whose base
/// shape admits no direct method call is handed back untouched.
fn unwind_method_chain(e: Expr, k: u64) -> (r: Result<Vec<Stmt>, Expr>)
    ensures
        match r {
            Result::Ok(stmts) => spec_unwind_chain(e@, k) == Option::Some(stmts_view(stmts@)),
            Result::Err(back) => spec_unwind_chain(e@, k) is None && back@ == e@,
        },
    decreases e,
{
    let id = e.id;
    let span = e.span;
    match e.kind {
        ExprKind::MethodCall(m, recv, args) => {
            if k == u64::MAX {
                let back = Expr { id, span, kind: ExprKind::MethodCall(m, recv, args) };
                proof {
                    assert(back@ =~~= e@);
                }
                return Result::Err(back);
            }
            match unwind_method_chain(*recv, k + 1) {
                Result::Ok(mut stmts) => {
                    let ghost prev = stmts_view(stmts@);
                    let inner = Expr {
                        id: 0,
                        span: dummy_span(),
                        kind: ExprKind::MethodCall(
                            m,
                            Box::new(make_var_expr(make_inter_var(k + 1))),
                            args,
                        ),
                    };
                    proof {
                        assert(inner@ =~~= (ExprV {
                            id: 0,
                            span: dummy_span_v(),
                            kind: ExprKindV::MethodCall(
                                e@.kind->MethodCall_0,
                                Box::new(sv_var_expr(inter_var_name((k + 1) as nat))),
                                e@.kind->MethodCall_2,
                            ),
                        }));
                    }
                    proof {
                        lemma_stmts_view(stmts@);
                    }
                    stmts.push(make_local_stmt(make_inter_var(k), inner));
                    proof {
                        lemma_stmts_view(stmts@);
                        assert(stmts_view(stmts@) =~= prev.push(
                            sv_local_stmt(inter_var_name(k as nat), inner@),
                        ));
                    }
                    Result::Ok(stmts)
                },
                Result::Err(recv_back) => {
                    let back = Expr {
                        id,
                        span,
                        kind: ExprKind::MethodCall(m, Box::new(recv_back), args),
                    };
                    proof {
                        assert(back@ =~~= e@);
                    }
                    Result::Err(back)
                },
            }
        },
        ExprKind::Binary(a, b) => Result::Err(
            Expr { id, span, kind: ExprKind::Binary(a, b) },
        ),
        ExprKind::Unary(a) => Result::Err(Expr { id, span, kind: ExprKind::Unary(a) }),
        ExprKind::AddrOf(a) => Result::Err(Expr { id, span, kind: ExprKind::AddrOf(a) }),
        ExprKind::Ret(oe) => Result::Err(Expr { id, span, kind: ExprKind::Ret(oe) }),
        ExprKind::Try(a) => Result::Err(Expr { id, span, kind: ExprKind::Try(a) }),
        kind => {
            let base = Expr { id, span, kind };
            let mut stmts: Vec<Stmt> = Vec::new();
            proof {
                assert(base@ =~~= e@);
            }
            stmts.push(make_local_stmt(make_inter_var(k), base));
            proof {
                lemma_stmts_view(stmts@);
                assert(stmts_view(stmts@) =~= seq![
                    sv_local_stmt(inter_var_name(k as nat), e@),
                ]);
            }
            Result::Ok(stmts)
        },
    }
}

/// Builds the four envelope statements around the transformed original.
#[verifier::rlimit(60)]
fn push_envelope(block: &mut Vec<Stmt>, static_data: &StaticData, inner: Expr)
    ensures
        stmts_view(final(block)@) == stmts_view(old(block)@) + spec_envelope(
            static_data@,
            inner@,
        ),
{
    let ghost prev = stmts_view(old(block)@);
    proof {
        lemma_stmts_view(old(block)@);
    }
    block.push(create_instrumentation_call(static_data, "BEGIN"));
    block.push(make_local_stmt("instrumentation_return_value".to_owned(), inner));
    block.push(create_instrumentation_call(static_data, "END"));
    block.push(create_return_value());
    proof {
        lemma_stmts_view(block@);
        assert(stmts_view(block@) =~= prev + spec_envelope(static_data@, inner@));
    }
}

/// Inserts the probe library's import item at the head of the module.
pub fn insert_extern_crate_item(module: ModData, inst_point: &crate::finder::InstPoint) -> (r:
    ModData)
    ensures
        crate::ast::mod_view(r) == spec_insert_extern_crate(crate::ast::mod_view(module)),
{
    let mut module = module;
    let ghost m0 = crate::ast::mod_view(module);
    let ghost items0 = module.items@;
    module.items.insert(0, create_extern_crate_item());
    proof {
        crate::ast::lemma_items_view(module.items@);
        crate::ast::lemma_items_view(items0);
        assert(crate::ast::items_view(module.items@) =~= seq![spec_extern_crate_item()]
            + crate::ast::items_view(items0));
        assert(crate::ast::mod_view(module) =~~= (ModV {
            id: module.id,
            span: module.span@,
            items: crate::ast::items_view(module.items@),
        }));
        assert(m0 =~~= (ModV { id: module.id, span: module.span@, items: crate::ast::items_view(
            items0,
        ) }));
        assert(crate::ast::mod_view(module) =~~= spec_insert_extern_crate(m0));
    }
    module
}

/// Wraps process-scope initialisation and shutdown around a named function
/// body; any other item shape is a fatal contract violation.
#[verifier::rlimit(60)]
pub fn insert_global_scope(item: Item, inst_point: &crate::finder::InstPoint) -> (r: Result<
    Item,
    RewriteError,
>)
    ensures
        match r {
            Result::Ok(it2) => item@.kind is Fn && it2@ == spec_rewrite_global_scope(
                item@,
                inst_point@.static_data,
            ),
            Result::Err(er) => !(item@.kind is Fn) && er@ == err_of(inst_point@),
        },
{
    let ghost itemv = item@;
    let id = item.id;
    let span = item.span;
    let ident = item.ident;
    match item.kind {
        ItemKind::Fn(b) => {
            let ghost bv = crate::ast::block_view(b);
            let ghost old_stmts = stmts_view(b.stmts@);
            proof {
                assert(itemv.kind == ItemKindV::Fn(bv));
                assert(bv.stmts == old_stmts);
            }
            let mut stmts: Vec<Stmt> = Vec::new();
            stmts.push(create_global_init());
            stmts.push(create_local_init());
            stmts.push(create_instrumentation_call(&inst_point.static_data, "GLOBAL_BEGIN"));
            let mut rest = b.stmts;
            proof {
                lemma_stmts_view(stmts@);
                lemma_stmts_view(rest@);
                assert(stmts_view(stmts@) =~= seq![
                    spec_global_init_stmt(),
                    spec_local_init_stmt(),
                    spec_inst_call(inst_point@.static_data, "GLOBAL_BEGIN"@),
                ] + old_stmts.subrange(0, 0));
                assert(stmts_view(rest@) =~= old_stmts.skip(0));
            }
            while rest.len() > 0
                invariant
                    stmts_view(stmts@) =~= seq![
                        spec_global_init_stmt(),
                        spec_local_init_stmt(),
                        spec_inst_call(inst_point@.static_data, "GLOBAL_BEGIN"@),
                    ] + old_stmts.subrange(0, old_stmts.len() - rest@.len()),
                    rest@.len() <= old_stmts.len(),
                    stmts_view(rest@) =~= old_stmts.skip(old_stmts.len() - rest@.len()),
                decreases rest@.len(),
            {
                proof {
                    lemma_stmts_view(rest@);
                    assert(stmts_view(rest@)[0] == crate::ast::stmt_view(rest@[0]));
                }
                let ghost prev = stmts_view(stmts@);
                let ghost rest_before = rest@;
                let ghost idx = old_stmts.len() - rest_before.len();
                let s0 = rest.remove(0);
                proof {
                    lemma_stmts_view(stmts@);
                    lemma_stmts_view(rest_before);
                    lemma_stmts_view(rest@);
                    assert(stmts_view(rest_before)[0] == old_stmts.skip(idx)[0]);
                    assert(old_stmts.skip(idx)[0] == old_stmts[idx]);
                    assert(crate::ast::stmt_view(s0) == old_stmts[idx]);
                    assert forall|j: int| 0 <= j < rest@.len() implies stmts_view(rest@)[j]
                        == old_stmts[idx + 1 + j] by {
                        assert(rest@[j] == rest_before[j + 1]);
                        assert(stmts_view(rest@)[j] == crate::ast::stmt_view(rest@[j]));
                        assert(crate::ast::stmt_view(rest_before[j + 1]) == stmts_view(
                            rest_before,
                        )[j + 1]);
                        assert(stmts_view(rest_before)[j + 1] == old_stmts.skip(idx)[j + 1]);
                    }
                }
                stmts.push(s0);
                proof {
                    lemma_stmts_view(stmts@);
                    assert(stmts_view(stmts@) =~= prev.push(old_stmts[idx]));
                    assert(stmts_view(rest@) =~= old_stmts.skip(idx + 1));
                }
            }
            let ghost mid = stmts_view(stmts@);
            proof {
                lemma_stmts_view(stmts@);
                assert(old_stmts.subrange(0, old_stmts.len() as int) =~= old_stmts);
                assert(mid =~= seq![
                    spec_global_init_stmt(),
                    spec_local_init_stmt(),
                    spec_inst_call(inst_point@.static_data, "GLOBAL_BEGIN"@),
                ] + old_stmts);
            }
            stmts.push(create_instrumentation_call(&inst_point.static_data, "GLOBAL_END"));
            proof {
                lemma_stmts_view(stmts@);
                assert(stmts_view(stmts@) =~= mid.push(
                    spec_inst_call(inst_point@.static_data, "GLOBAL_END"@),
                ));
            }
            let ghost mid2 = stmts_view(stmts@);
            stmts.push(create_local_clean_up());
            proof {
                lemma_stmts_view(stmts@);
                assert(stmts_view(stmts@) =~= mid2.push(spec_clean_up_stmt()));
            }
            let it2 = Item {
                id,
                span,
                ident,
                kind: ItemKind::Fn(Block { id: b.id, span: b.span, stmts }),
            };
            proof {
                lemma_stmts_view(it2.kind->Fn_0.stmts@);
                assert(stmts_view(it2.kind->Fn_0.stmts@) =~= mid.push(
                    spec_inst_call(inst_point@.static_data, "GLOBAL_END"@),
                ).push(spec_clean_up_stmt()));
                assert(crate::ast::block_view(it2.kind->Fn_0).id == bv.id);
                assert(crate::ast::block_view(it2.kind->Fn_0).span == bv.span);
                assert(crate::ast::block_view(it2.kind->Fn_0).stmts =~= seq![
                    spec_global_init_stmt(),
                    spec_local_init_stmt(),
                    spec_inst_call(inst_point@.static_data, "GLOBAL_BEGIN"@),
                ] + old_stmts + seq![
                    spec_inst_call(inst_point@.static_data, "GLOBAL_END"@),
                    spec_clean_up_stmt(),
                ]);
                assert(crate::ast::block_view(it2.kind->Fn_0) =~= (BlockV {
                    id: bv.id,
                    span: bv.span,
                    stmts: seq![
                        spec_global_init_stmt(),
                        spec_local_init_stmt(),
                        spec_inst_call(inst_point@.static_data, "GLOBAL_BEGIN"@),
                    ] + old_stmts + seq![
                        spec_inst_call(inst_point@.static_data, "GLOBAL_END"@),
                        spec_clean_up_stmt(),
                    ],
                }));
                assert(itemv.kind->Fn_0 == bv);
                assert(it2@ =~~= spec_rewrite_global_scope(itemv, inst_point@.static_data));
            }
            Result::Ok(it2)
        },
        kind => {
            proof {
                assert(!(item@.kind is Fn));
            }
            let _ = kind;
            Result::Err(error_for(inst_point))
        },
    }
}


/// Wraps begin/end probes around a call on hoisted arguments; any other
/// expression shape is a fatal contract violation.
pub fn insert_inst_call_function(e: Expr, inst_point: &crate::finder::InstPoint) -> (r: Result<
    Expr,
    RewriteError,
>)
    ensures
        match r {
            Result::Ok(e2) => e@.kind is Call && e2@ == spec_rewrite_fn_call(
                e@,
                inst_point@.static_data,
            ),
            Result::Err(er) => !(e@.kind is Call) && er@ == err_of(inst_point@),
        },
{
    let ghost ev = e@;
    match e.kind {
        ExprKind::Call(callee, args) => {
            let ghost argsv = exprs_view(args@);
            proof {
                lemma_exprs_view(args@);
            }
            let (mut block, args_vars) = extract_arguments(args);
            let inner = Expr {
                id: 0,
                span: dummy_span(),
                kind: ExprKind::Call(callee, args_vars),
            };
            proof {
                assert(inner@.kind == crate::ast::expr_kind_view(inner.kind));
                assert(ev.kind == crate::ast::expr_kind_view(e.kind));
                assert(inner@ =~~= (ExprV {
                    id: 0,
                    span: dummy_span_v(),
                    kind: ExprKindV::Call(ev.kind->Call_0, spec_arg_paths(argsv.len())),
                }));
            }
            push_envelope(&mut block, &inst_point.static_data, inner);
            let r = make_block_expr(block);
            proof {
                assert(r@ =~= spec_rewrite_fn_call(ev, inst_point@.static_data));
            }
            Result::Ok(r)
        },
        kind => {
            proof {
                assert(!(ev.kind is Call));
            }
            let _ = kind;
            Result::Err(error_for(inst_point))
        },
    }
}

/// Unwinds the receiver chain, hoists the arguments, and wraps begin/end
/// probes around the final method call; any other shape is fatal. A chain
/// that cannot be unwound leaves the expression as it stands.
pub fn insert_inst_call_method(e: Expr, inst_point: &crate::finder::InstPoint) -> (r: Result<
    Expr,
    RewriteError,
>)
    ensures
        match r {
            Result::Ok(e2) => e@.kind is MethodCall && e2@ == spec_rewrite_method_call(
                e@,
                inst_point@.static_data,
            ),
            Result::Err(er) => !(e@.kind is MethodCall) && er@ == err_of(inst_point@),
        },
{
    let ghost ev = e@;
    let id = e.id;
    let span = e.span;
    match e.kind {
        ExprKind::MethodCall(name, recv, args) => {
            let ghost argsv = exprs_view(args@);
            proof {
                lemma_exprs_view(args@);
            }
            let ghost namev = name@;
            let is_chain = match &(*recv).kind {
                ExprKind::MethodCall(_, _, _) => true,
                _ => false,
            };
            if is_chain {
                match unwind_method_chain(*recv, 0) {
                    Result::Err(recv_back) => {
                        let back = Expr {
                            id,
                            span,
                            kind: ExprKind::MethodCall(name, Box::new(recv_back), args),
                        };
                        proof {
                            assert(back@ =~~= ev);
                            assert(spec_rewrite_method_call(ev, inst_point@.static_data) == ev);
                        }
                        Result::Ok(back)
                    },
                    Result::Ok(mut block) => {
                        let ghost chain = stmts_view(block@);
                        let (mut extracted, args_vars) = extract_arguments(args);
                        proof {
                            lemma_stmts_view(block@);
                            lemma_stmts_view(extracted@);
                        }
                        let ghost blk0 = stmts_view(block@);
                        let mut i: usize = 0;
                        let n = extracted.len();
                        while extracted.len() > 0
                            invariant
                                stmts_view(block@) =~= blk0 + spec_arg_locals(argsv).subrange(
                                    0,
                                    spec_arg_locals(argsv).len() - extracted@.len(),
                                ),
                                extracted@.len() <= spec_arg_locals(argsv).len(),
                                stmts_view(extracted@) =~= spec_arg_locals(argsv).skip(
                                    spec_arg_locals(argsv).len() - extracted@.len(),
                                ),
                            decreases extracted@.len(),
                        {
                            let ghost eb = extracted@;
                            let ghost bb = stmts_view(block@);
                            let ghost k = spec_arg_locals(argsv).len() - eb.len();
                            proof {
                                lemma_stmts_view(eb);
                                assert(crate::ast::stmt_view(eb[0]) == spec_arg_locals(argsv).skip(
                                    k,
                                )[0]);
                            }
                            let s0 = extracted.remove(0);
                            proof {
                                lemma_stmts_view(extracted@);
                                lemma_stmts_view(block@);
                                assert forall|j: int| 0 <= j < extracted@.len() implies stmts_view(
                                    extracted@,
                                )[j] == spec_arg_locals(argsv).skip(k)[j + 1] by {
                                    assert(extracted@[j] == eb[j + 1]);
                                    assert(crate::ast::stmt_view(eb[j + 1]) == stmts_view(eb)[j
                                        + 1]);
                                }
                            }
                            block.push(s0);
                            proof {
                                lemma_stmts_view(block@);
                                assert(stmts_view(block@) =~= bb.push(
                                    spec_arg_locals(argsv)[k],
                                ));
                                assert(stmts_view(block@) =~= blk0 + spec_arg_locals(
                                    argsv,
                                ).subrange(0, k + 1));
                                assert(stmts_view(extracted@) =~= spec_arg_locals(argsv).skip(k
                                    + 1));
                            }
                        }
                        proof {
                            assert(spec_arg_locals(argsv).subrange(
                                0,
                                spec_arg_locals(argsv).len() as int,
                            ) =~= spec_arg_locals(argsv));
                            assert(stmts_view(block@) =~= chain + spec_arg_locals(argsv));
                        }
                        let inner = Expr {
                            id: 0,
                            span,
                            kind: ExprKind::MethodCall(
                                name,
                                Box::new(make_var_expr(make_inter_var(0))),
                                args_vars,
                            ),
                        };
                        proof {
                            assert(inner@.kind == crate::ast::expr_kind_view(inner.kind));
                            assert(ev.kind == crate::ast::expr_kind_view(e.kind));
                            assert(inner@ =~~= (ExprV {
                                id: 0,
                                span: ev.span,
                                kind: ExprKindV::MethodCall(
                                    namev,
                                    Box::new(sv_var_expr(inter_var_name(0))),
                                    spec_arg_paths(argsv.len()),
                                ),
                            }));
                        }
                        push_envelope(&mut block, &inst_point.static_data, inner);
                        let r = make_block_expr(block);
                        proof {
                            assert(r@ =~= spec_rewrite_method_call(ev, inst_point@.static_data));
                        }
                        Result::Ok(r)
                    },
                }
            } else {
                let (mut block, args_vars) = extract_arguments(args);
                let inner = Expr {
                    id: 0,
                    span,
                    kind: ExprKind::MethodCall(name, recv, args_vars),
                };
                proof {
                    assert(inner@.kind == crate::ast::expr_kind_view(inner.kind));
                    assert(ev.kind == crate::ast::expr_kind_view(e.kind));
                    assert(inner@ =~~= (ExprV {
                        id: 0,
                        span: ev.span,
                        kind: ExprKindV::MethodCall(
                            namev,
                            ev.kind->MethodCall_1,
                            spec_arg_paths(argsv.len()),
                        ),
                    }));
                }
                push_envelope(&mut block, &inst_point.static_data, inner);
                let r = make_block_expr(block);
                proof {
                    assert(r@ =~= spec_rewrite_method_call(ev, inst_point@.static_data));
                }
                Result::Ok(r)
            }
        },
        kind => {
            proof {
                assert(!(ev.kind is MethodCall));
            }
            let _ = kind;
            Result::Err(error_for(inst_point))
        },
    }
}

/// Wraps the body of one closure argument for the thread-local scope; every
/// other argument is handed back as it stands.
fn wrap_closure_arg(static_data: &StaticData, a: Expr) -> (r: Expr)
    ensures
        r@ == spec_wrap_closure_arg(static_data@, a@),
{
    let ghost av = a@;
    let id = a.id;
    let span = a.span;
    match a.kind {
        ExprKind::Closure(body) => {
            let mut stmts: Vec<Stmt> = Vec::new();
            stmts.push(create_local_init());
            stmts.push(create_instrumentation_call(static_data, "LOCAL_BEGIN"));
            stmts.push(make_local_stmt("instrumentation_return_value".to_owned(), *body));
            stmts.push(create_instrumentation_call(static_data, "LOCAL_END"));
            stmts.push(create_return_value());
            proof {
                lemma_stmts_view(stmts@);
                assert(stmts_view(stmts@) =~= seq![
                    spec_local_init_stmt(),
                    spec_inst_call(static_data@, "LOCAL_BEGIN"@),
                    sv_local_stmt(ret_var_name(), *av.kind->Closure_0),
                    spec_inst_call(static_data@, "LOCAL_END"@),
                    spec_return_value_stmt(),
                ]);
            }
            let wrapped = make_block_expr(stmts);
            let r = Expr { id, span, kind: ExprKind::Closure(Box::new(wrapped)) };
            proof {
                assert(r@.kind == crate::ast::expr_kind_view(r.kind));
                assert(av.kind == crate::ast::expr_kind_view(a.kind));
                assert(r@ =~~= spec_wrap_closure_arg(static_data@, av));
            }
            r
        },
        kind => {
            let r = Expr { id, span, kind };
            proof {
                assert(r@.kind == crate::ast::expr_kind_view(r.kind));
                assert(r@ =~~= av);
                assert(spec_wrap_closure_arg(static_data@, av) == av);
            }
            r
        },
    }
}

/// Wraps every closure among the given expressions.
fn wrap_closure_args(static_data: &StaticData, args: Vec<Expr>) -> (r: Vec<Expr>)
    ensures
        exprs_view(r@) == spec_wrap_args(static_data@, exprs_view(args@)),
{
    let ghost argsv = exprs_view(args@);
    proof {
        lemma_exprs_view(args@);
    }
    let mut args = args;
    let mut out: Vec<Expr> = Vec::new();
    while args.len() > 0
        invariant
            exprs_view(args@) =~= argsv.skip(argsv.len() - args@.len()),
            args@.len() <= argsv.len(),
            exprs_view(out@) =~= spec_wrap_args(static_data@, argsv).subrange(
                0,
                argsv.len() - args@.len(),
            ),
        decreases args@.len(),
    {
        let ghost ab = args@;
        let ghost ob = exprs_view(out@);
        let ghost k = argsv.len() - ab.len();
        proof {
            lemma_exprs_view(ab);
            assert(crate::ast::expr_view(ab[0]) == argsv.skip(k)[0]);
        }
        let a = args.remove(0);
        proof {
            lemma_exprs_view(args@);
            assert forall|j: int| 0 <= j < args@.len() implies exprs_view(args@)[j] == argsv.skip(
                k,
            )[j + 1] by {
                assert(args@[j] == ab[j + 1]);
                assert(crate::ast::expr_view(ab[j + 1]) == exprs_view(ab)[j + 1]);
            }
            lemma_exprs_view(out@);
        }
        out.push(wrap_closure_arg(static_data, a));
        proof {
            lemma_exprs_view(out@);
            assert(exprs_view(out@) =~= ob.push(spec_wrap_closure_arg(static_data@, argsv[k])));
            assert(exprs_view(out@) =~= spec_wrap_args(static_data@, argsv).subrange(0, k + 1));
            assert(exprs_view(args@) =~= argsv.skip(k + 1));
        }
    }
    proof {
        assert(spec_wrap_args(static_data@, argsv).subrange(
            0,
            spec_wrap_args(static_data@, argsv).len() as int,
        ) =~= spec_wrap_args(static_data@, argsv));
        assert(exprs_view(out@) =~= spec_wrap_args(static_data@, argsv));
    }
    out
}

/// Wraps thread-local init and teardown into the closure bodies of a spawn
/// call and the general envelope around the whole call; any other shape is a
/// fatal contract violation.
pub fn insert_local_scope(e: Expr, inst_point: &crate::finder::InstPoint) -> (r: Result<
    Expr,
    RewriteError,
>)
    ensures
        match r {
            Result::Ok(e2) => (e@.kind is Call || e@.kind is MethodCall) && e2@
                == spec_rewrite_local_scope(e@, inst_point@.static_data),
            Result::Err(er) => !(e@.kind is Call) && !(e@.kind is MethodCall) && er@ == err_of(
                inst_point@,
            ),
        },
{
    let ghost ev = e@;
    let id = e.id;
    let span = e.span;
    match e.kind {
        ExprKind::Call(callee, args) => {
            let new_args = wrap_closure_args(&inst_point.static_data, args);
            let inner = Expr { id, span, kind: ExprKind::Call(callee, new_args) };
            proof {
                assert(inner@.kind == crate::ast::expr_kind_view(inner.kind));
                assert(ev.kind == crate::ast::expr_kind_view(e.kind));
                assert(inner@ =~~= (ExprV {
                    id: ev.id,
                    span: ev.span,
                    kind: ExprKindV::Call(
                        ev.kind->Call_0,
                        spec_wrap_args(inst_point@.static_data, ev.kind->Call_1),
                    ),
                }));
            }
            let mut block: Vec<Stmt> = Vec::new();
            push_envelope(&mut block, &inst_point.static_data, inner);
            let r = make_block_expr(block);
            proof {
                assert(stmts_view(block@) =~= Seq::<StmtV>::empty() + spec_envelope(
                    inst_point@.static_data,
                    inner@,
                ));
                assert(stmts_view(block@) =~= spec_envelope(inst_point@.static_data, inner@));
                assert(r@ =~= spec_rewrite_local_scope(ev, inst_point@.static_data));
            }
            Result::Ok(r)
        },
        ExprKind::MethodCall(name, recv, args) => {
            let new_recv = wrap_closure_arg(&inst_point.static_data, *recv);
            let new_args = wrap_closure_args(&inst_point.static_data, args);
            let inner = Expr {
                id,
                span,
                kind: ExprKind::MethodCall(name, Box::new(new_recv), new_args),
            };
            proof {
                assert(inner@.kind == crate::ast::expr_kind_view(inner.kind));
                assert(ev.kind == crate::ast::expr_kind_view(e.kind));
                assert(inner@ =~~= (ExprV {
                    id: ev.id,
                    span: ev.span,
                    kind: ExprKindV::MethodCall(
                        ev.kind->MethodCall_0,
                        Box::new(
                            spec_wrap_closure_arg(
                                inst_point@.static_data,
                                *ev.kind->MethodCall_1,
                            ),
                        ),
                        spec_wrap_args(inst_point@.static_data, ev.kind->MethodCall_2),
                    ),
                }));
            }
            let mut block: Vec<Stmt> = Vec::new();
            push_envelope(&mut block, &inst_point.static_data, inner);
            let r = make_block_expr(block);
            proof {
                assert(stmts_view(block@) =~= Seq::<StmtV>::empty() + spec_envelope(
                    inst_point@.static_data,
                    inner@,
                ));
                assert(stmts_view(block@) =~= spec_envelope(inst_point@.static_data, inner@));
                assert(r@ =~= spec_rewrite_local_scope(ev, inst_point@.static_data));
            }
            Result::Ok(r)
        },
        kind => {
            proof {
                assert(!(ev.kind is Call) && !(ev.kind is MethodCall));
            }
            let _ = kind;
            Result::Err(error_for(inst_point))
        },
    }
}


// ------------------------------------------------------------------
// Application: points are applied to the tree by node identifier, in
// reverse of the canonical order, innermost first.

pub open spec fn err_of(p: crate::finder::InstPointV) -> RewriteErrorV {
    RewriteErrorV { absolute_path: p.absolute_path, lines_begin: p.static_data.lines_begin }
}

/// The rewrite applied when the walk stands on the target node itself. A
/// point whose kind does not fit the node's shape is a fatal contract
/// violation.
pub open spec fn ap_target_expr(e: ExprV, p: crate::finder::InstPointV) -> Result<
    ExprV,
    RewriteErrorV,
> {
    match p.kind {
        crate::finder::InstKind::LocalScope => if e.kind is Call || e.kind is MethodCall {
            Result::Ok(spec_rewrite_local_scope(e, p.static_data))
        } else {
            Result::Err(err_of(p))
        },
        crate::finder::InstKind::InstCallForFunction => if e.kind is Call {
            Result::Ok(spec_rewrite_fn_call(e, p.static_data))
        } else {
            Result::Err(err_of(p))
        },
        crate::finder::InstKind::InstCallForMethod => if e.kind is MethodCall {
            Result::Ok(spec_rewrite_method_call(e, p.static_data))
        } else {
            Result::Err(err_of(p))
        },
        _ => Result::Err(err_of(p)),
    }
}

/// Walks an expression looking for the target; the first node carrying the
/// target identifier, in depth-first order, is rewritten.
pub open spec fn ap_expr(e: ExprV, p: crate::finder::InstPointV) -> Result<
    (ExprV, bool),
    RewriteErrorV,
>
    decreases e, 1int,
{
    if e.id == p.node_id {
        match ap_target_expr(e, p) {
            Result::Ok(e2) => Result::Ok((e2, true)),
            Result::Err(x) => Result::Err(x),
        }
    } else {
        match e.kind {
            ExprKindV::Call(callee, args) => match ap_expr(*callee, p) {
                Result::Err(x) => Result::Err(x),
                Result::Ok((c2, true)) => Result::Ok(
                    (ExprV { id: e.id, span: e.span, kind: ExprKindV::Call(Box::new(c2), args) },
                    true),
                ),
                Result::Ok((c2, false)) => match ap_exprs(args, p) {
                    Result::Err(x) => Result::Err(x),
                    Result::Ok((args2, f)) => Result::Ok(
                        (ExprV {
                            id: e.id,
                            span: e.span,
                            kind: ExprKindV::Call(Box::new(c2), args2),
                        }, f),
                    ),
                },
            },
            ExprKindV::MethodCall(name, recv, args) => match ap_expr(*recv, p) {
                Result::Err(x) => Result::Err(x),
                Result::Ok((r2, true)) => Result::Ok(
                    (ExprV {
                        id: e.id,
                        span: e.span,
                        kind: ExprKindV::MethodCall(name, Box::new(r2), args),
                    }, true),
                ),
                Result::Ok((r2, false)) => match ap_exprs(args, p) {
                    Result::Err(x) => Result::Err(x),
                    Result::Ok((args2, f)) => Result::Ok(
                        (ExprV {
                            id: e.id,
                            span: e.span,
                            kind: ExprKindV::MethodCall(name, Box::new(r2), args2),
                        }, f),
                    ),
                },
            },
            ExprKindV::Closure(body) => match ap_expr(*body, p) {
                Result::Err(x) => Result::Err(x),
                Result::Ok((b2, f)) => Result::Ok(
                    (ExprV {
                        id: e.id,
                        span: e.span,
                        kind: ExprKindV::Closure(Box::new(b2)),
                    }, f),
                ),
            },
            ExprKindV::Block(b) => match ap_block(b, p) {
                Result::Err(x) => Result::Err(x),
                Result::Ok((b2, f)) => Result::Ok(
                    (ExprV { id: e.id, span: e.span, kind: ExprKindV::Block(b2) }, f),
                ),
            },
            ExprKindV::MacCall(args) => match ap_exprs(args, p) {
                Result::Err(x) => Result::Err(x),
                Result::Ok((args2, f)) => Result::Ok(
                    (ExprV { id: e.id, span: e.span, kind: ExprKindV::MacCall(args2) }, f),
                ),
            },
            ExprKindV::Binary(a, b) => match ap_expr(*a, p) {
                Result::Err(x) => Result::Err(x),
                Result::Ok((a2, true)) => Result::Ok(
                    (ExprV {
                        id: e.id,
                        span: e.span,
                        kind: ExprKindV::Binary(Box::new(a2), b),
                    }, true),
                ),
                Result::Ok((a2, false)) => match ap_expr(*b, p) {
                    Result::Err(x) => Result::Err(x),
                    Result::Ok((b2, f)) => Result::Ok(
                        (ExprV {
                            id: e.id,
                            span: e.span,
                            kind: ExprKindV::Binary(Box::new(a2), Box::new(b2)),
                        }, f),
                    ),
                },
            },
            ExprKindV::Unary(a) => match ap_expr(*a, p) {
                Result::Err(x) => Result::Err(x),
                Result::Ok((a2, f)) => Result::Ok(
                    (ExprV { id: e.id, span: e.span, kind: ExprKindV::Unary(Box::new(a2)) }, f),
                ),
            },
            ExprKindV::AddrOf(a) => match ap_expr(*a, p) {
                Result::Err(x) => Result::Err(x),
                Result::Ok((a2, f)) => Result::Ok(
                    (ExprV { id: e.id, span: e.span, kind: ExprKindV::AddrOf(Box::new(a2)) }, f),
                ),
            },
            ExprKindV::Ret(oe) => match oe {
                Option::Some(a) => match ap_expr(*a, p) {
                    Result::Err(x) => Result::Err(x),
                    Result::Ok((a2, f)) => Result::Ok(
                        (ExprV {
                            id: e.id,
                            span: e.span,
                            kind: ExprKindV::Ret(Option::Some(Box::new(a2))),
                        }, f),
                    ),
                },
                Option::None => Result::Ok((e, false)),
            },
            ExprKindV::Try(a) => match ap_expr(*a, p) {
                Result::Err(x) => Result::Err(x),
                Result::Ok((a2, f)) => Result::Ok(
                    (ExprV { id: e.id, span: e.span, kind: ExprKindV::Try(Box::new(a2)) }, f),
                ),
            },
            _ => Result::Ok((e, false)),
        }
    }
}

pub open spec fn ap_exprs(s: Seq<ExprV>, p: crate::finder::InstPointV) -> Result<
    (Seq<ExprV>, bool),
    RewriteErrorV,
>
    decreases s, 0int,
{
    if s.len() == 0 {
        Result::Ok((Seq::empty(), false))
    } else {
        match ap_expr(s[0], p) {
            Result::Err(x) => Result::Err(x),
            Result::Ok((e2, true)) => Result::Ok((seq![e2] + s.drop_first(), true)),
            Result::Ok((e2, false)) => match ap_exprs(s.drop_first(), p) {
                Result::Err(x) => Result::Err(x),
                Result::Ok((t, f)) => Result::Ok((seq![e2] + t, f)),
            },
        }
    }
}

pub open spec fn ap_block(b: BlockV, p: crate::finder::InstPointV) -> Result<
    (BlockV, bool),
    RewriteErrorV,
>
    decreases b, 1int,
{
    match ap_stmts(b.stmts, p) {
        Result::Err(x) => Result::Err(x),
        Result::Ok((ss, f)) => Result::Ok((BlockV { id: b.id, span: b.span, stmts: ss }, f)),
    }
}

pub open spec fn ap_stmts(s: Seq<StmtV>, p: crate::finder::InstPointV) -> Result<
    (Seq<StmtV>, bool),
    RewriteErrorV,
>
    decreases s, 0int,
{
    if s.len() == 0 {
        Result::Ok((Seq::empty(), false))
    } else {
        match ap_stmt(s[0], p) {
            Result::Err(x) => Result::Err(x),
            Result::Ok((s2, true)) => Result::Ok((seq![s2] + s.drop_first(), true)),
            Result::Ok((s2, false)) => match ap_stmts(s.drop_first(), p) {
                Result::Err(x) => Result::Err(x),
                Result::Ok((t, f)) => Result::Ok((seq![s2] + t, f)),
            },
        }
    }
}

pub open spec fn ap_stmt(s: StmtV, p: crate::finder::InstPointV) -> Result<
    (StmtV, bool),
    RewriteErrorV,
>
    decreases s, 1int,
{
    match s.kind {
        StmtKindV::Local(name, oe) => match oe {
            Option::Some(e) => match ap_expr(e, p) {
                Result::Err(x) => Result::Err(x),
                Result::Ok((e2, f)) => Result::Ok(
                    (StmtV {
                        id: s.id,
                        span: s.span,
                        kind: StmtKindV::Local(name, Option::Some(e2)),
                    }, f),
                ),
            },
            Option::None => Result::Ok((s, false)),
        },
        StmtKindV::Semi(e) => match ap_expr(e, p) {
            Result::Err(x) => Result::Err(x),
            Result::Ok((e2, f)) => Result::Ok(
                (StmtV { id: s.id, span: s.span, kind: StmtKindV::Semi(e2) }, f),
            ),
        },
        StmtKindV::Tail(e) => match ap_expr(e, p) {
            Result::Err(x) => Result::Err(x),
            Result::Ok((e2, f)) => Result::Ok(
                (StmtV { id: s.id, span: s.span, kind: StmtKindV::Tail(e2) }, f),
            ),
        },
    }
}

pub open spec fn ap_item(it: ItemV, p: crate::finder::InstPointV) -> Result<
    (ItemV, bool),
    RewriteErrorV,
>
    decreases it, 2int,
{
    if it.id == p.node_id {
        if p.kind == crate::finder::InstKind::GlobalScope {
            if it.kind is Fn {
                Result::Ok((spec_rewrite_global_scope(it, p.static_data), true))
            } else {
                Result::Err(err_of(p))
            }
        } else {
            Result::Err(err_of(p))
        }
    } else {
        match it.kind {
            ItemKindV::Fn(b) => match ap_block(b, p) {
                Result::Err(x) => Result::Err(x),
                Result::Ok((b2, f)) => Result::Ok(
                    (ItemV {
                        id: it.id,
                        span: it.span,
                        ident: it.ident,
                        kind: ItemKindV::Fn(b2),
                    }, f),
                ),
            },
            ItemKindV::Impl(iis) => match ap_impl_items(iis, p) {
                Result::Err(x) => Result::Err(x),
                Result::Ok((iis2, f)) => Result::Ok(
                    (ItemV {
                        id: it.id,
                        span: it.span,
                        ident: it.ident,
                        kind: ItemKindV::Impl(iis2),
                    }, f),
                ),
            },
            ItemKindV::ModItem(sub) => match ap_mod(sub, p) {
                Result::Err(x) => Result::Err(x),
                Result::Ok((m2, f)) => Result::Ok(
                    (ItemV {
                        id: it.id,
                        span: it.span,
                        ident: it.ident,
                        kind: ItemKindV::ModItem(m2),
                    }, f),
                ),
            },
            _ => Result::Ok((it, false)),
        }
    }
}

pub open spec fn ap_items(s: Seq<ItemV>, p: crate::finder::InstPointV) -> Result<
    (Seq<ItemV>, bool),
    RewriteErrorV,
>
    decreases s, 0int,
{
    if s.len() == 0 {
        Result::Ok((Seq::empty(), false))
    } else {
        match ap_item(s[0], p) {
            Result::Err(x) => Result::Err(x),
            Result::Ok((i2, true)) => Result::Ok((seq![i2] + s.drop_first(), true)),
            Result::Ok((i2, false)) => match ap_items(s.drop_first(), p) {
                Result::Err(x) => Result::Err(x),
                Result::Ok((t, f)) => Result::Ok((seq![i2] + t, f)),
            },
        }
    }
}

pub open spec fn ap_impl_item(ii: crate::ast::ImplItemV, p: crate::finder::InstPointV) -> Result<
    (crate::ast::ImplItemV, bool),
    RewriteErrorV,
>
    decreases ii, 1int,
{
    match ii.kind {
        crate::ast::ImplItemKindV::Method(b) => match ap_block(b, p) {
            Result::Err(x) => Result::Err(x),
            Result::Ok((b2, f)) => Result::Ok(
                (crate::ast::ImplItemV {
                    id: ii.id,
                    span: ii.span,
                    ident: ii.ident,
                    kind: crate::ast::ImplItemKindV::Method(b2),
                }, f),
            ),
        },
        crate::ast::ImplItemKindV::Other => Result::Ok((ii, false)),
    }
}

pub open spec fn ap_impl_items(s: Seq<crate::ast::ImplItemV>, p: crate::finder::InstPointV) -> Result<
    (Seq<crate::ast::ImplItemV>, bool),
    RewriteErrorV,
>
    decreases s, 0int,
{
    if s.len() == 0 {
        Result::Ok((Seq::empty(), false))
    } else {
        match ap_impl_item(s[0], p) {
            Result::Err(x) => Result::Err(x),
            Result::Ok((i2, true)) => Result::Ok((seq![i2] + s.drop_first(), true)),
            Result::Ok((i2, false)) => match ap_impl_items(s.drop_first(), p) {
                Result::Err(x) => Result::Err(x),
                Result::Ok((t, f)) => Result::Ok((seq![i2] + t, f)),
            },
        }
    }
}

pub open spec fn ap_mod(mo: ModV, p: crate::finder::InstPointV) -> Result<
    (ModV, bool),
    RewriteErrorV,
>
    decreases mo, 3int,
{
    if mo.id == p.node_id {
        if p.kind == crate::finder::InstKind::ExternCrateItem {
            Result::Ok((spec_insert_extern_crate(mo), true))
        } else {
            Result::Err(err_of(p))
        }
    } else {
        match ap_items(mo.items, p) {
            Result::Err(x) => Result::Err(x),
            Result::Ok((items2, f)) => Result::Ok(
                (ModV { id: mo.id, span: mo.span, items: items2 }, f),
            ),
        }
    }
}

/// One point applied to the whole tree. A target that is not found is a
/// fatal contract violation, like a shape mismatch.
pub open spec fn spec_apply_point(c: crate::ast::CrateV, p: crate::finder::InstPointV) -> Result<
    crate::ast::CrateV,
    RewriteErrorV,
> {
    match ap_mod(c.module, p) {
        Result::Err(x) => Result::Err(x),
        Result::Ok((m2, true)) => Result::Ok(crate::ast::CrateV { module: m2 }),
        Result::Ok((m2, false)) => Result::Err(err_of(p)),
    }
}

/// All points applied, last in the order first, so that an outer node is
/// never rewritten before a node contained in it.
pub open spec fn spec_apply_all(
    c: crate::ast::CrateV,
    pts: Seq<crate::finder::InstPointV>,
) -> Result<crate::ast::CrateV, RewriteErrorV>
    decreases pts.len(),
{
    if pts.len() == 0 {
        Result::Ok(c)
    } else {
        match spec_apply_point(c, pts.last()) {
            Result::Err(x) => Result::Err(x),
            Result::Ok(c2) => spec_apply_all(c2, pts.drop_last()),
        }
    }
}

/// The whole pass over one tree: resolve, find, then apply every point.
pub open spec fn spec_instrument_crate(c: crate::ast::CrateV, c2m: crate::resolver::Pairs) -> Result<
    crate::ast::CrateV,
    RewriteErrorV,
> {
    spec_apply_all(
        c,
        crate::finder::spec_find_points(crate::resolver::spec_resolve_crate(c), c2m, c),
    )
}


fn apply_target_expr(e: Expr, p: &crate::finder::InstPoint) -> (r: Result<Expr, RewriteError>)
    ensures
        match r {
            Result::Ok(e2) => ap_target_expr(e@, p@) == Result::<ExprV, RewriteErrorV>::Ok(e2@),
            Result::Err(x) => ap_target_expr(e@, p@) == Result::<ExprV, RewriteErrorV>::Err(x@),
        },
{
    match p.kind {
        crate::finder::InstKind::LocalScope => match insert_local_scope(e, p) {
            Result::Ok(e2) => Result::Ok(e2),
            Result::Err(x) => Result::Err(x),
        },
        crate::finder::InstKind::InstCallForFunction => match insert_inst_call_function(e, p) {
            Result::Ok(e2) => Result::Ok(e2),
            Result::Err(x) => Result::Err(x),
        },
        crate::finder::InstKind::InstCallForMethod => match insert_inst_call_method(e, p) {
            Result::Ok(e2) => Result::Ok(e2),
            Result::Err(x) => Result::Err(x),
        },
        _ => Result::Err(error_for(p)),
    }
}

#[verifier::rlimit(100)]
fn apply_expr(e: Expr, p: &crate::finder::InstPoint) -> (r: Result<(Expr, bool), RewriteError>)
    ensures
        match r {
            Result::Ok(nf) => ap_expr(e@, p@) == Result::<(ExprV, bool), RewriteErrorV>::Ok(
                (nf.0@, nf.1),
            ),
            Result::Err(x) => ap_expr(e@, p@) == Result::<(ExprV, bool), RewriteErrorV>::Err(x@),
        },
    decreases e, 1int,
{
    let ghost ev = e@;
    if e.id == p.node_id {
        match apply_target_expr(e, p) {
            Result::Ok(e2) => Result::Ok((e2, true)),
            Result::Err(x) => Result::Err(x),
        }
    } else {
        let id = e.id;
        let span = e.span;
        proof {
            assert(ev.kind == crate::ast::expr_kind_view(e.kind));
        }
        match e.kind {
            ExprKind::Call(callee, args) => {
                match apply_expr(*callee, p) {
                    Result::Err(x) => Result::Err(x),
                    Result::Ok((c2, true)) => {
                        let r = Expr { id, span, kind: ExprKind::Call(Box::new(c2), args) };
                        proof {
                            assert(r@.kind == crate::ast::expr_kind_view(r.kind));
                            assert(r@ =~~= (ExprV {
                                id: ev.id,
                                span: ev.span,
                                kind: ExprKindV::Call(Box::new(c2@), ev.kind->Call_1),
                            }));
                        }
                        Result::Ok((r, true))
                    },
                    Result::Ok((c2, false)) => match apply_exprs(args, p) {
                        Result::Err(x) => Result::Err(x),
                        Result::Ok((args2, f)) => {
                            let ghost args2v = exprs_view(args2@);
                            let r = Expr { id, span, kind: ExprKind::Call(Box::new(c2), args2) };
                            proof {
                                assert(r@.kind == crate::ast::expr_kind_view(r.kind));
                                assert(r@ =~~= (ExprV {
                                    id: ev.id,
                                    span: ev.span,
                                    kind: ExprKindV::Call(Box::new(c2@), args2v),
                                }));
                            }
                            Result::Ok((r, f))
                        },
                    },
                }
            },
            ExprKind::MethodCall(name, recv, args) => {
                match apply_expr(*recv, p) {
                    Result::Err(x) => Result::Err(x),
                    Result::Ok((r2, true)) => {
                        let r = Expr {
                            id,
                            span,
                            kind: ExprKind::MethodCall(name, Box::new(r2), args),
                        };
                        proof {
                            assert(r@.kind == crate::ast::expr_kind_view(r.kind));
                            assert(r@ =~~= (ExprV {
                                id: ev.id,
                                span: ev.span,
                                kind: ExprKindV::MethodCall(
                                    ev.kind->MethodCall_0,
                                    Box::new(r2@),
                                    ev.kind->MethodCall_2,
                                ),
                            }));
                        }
                        Result::Ok((r, true))
                    },
                    Result::Ok((r2, false)) => match apply_exprs(args, p) {
                        Result::Err(x) => Result::Err(x),
                        Result::Ok((args2, f)) => {
                            let ghost args2v = exprs_view(args2@);
                            let r = Expr {
                                id,
                                span,
                                kind: ExprKind::MethodCall(name, Box::new(r2), args2),
                            };
                            proof {
                                assert(r@.kind == crate::ast::expr_kind_view(r.kind));
                                assert(r@ =~~= (ExprV {
                                    id: ev.id,
                                    span: ev.span,
                                    kind: ExprKindV::MethodCall(
                                        ev.kind->MethodCall_0,
                                        Box::new(r2@),
                                        args2v,
                                    ),
                                }));
                            }
                            Result::Ok((r, f))
                        },
                    },
                }
            },
            ExprKind::Closure(body) => match apply_expr(*body, p) {
                Result::Err(x) => Result::Err(x),
                Result::Ok((b2, f)) => {
                    let r = Expr { id, span, kind: ExprKind::Closure(Box::new(b2)) };
                    proof {
                        assert(r@.kind == crate::ast::expr_kind_view(r.kind));
                        assert(r@ =~~= (ExprV {
                            id: ev.id,
                            span: ev.span,
                            kind: ExprKindV::Closure(Box::new(b2@)),
                        }));
                    }
                    Result::Ok((r, f))
                },
            },
            ExprKind::Block(b) => match apply_block(b, p) {
                Result::Err(x) => Result::Err(x),
                Result::Ok((b2, f)) => {
                    let ghost b2v = crate::ast::block_view(b2);
                    let r = Expr { id, span, kind: ExprKind::Block(b2) };
                    proof {
                        assert(r@.kind == crate::ast::expr_kind_view(r.kind));
                        assert(r@ =~~= (ExprV {
                            id: ev.id,
                            span: ev.span,
                            kind: ExprKindV::Block(b2v),
                        }));
                    }
                    Result::Ok((r, f))
                },
            },
            ExprKind::MacCall(args) => match apply_exprs(args, p) {
                Result::Err(x) => Result::Err(x),
                Result::Ok((args2, f)) => {
                    let ghost args2v = exprs_view(args2@);
                    let r = Expr { id, span, kind: ExprKind::MacCall(args2) };
                    proof {
                        assert(r@.kind == crate::ast::expr_kind_view(r.kind));
                        assert(r@ =~~= (ExprV {
                            id: ev.id,
                            span: ev.span,
                            kind: ExprKindV::MacCall(args2v),
                        }));
                    }
                    Result::Ok((r, f))
                },
            },
            ExprKind::Binary(a, b) => match apply_expr(*a, p) {
                Result::Err(x) => Result::Err(x),
                Result::Ok((a2, true)) => {
                    let r = Expr { id, span, kind: ExprKind::Binary(Box::new(a2), b) };
                    proof {
                        assert(r@.kind == crate::ast::expr_kind_view(r.kind));
                        assert(r@ =~~= (ExprV {
                            id: ev.id,
                            span: ev.span,
                            kind: ExprKindV::Binary(Box::new(a2@), ev.kind->Binary_1),
                        }));
                    }
                    Result::Ok((r, true))
                },
                Result::Ok((a2, false)) => match apply_expr(*b, p) {
                    Result::Err(x) => Result::Err(x),
                    Result::Ok((b2, f)) => {
                        let r = Expr {
                            id,
                            span,
                            kind: ExprKind::Binary(Box::new(a2), Box::new(b2)),
                        };
                        proof {
                            assert(r@.kind == crate::ast::expr_kind_view(r.kind));
                            assert(r@ =~~= (ExprV {
                                id: ev.id,
                                span: ev.span,
                                kind: ExprKindV::Binary(Box::new(a2@), Box::new(b2@)),
                            }));
                        }
                        Result::Ok((r, f))
                    },
                },
            },
            ExprKind::Unary(a) => match apply_expr(*a, p) {
                Result::Err(x) => Result::Err(x),
                Result::Ok((a2, f)) => {
                    let r = Expr { id, span, kind: ExprKind::Unary(Box::new(a2)) };
                    proof {
                        assert(r@.kind == crate::ast::expr_kind_view(r.kind));
                        assert(r@ =~~= (ExprV {
                            id: ev.id,
                            span: ev.span,
                            kind: ExprKindV::Unary(Box::new(a2@)),
                        }));
                    }
                    Result::Ok((r, f))
                },
            },
            ExprKind::AddrOf(a) => match apply_expr(*a, p) {
                Result::Err(x) => Result::Err(x),
                Result::Ok((a2, f)) => {
                    let r = Expr { id, span, kind: ExprKind::AddrOf(Box::new(a2)) };
                    proof {
                        assert(r@.kind == crate::ast::expr_kind_view(r.kind));
                        assert(r@ =~~= (ExprV {
                            id: ev.id,
                            span: ev.span,
                            kind: ExprKindV::AddrOf(Box::new(a2@)),
                        }));
                    }
                    Result::Ok((r, f))
                },
            },
            ExprKind::Ret(oe) => match oe {
                Option::Some(a) => match apply_expr(*a, p) {
                    Result::Err(x) => Result::Err(x),
                    Result::Ok((a2, f)) => {
                        let r = Expr {
                            id,
                            span,
                            kind: ExprKind::Ret(Option::Some(Box::new(a2))),
                        };
                        proof {
                            assert(r@.kind == crate::ast::expr_kind_view(r.kind));
                            assert(r@ =~~= (ExprV {
                                id: ev.id,
                                span: ev.span,
                                kind: ExprKindV::Ret(Option::Some(Box::new(a2@))),
                            }));
                        }
                        Result::Ok((r, f))
                    },
                },
                Option::None => {
                    let r = Expr { id, span, kind: ExprKind::Ret(Option::None) };
                    proof {
                        assert(r@.kind == crate::ast::expr_kind_view(r.kind));
                        assert(r@ =~~= ev);
                    }
                    Result::Ok((r, false))
                },
            },
            ExprKind::Try(a) => match apply_expr(*a, p) {
                Result::Err(x) => Result::Err(x),
                Result::Ok((a2, f)) => {
                    let r = Expr { id, span, kind: ExprKind::Try(Box::new(a2)) };
                    proof {
                        assert(r@.kind == crate::ast::expr_kind_view(r.kind));
                        assert(r@ =~~= (ExprV {
                            id: ev.id,
                            span: ev.span,
                            kind: ExprKindV::Try(Box::new(a2@)),
                        }));
                    }
                    Result::Ok((r, f))
                },
            },
            kind => {
                let r = Expr { id, span, kind };
                proof {
                    assert(r@.kind == crate::ast::expr_kind_view(r.kind));
                    assert(r@ =~~= ev);
                }
                Result::Ok((r, false))
            },
        }
    }
}

#[verifier::rlimit(100)]
fn apply_exprs(args0: Vec<Expr>, p: &crate::finder::InstPoint) -> (r: Result<
    (Vec<Expr>, bool),
    RewriteError,
>)
    ensures
        match r {
            Result::Ok(nf) => ap_exprs(exprs_view(args0@), p@) == Result::<
                (Seq<ExprV>, bool),
                RewriteErrorV,
            >::Ok((exprs_view(nf.0@), nf.1)),
            Result::Err(x) => ap_exprs(exprs_view(args0@), p@) == Result::<
                (Seq<ExprV>, bool),
                RewriteErrorV,
            >::Err(x@),
        },
    decreases args0@, 0int,
{
    let ghost argsv = exprs_view(args0@);
    let ghost a0 = args0@;
    proof {
        lemma_exprs_view(args0@);
    }
    let mut args = args0;
    if args.len() == 0 {
        proof {
            assert(argsv =~= Seq::<ExprV>::empty());
        }
        return Result::Ok((args, false));
    }
    let head = args.remove(0);
    proof {
        lemma_exprs_view(args@);
        assert(head@ == argsv[0]);
        assert(exprs_view(args@) =~= argsv.drop_first());
    }
    match apply_expr(head, p) {
        Result::Err(x) => Result::Err(x),
        Result::Ok((e2, true)) => {
            let mut out = args;
            out.insert(0, e2);
            proof {
                lemma_exprs_view(out@);
                assert(exprs_view(out@) =~= seq![e2@] + argsv.drop_first());
            }
            Result::Ok((out, true))
        },
        Result::Ok((e2, false)) => {
            proof {
                assert(args@ == a0.subrange(1, a0.len() as int));
                assert(decreases_to!(a0 => a0.subrange(1, a0.len() as int)));
            }
            match apply_exprs(args, p) {
            Result::Err(x) => Result::Err(x),
            Result::Ok((rest, f)) => {
                let ghost restv = exprs_view(rest@);
                let mut out = rest;
                out.insert(0, e2);
                proof {
                    lemma_exprs_view(out@);
                    lemma_exprs_view(rest@);
                    assert(exprs_view(out@) =~= seq![e2@] + restv);
                }
                Result::Ok((out, f))
            },
        }},
    }
}

fn apply_block(b: Block, p: &crate::finder::InstPoint) -> (r: Result<(Block, bool), RewriteError>)
    ensures
        match r {
            Result::Ok(nf) => ap_block(b@, p@) == Result::<(BlockV, bool), RewriteErrorV>::Ok(
                (nf.0@, nf.1),
            ),
            Result::Err(x) => ap_block(b@, p@) == Result::<(BlockV, bool), RewriteErrorV>::Err(
                x@,
            ),
        },
    decreases b, 2int,
{
    let ghost bv = b@;
    proof {
        assert(bv.stmts == stmts_view(b.stmts@));
    }
    match apply_stmts(b.stmts, p) {
        Result::Err(x) => Result::Err(x),
        Result::Ok((ss, f)) => {
            let ghost ssv = stmts_view(ss@);
            let b2 = Block { id: b.id, span: b.span, stmts: ss };
            proof {
                assert(b2@ =~~= (BlockV { id: bv.id, span: bv.span, stmts: ssv }));
            }
            Result::Ok((b2, f))
        },
    }
}

#[verifier::rlimit(100)]
fn apply_stmts(ss0: Vec<Stmt>, p: &crate::finder::InstPoint) -> (r: Result<
    (Vec<Stmt>, bool),
    RewriteError,
>)
    ensures
        match r {
            Result::Ok(nf) => ap_stmts(stmts_view(ss0@), p@) == Result::<
                (Seq<StmtV>, bool),
                RewriteErrorV,
            >::Ok((stmts_view(nf.0@), nf.1)),
            Result::Err(x) => ap_stmts(stmts_view(ss0@), p@) == Result::<
                (Seq<StmtV>, bool),
                RewriteErrorV,
            >::Err(x@),
        },
    decreases ss0@, 0int,
{
    let ghost ssv = stmts_view(ss0@);
    let ghost a0 = ss0@;
    proof {
        lemma_stmts_view(ss0@);
    }
    let mut ss = ss0;
    if ss.len() == 0 {
        proof {
            assert(ssv =~= Seq::<StmtV>::empty());
        }
        return Result::Ok((ss, false));
    }
    let head = ss.remove(0);
    proof {
        lemma_stmts_view(ss@);
        assert(head@ == ssv[0]);
        assert(stmts_view(ss@) =~= ssv.drop_first());
    }
    match apply_stmt(head, p) {
        Result::Err(x) => Result::Err(x),
        Result::Ok((s2, true)) => {
            let mut out = ss;
            out.insert(0, s2);
            proof {
                lemma_stmts_view(out@);
                assert(stmts_view(out@) =~= seq![s2@] + ssv.drop_first());
            }
            Result::Ok((out, true))
        },
        Result::Ok((s2, false)) => {
            proof {
                assert(ss@ == a0.subrange(1, a0.len() as int));
                assert(decreases_to!(a0 => a0.subrange(1, a0.len() as int)));
            }
            match apply_stmts(ss, p) {
            Result::Err(x) => Result::Err(x),
            Result::Ok((rest, f)) => {
                let ghost restv = stmts_view(rest@);
                let mut out = rest;
                out.insert(0, s2);
                proof {
                    lemma_stmts_view(out@);
                    lemma_stmts_view(rest@);
                    assert(stmts_view(out@) =~= seq![s2@] + restv);
                }
                Result::Ok((out, f))
            },
        }},
    }
}

#[verifier::rlimit(100)]
fn apply_stmt(s: Stmt, p: &crate::finder::InstPoint) -> (r: Result<(Stmt, bool), RewriteError>)
    ensures
        match r {
            Result::Ok(nf) => ap_stmt(s@, p@) == Result::<(StmtV, bool), RewriteErrorV>::Ok(
                (nf.0@, nf.1),
            ),
            Result::Err(x) => ap_stmt(s@, p@) == Result::<(StmtV, bool), RewriteErrorV>::Err(x@),
        },
    decreases s, 1int,
{
    let ghost sv = s@;
    let id = s.id;
    let span = s.span;
    match s.kind {
        StmtKind::Local(name, oe) => match oe {
            Option::Some(e) => match apply_expr(e, p) {
                Result::Err(x) => Result::Err(x),
                Result::Ok((e2, f)) => {
                    let s2 = Stmt {
                        id,
                        span,
                        kind: StmtKind::Local(name, Option::Some(e2)),
                    };
                    proof {
                        assert(s2@ =~~= (StmtV {
                            id: sv.id,
                            span: sv.span,
                            kind: StmtKindV::Local(sv.kind->Local_0, Option::Some(e2@)),
                        }));
                    }
                    Result::Ok((s2, f))
                },
            },
            Option::None => {
                let s2 = Stmt { id, span, kind: StmtKind::Local(name, Option::None) };
                proof {
                    assert(s2@ =~~= sv);
                }
                Result::Ok((s2, false))
            },
        },
        StmtKind::Semi(e) => match apply_expr(e, p) {
            Result::Err(x) => Result::Err(x),
            Result::Ok((e2, f)) => {
                let s2 = Stmt { id, span, kind: StmtKind::Semi(e2) };
                proof {
                    assert(s2@ =~~= (StmtV {
                        id: sv.id,
                        span: sv.span,
                        kind: StmtKindV::Semi(e2@),
                    }));
                }
                Result::Ok((s2, f))
            },
        },
        StmtKind::Tail(e) => match apply_expr(e, p) {
            Result::Err(x) => Result::Err(x),
            Result::Ok((e2, f)) => {
                let s2 = Stmt { id, span, kind: StmtKind::Tail(e2) };
                proof {
                    assert(s2@ =~~= (StmtV {
                        id: sv.id,
                        span: sv.span,
                        kind: StmtKindV::Tail(e2@),
                    }));
                }
                Result::Ok((s2, f))
            },
        },
    }
}

#[verifier::rlimit(100)]
fn apply_item(it: Item, p: &crate::finder::InstPoint) -> (r: Result<(Item, bool), RewriteError>)
    ensures
        match r {
            Result::Ok(nf) => ap_item(it@, p@) == Result::<(ItemV, bool), RewriteErrorV>::Ok(
                (nf.0@, nf.1),
            ),
            Result::Err(x) => ap_item(it@, p@) == Result::<(ItemV, bool), RewriteErrorV>::Err(
                x@,
            ),
        },
    decreases it, 3int,
{
    let ghost itv = it@;
    if it.id == p.node_id {
        if (match p.kind {
            crate::finder::InstKind::GlobalScope => true,
            _ => false,
        }) {
            match insert_global_scope(it, p) {
                Result::Ok(it2) => Result::Ok((it2, true)),
                Result::Err(x) => Result::Err(x),
            }
        } else {
            Result::Err(error_for(p))
        }
    } else {
        let id = it.id;
        let span = it.span;
        let ident = it.ident;
        proof {
            assert(itv.kind == match it.kind {
                ItemKind::Fn(b) => ItemKindV::Fn(crate::ast::block_view(b)),
                ItemKind::ExternCrate(o) => itv.kind,
                ItemKind::Use(u) => itv.kind,
                ItemKind::Impl(iis) => ItemKindV::Impl(crate::ast::impl_items_view(iis@)),
                ItemKind::ModItem(m) => ItemKindV::ModItem(crate::ast::mod_view(m)),
                ItemKind::Other => itv.kind,
            });
        }
        match it.kind {
            ItemKind::Fn(b) => match apply_block(b, p) {
                Result::Err(x) => Result::Err(x),
                Result::Ok((b2, f)) => {
                    let ghost b2v = b2@;
                    let it2 = Item { id, span, ident, kind: ItemKind::Fn(b2) };
                    proof {
                        assert(it2@ =~~= (ItemV {
                            id: itv.id,
                            span: itv.span,
                            ident: itv.ident,
                            kind: ItemKindV::Fn(b2v),
                        }));
                    }
                    Result::Ok((it2, f))
                },
            },
            ItemKind::Impl(iis) => match apply_impl_items(iis, p) {
                Result::Err(x) => Result::Err(x),
                Result::Ok((iis2, f)) => {
                    let ghost iis2v = crate::ast::impl_items_view(iis2@);
                    let it2 = Item { id, span, ident, kind: ItemKind::Impl(iis2) };
                    proof {
                        assert(it2@ =~~= (ItemV {
                            id: itv.id,
                            span: itv.span,
                            ident: itv.ident,
                            kind: ItemKindV::Impl(iis2v),
                        }));
                    }
                    Result::Ok((it2, f))
                },
            },
            ItemKind::ModItem(sub) => match apply_mod(sub, p) {
                Result::Err(x) => Result::Err(x),
                Result::Ok((m2, f)) => {
                    let ghost m2v = m2@;
                    let it2 = Item { id, span, ident, kind: ItemKind::ModItem(m2) };
                    proof {
                        assert(it2@ =~~= (ItemV {
                            id: itv.id,
                            span: itv.span,
                            ident: itv.ident,
                            kind: ItemKindV::ModItem(m2v),
                        }));
                    }
                    Result::Ok((it2, f))
                },
            },
            kind => {
                let it2 = Item { id, span, ident, kind };
                proof {
                    assert(it2@ =~~= itv);
                }
                Result::Ok((it2, false))
            },
        }
    }
}

#[verifier::rlimit(100)]
fn apply_items(items0: Vec<Item>, p: &crate::finder::InstPoint) -> (r: Result<
    (Vec<Item>, bool),
    RewriteError,
>)
    ensures
        match r {
            Result::Ok(nf) => ap_items(crate::ast::items_view(items0@), p@) == Result::<
                (Seq<ItemV>, bool),
                RewriteErrorV,
            >::Ok((crate::ast::items_view(nf.0@), nf.1)),
            Result::Err(x) => ap_items(crate::ast::items_view(items0@), p@) == Result::<
                (Seq<ItemV>, bool),
                RewriteErrorV,
            >::Err(x@),
        },
    decreases items0@, 0int,
{
    let ghost itemsv = crate::ast::items_view(items0@);
    let ghost a0 = items0@;
    proof {
        crate::ast::lemma_items_view(items0@);
    }
    let mut items = items0;
    if items.len() == 0 {
        proof {
            assert(itemsv =~= Seq::<ItemV>::empty());
        }
        return Result::Ok((items, false));
    }
    let head = items.remove(0);
    proof {
        crate::ast::lemma_items_view(items@);
        assert(head@ == itemsv[0]);
        assert(crate::ast::items_view(items@) =~= itemsv.drop_first());
    }
    match apply_item(head, p) {
        Result::Err(x) => Result::Err(x),
        Result::Ok((i2, true)) => {
            let mut out = items;
            out.insert(0, i2);
            proof {
                crate::ast::lemma_items_view(out@);
                assert(crate::ast::items_view(out@) =~= seq![i2@] + itemsv.drop_first());
            }
            Result::Ok((out, true))
        },
        Result::Ok((i2, false)) => {
            proof {
                assert(items@ == a0.subrange(1, a0.len() as int));
                assert(decreases_to!(a0 => a0.subrange(1, a0.len() as int)));
            }
            match apply_items(items, p) {
            Result::Err(x) => Result::Err(x),
            Result::Ok((rest, f)) => {
                let ghost restv = crate::ast::items_view(rest@);
                let mut out = rest;
                out.insert(0, i2);
                proof {
                    crate::ast::lemma_items_view(out@);
                    crate::ast::lemma_items_view(rest@);
                    assert(crate::ast::items_view(out@) =~= seq![i2@] + restv);
                }
                Result::Ok((out, f))
            },
        }},
    }
}

fn apply_impl_item(ii: crate::ast::ImplItem, p: &crate::finder::InstPoint) -> (r: Result<
    (crate::ast::ImplItem, bool),
    RewriteError,
>)
    ensures
        match r {
            Result::Ok(nf) => ap_impl_item(ii@, p@) == Result::<
                (crate::ast::ImplItemV, bool),
                RewriteErrorV,
            >::Ok((nf.0@, nf.1)),
            Result::Err(x) => ap_impl_item(ii@, p@) == Result::<
                (crate::ast::ImplItemV, bool),
                RewriteErrorV,
            >::Err(x@),
        },
    decreases ii, 1int,
{
    let ghost iiv = ii@;
    let id = ii.id;
    let span = ii.span;
    let ident = ii.ident;
    match ii.kind {
        crate::ast::ImplItemKind::Method(b) => match apply_block(b, p) {
            Result::Err(x) => Result::Err(x),
            Result::Ok((b2, f)) => {
                let ghost b2v = b2@;
                let ii2 = crate::ast::ImplItem {
                    id,
                    span,
                    ident,
                    kind: crate::ast::ImplItemKind::Method(b2),
                };
                proof {
                    assert(ii2@ =~~= (crate::ast::ImplItemV {
                        id: iiv.id,
                        span: iiv.span,
                        ident: iiv.ident,
                        kind: crate::ast::ImplItemKindV::Method(b2v),
                    }));
                }
                Result::Ok((ii2, f))
            },
        },
        crate::ast::ImplItemKind::Other => {
            let ii2 = crate::ast::ImplItem {
                id,
                span,
                ident,
                kind: crate::ast::ImplItemKind::Other,
            };
            proof {
                assert(ii2@ =~~= iiv);
            }
            Result::Ok((ii2, false))
        },
    }
}

#[verifier::rlimit(100)]
fn apply_impl_items(iis0: Vec<crate::ast::ImplItem>, p: &crate::finder::InstPoint) -> (r: Result<
    (Vec<crate::ast::ImplItem>, bool),
    RewriteError,
>)
    ensures
        match r {
            Result::Ok(nf) => ap_impl_items(crate::ast::impl_items_view(iis0@), p@) == Result::<
                (Seq<crate::ast::ImplItemV>, bool),
                RewriteErrorV,
            >::Ok((crate::ast::impl_items_view(nf.0@), nf.1)),
            Result::Err(x) => ap_impl_items(crate::ast::impl_items_view(iis0@), p@) == Result::<
                (Seq<crate::ast::ImplItemV>, bool),
                RewriteErrorV,
            >::Err(x@),
        },
    decreases iis0@, 0int,
{
    let ghost iisv = crate::ast::impl_items_view(iis0@);
    let ghost a0 = iis0@;
    proof {
        crate::ast::lemma_impl_items_view(iis0@);
    }
    let mut iis = iis0;
    if iis.len() == 0 {
        proof {
            assert(iisv =~= Seq::<crate::ast::ImplItemV>::empty());
        }
        return Result::Ok((iis, false));
    }
    let head = iis.remove(0);
    proof {
        crate::ast::lemma_impl_items_view(iis@);
        assert(head@ == iisv[0]);
        assert(crate::ast::impl_items_view(iis@) =~= iisv.drop_first());
    }
    match apply_impl_item(head, p) {
        Result::Err(x) => Result::Err(x),
        Result::Ok((i2, true)) => {
            let mut out = iis;
            out.insert(0, i2);
            proof {
                crate::ast::lemma_impl_items_view(out@);
                assert(crate::ast::impl_items_view(out@) =~= seq![i2@] + iisv.drop_first());
            }
            Result::Ok((out, true))
        },
        Result::Ok((i2, false)) => {
            proof {
                assert(iis@ == a0.subrange(1, a0.len() as int));
                assert(decreases_to!(a0 => a0.subrange(1, a0.len() as int)));
            }
            match apply_impl_items(iis, p) {
            Result::Err(x) => Result::Err(x),
            Result::Ok((rest, f)) => {
                let ghost restv = crate::ast::impl_items_view(rest@);
                let mut out = rest;
                out.insert(0, i2);
                proof {
                    crate::ast::lemma_impl_items_view(out@);
                    crate::ast::lemma_impl_items_view(rest@);
                    assert(crate::ast::impl_items_view(out@) =~= seq![i2@] + restv);
                }
                Result::Ok((out, f))
            },
        }},
    }
}

fn apply_mod(mo: ModData, p: &crate::finder::InstPoint) -> (r: Result<
    (ModData, bool),
    RewriteError,
>)
    ensures
        match r {
            Result::Ok(nf) => ap_mod(mo@, p@) == Result::<(ModV, bool), RewriteErrorV>::Ok(
                (nf.0@, nf.1),
            ),
            Result::Err(x) => ap_mod(mo@, p@) == Result::<(ModV, bool), RewriteErrorV>::Err(x@),
        },
    decreases mo, 4int,
{
    let ghost mv = mo@;
    if mo.id == p.node_id {
        if (match p.kind {
            crate::finder::InstKind::ExternCrateItem => true,
            _ => false,
        }) {
            let m2 = insert_extern_crate_item(mo, p);
            proof {
                assert(m2@ == spec_insert_extern_crate(mv));
            }
            Result::Ok((m2, true))
        } else {
            Result::Err(error_for(p))
        }
    } else {
        let id = mo.id;
        let span = mo.span;
        proof {
            assert(mv.items == crate::ast::items_view(mo.items@));
        }
        match apply_items(mo.items, p) {
            Result::Err(x) => Result::Err(x),
            Result::Ok((items2, f)) => {
                let ghost items2v = crate::ast::items_view(items2@);
                let m2 = ModData { id, span, items: items2 };
                proof {
                    assert(m2@ =~~= (ModV { id: mv.id, span: mv.span, items: items2v }));
                }
                Result::Ok((m2, f))
            },
        }
    }
}

/// Applies one point to the tree; a missing target aborts like a shape
/// mismatch.
fn apply_point(krate: crate::ast::Crate, p: &crate::finder::InstPoint) -> (r: Result<
    crate::ast::Crate,
    RewriteError,
>)
    ensures
        match r {
            Result::Ok(c2) => spec_apply_point(krate@, p@) == Result::<
                crate::ast::CrateV,
                RewriteErrorV,
            >::Ok(c2@),
            Result::Err(x) => spec_apply_point(krate@, p@) == Result::<
                crate::ast::CrateV,
                RewriteErrorV,
            >::Err(x@),
        },
{
    match apply_mod(krate.module, p) {
        Result::Err(x) => Result::Err(x),
        Result::Ok((m2, true)) => Result::Ok(crate::ast::Crate { module: m2 }),
        Result::Ok((m2, false)) => Result::Err(error_for(p)),
    }
}

/// Applies every collected point, in reverse of the canonical order.
#[verifier::rlimit(100)]
#[verifier::loop_isolation(false)]
pub fn insert_instrumentations(
    points: &crate::finder::PointSet,
    krate: crate::ast::Crate,
) -> (r: Result<crate::ast::Crate, RewriteError>)
    ensures
        match r {
            Result::Ok(c2) => spec_apply_all(krate@, points@) == Result::<
                crate::ast::CrateV,
                RewriteErrorV,
            >::Ok(c2@),
            Result::Err(x) => spec_apply_all(krate@, points@) == Result::<
                crate::ast::CrateV,
                RewriteErrorV,
            >::Err(x@),
        },
{
    let ghost c0 = krate@;
    let ghost ptsv = points@;
    let mut kr = krate;
    let mut idx = points.points.len();
    proof {
        assert(ptsv.take(idx as int) =~= ptsv);
    }
    while idx > 0
        invariant
            idx <= points@.len(),
            ptsv == points@,
            spec_apply_all(c0, ptsv) == spec_apply_all(kr@, ptsv.take(idx as int)),
        decreases idx,
    {
        proof {
            assert(ptsv.take(idx as int).last() == points@[idx - 1]);
            assert(points@[idx - 1] == points.points@[idx - 1]@);
            assert(ptsv.take(idx as int).drop_last() =~= ptsv.take(idx as int - 1));
        }
        match apply_point(kr, &points.points[idx - 1]) {
            Result::Err(x) => {
                proof {
                    assert(spec_apply_all(c0, ptsv) == Result::<
                        crate::ast::CrateV,
                        RewriteErrorV,
                    >::Err(x@));
                }
                return Result::Err(x);
            },
            Result::Ok(c2) => {
                kr = c2;
            },
        }
        idx = idx - 1;
    }
    proof {
        assert(ptsv.take(0) =~= Seq::<crate::finder::InstPointV>::empty());
        assert(spec_apply_all(kr@, ptsv.take(0)) == Result::<
            crate::ast::CrateV,
            RewriteErrorV,
        >::Ok(kr@));
        assert(spec_apply_all(c0, ptsv) == Result::<crate::ast::CrateV, RewriteErrorV>::Ok(
            kr@,
        ));
    }
    Result::Ok(kr)
}

/// The whole pass: resolve names, find the points, and rewrite the tree.
pub fn instrument_crate(
    krate: crate::ast::Crate,
    code_2_monitor: Vec<(String, String)>,
) -> (r: Result<crate::ast::Crate, RewriteError>)
    ensures
        match r {
            Result::Ok(c2) => spec_instrument_crate(
                krate@,
                crate::finder::pairs_view(code_2_monitor@),
            ) == Result::<crate::ast::CrateV, RewriteErrorV>::Ok(c2@),
            Result::Err(x) => spec_instrument_crate(
                krate@,
                crate::finder::pairs_view(code_2_monitor@),
            ) == Result::<crate::ast::CrateV, RewriteErrorV>::Err(x@),
        },
{
    let ghost cv = krate@;
    let ghost c2mv = crate::finder::pairs_view(code_2_monitor@);
    let mut path_resolver = crate::resolver::PathResolver::new();
    let resolv_paths = path_resolver.find_resolv_paths(&krate);
    proof {
        assert(resolv_paths@ == crate::resolver::spec_resolve_crate(cv));
    }
    let mut inst_finder = crate::finder::InstFinder::new(resolv_paths, code_2_monitor);
    inst_finder.find_inst_points(&krate);
    proof {
        assert(inst_finder.inst_points@ == crate::finder::spec_find_points(
            crate::resolver::spec_resolve_crate(cv),
            c2mv,
            cv,
        ));
    }
    insert_instrumentations(inst_finder.get_inst_points(), krate)
}

} // verus!
