use rust_inst::ast::{
    AstPath, Block, Crate, Expr, ExprKind, Item, ItemKind, Lit, ModData, Span, Stmt, StmtKind,
};
use rust_inst::collect::Config;
use rust_inst::data::{DynData, StaticData};
use rust_inst::finder::{InstFinder, InstKind, InstPoint, PointSet};
use rust_inst::resolver::PathResolver;
use rust_inst::rewrite::instrument_crate;

fn sp(bl: u128, bc: u128, el: u128, ec: u128) -> Span {
    Span {
        file: "main.rs".to_owned(),
        begin_line: bl,
        begin_col: bc,
        end_line: el,
        end_col: ec,
    }
}

fn path_expr(id: u64, span: Span, segs: &[&str]) -> Expr {
    Expr {
        id,
        span,
        kind: ExprKind::Path(AstPath { segments: segs.iter().map(|s| s.to_string()).collect() }),
    }
}

fn int_lit(id: u64, span: Span, n: u128) -> Expr {
    Expr { id, span, kind: ExprKind::Lit(Lit::Int(n)) }
}

fn call(id: u64, span: Span, callee: Expr, args: Vec<Expr>) -> Expr {
    Expr { id, span, kind: ExprKind::Call(Box::new(callee), args) }
}

fn method_call(id: u64, span: Span, name: &str, recv: Expr, args: Vec<Expr>) -> Expr {
    Expr { id, span, kind: ExprKind::MethodCall(name.to_owned(), Box::new(recv), args) }
}

fn fn_item(id: u64, span: Span, name: &str, stmts: Vec<Stmt>) -> Item {
    Item {
        id: id,
        span: span.clone(),
        ident: name.to_owned(),
        kind: ItemKind::Fn(Block { id: id + 1000, span, stmts }),
    }
}

fn one_fn_crate(name: &str, stmts: Vec<Stmt>) -> Crate {
    Crate {
        module: ModData {
            id: 1,
            span: sp(1, 0, 100, 0),
            items: vec![fn_item(2, sp(2, 0, 99, 0), name, stmts)],
        },
    }
}

fn config(pairs: &[(&str, &str)]) -> Vec<(String, String)> {
    pairs.iter().map(|(a, b)| (a.to_string(), b.to_string())).collect()
}

/// The statements of the function body after a rewrite.
fn body_of(c: &Crate) -> &Vec<Stmt> {
    match &c.module.items[0].kind {
        ItemKind::Fn(b) => &b.stmts,
        _ => panic!("expected a function item"),
    }
}

/// Whether a statement is a probe call with the given description literal,
/// and if so, the absolute path literal it carries.
fn probe_desc(s: &Stmt) -> Option<(String, String)> {
    if let StmtKind::Semi(e) = &s.kind {
        if let ExprKind::Call(callee, args) = &e.kind {
            if let ExprKind::Path(p) = &callee.kind {
                if p.segments == vec!["instrument".to_string(), "instrument".to_string()] {
                    if let ExprKind::Call(_, sd_args) = &args[0].kind {
                        let path = match &sd_args[0].kind {
                            ExprKind::Lit(Lit::Str(s)) => s.clone(),
                            _ => panic!("expected a path literal"),
                        };
                        let desc = match &sd_args[1].kind {
                            ExprKind::Lit(Lit::Str(s)) => s.clone(),
                            _ => panic!("expected a description literal"),
                        };
                        return Some((path, desc));
                    }
                }
            }
        }
    }
    None
}

fn count_probes(stmts: &[Stmt], desc: &str) -> usize {
    stmts
        .iter()
        .filter(|s| matches!(probe_desc(s), Some((_, d)) if d == desc))
        .count()
}

#[test]
fn it_works() {
    assert_eq!(2 + 2, 4);
}

#[test]
fn check() {
    let sd = StaticData::new("hello", "BEGIN", 3, "main.rs", 10, 12);
    assert_eq!(sd.absolute_path, "hello");
    assert_eq!(sd.description, "BEGIN");
    assert_eq!(sd.ast_depth, 3);
    assert_eq!(sd.lines_begin, 10);
    assert_eq!(sd.lines_end, 12);
    let mut dd = DynData::new("machine-a", 42, "ThreadId(1)");
    assert_eq!(dd.counter, 0);
    assert_eq!(dd.pid, 42);
    dd.update();
    dd.update();
    assert_eq!(dd.counter, 2);
    assert_eq!(dd.machine_id, "machine-a");
}

#[test]
fn new_test() {
    // An empty configuration instruments nothing: the tree comes back as it
    // went in.
    let stmts = vec![Stmt {
        id: 10,
        span: sp(3, 4, 3, 20),
        kind: StmtKind::Semi(call(
            11,
            sp(3, 4, 3, 19),
            path_expr(12, sp(3, 4, 3, 9), &["hello"]),
            vec![int_lit(13, sp(3, 10, 3, 11), 1)],
        )),
    }];
    let krate = one_fn_crate("main", stmts);
    let out = instrument_crate(krate, config(&[])).expect("no rewrite should fail");
    let body = body_of(&out);
    assert_eq!(body.len(), 1);
    assert_eq!(count_probes(body, "BEGIN"), 0);
    match &body[0].kind {
        StmtKind::Semi(e) => match &e.kind {
            ExprKind::Call(callee, args) => {
                assert!(matches!(&callee.kind,
                    ExprKind::Path(p) if p.segments == vec!["hello".to_string()]));
                assert_eq!(args.len(), 1);
            },
            _ => panic!("the call should be untouched"),
        },
        _ => panic!("the statement should be untouched"),
    }
}

#[test]
fn function_call_match() {
    // let z = hello(1, 2);
    let stmts = vec![Stmt {
        id: 10,
        span: sp(3, 4, 3, 24),
        kind: StmtKind::Local(
            "z".to_owned(),
            Some(call(
                11,
                sp(3, 12, 3, 23),
                path_expr(12, sp(3, 12, 3, 17), &["hello"]),
                vec![int_lit(13, sp(3, 18, 3, 19), 1), int_lit(14, sp(3, 21, 3, 22), 2)],
            )),
        ),
    }];
    let krate = one_fn_crate("main", stmts);
    let out = instrument_crate(krate, config(&[("hello", "InstCallForFunction")])).unwrap();
    let body = body_of(&out);
    let init = match &body[0].kind {
        StmtKind::Local(name, Some(e)) => {
            assert_eq!(name, "z");
            e
        },
        _ => panic!("expected the let binding"),
    };
    let inner = match &init.kind {
        ExprKind::Block(b) => &b.stmts,
        _ => panic!("expected the envelope block"),
    };
    // Hoisted arguments in evaluation order, then begin probe, call, end
    // probe, value.
    assert_eq!(inner.len(), 6);
    assert!(matches!(&inner[0].kind,
        StmtKind::Local(n, Some(e)) if n == "instrumentation_argument_var_0"
            && matches!(&e.kind, ExprKind::Lit(Lit::Int(1)))));
    assert!(matches!(&inner[1].kind,
        StmtKind::Local(n, Some(e)) if n == "instrumentation_argument_var_1"
            && matches!(&e.kind, ExprKind::Lit(Lit::Int(2)))));
    assert_eq!(count_probes(inner, "BEGIN"), 1);
    assert_eq!(count_probes(inner, "END"), 1);
    let (path, _) = probe_desc(&inner[2]).expect("begin probe");
    assert_eq!(path, "hello");
    assert!(matches!(&inner[3].kind,
        StmtKind::Local(n, Some(_)) if n == "instrumentation_return_value"));
    assert!(matches!(&inner[5].kind,
        StmtKind::Tail(e) if matches!(&e.kind,
            ExprKind::Path(p) if p.segments == vec!["instrumentation_return_value".to_string()])));
}

#[test]
fn method_chain() {
    // S::new().do_some().hello("T").contains("H")
    let base = call(20, sp(5, 4, 5, 12), path_expr(21, sp(5, 4, 5, 10), &["S", "new"]), vec![]);
    let c1 = method_call(22, sp(5, 4, 5, 22), "do_some", base, vec![]);
    let c2 = method_call(23, sp(5, 4, 5, 33), "hello", c1, vec![Expr {
        id: 24,
        span: sp(5, 30, 5, 32),
        kind: ExprKind::Lit(Lit::Str("T".to_owned())),
    }]);
    let c3 = method_call(25, sp(5, 4, 5, 47), "contains", c2, vec![Expr {
        id: 26,
        span: sp(5, 43, 5, 46),
        kind: ExprKind::Lit(Lit::Str("H".to_owned())),
    }]);
    let stmts = vec![Stmt { id: 10, span: sp(5, 4, 5, 48), kind: StmtKind::Semi(c3) }];
    let krate = one_fn_crate("main", stmts);
    let out = instrument_crate(krate, config(&[("contains", "InstCallForMethod")])).unwrap();
    let body = body_of(&out);
    let inner = match &body[0].kind {
        StmtKind::Semi(e) => match &e.kind {
            ExprKind::Block(b) => &b.stmts,
            _ => panic!("expected the envelope block"),
        },
        _ => panic!("expected the semi statement"),
    };
    // Three intermediates, one hoisted argument, then the envelope.
    assert_eq!(inner.len(), 8);
    let local_name = |s: &Stmt| -> String {
        match &s.kind {
            StmtKind::Local(n, _) => n.clone(),
            _ => panic!("expected a let binding"),
        }
    };
    assert_eq!(local_name(&inner[0]), "instrumentation_intermediate_var_2");
    assert_eq!(local_name(&inner[1]), "instrumentation_intermediate_var_1");
    assert_eq!(local_name(&inner[2]), "instrumentation_intermediate_var_0");
    // The intermediates bind the links in evaluation order.
    assert!(matches!(&inner[0].kind,
        StmtKind::Local(_, Some(e)) if matches!(&e.kind, ExprKind::Call(_, _))));
    assert!(matches!(&inner[1].kind,
        StmtKind::Local(_, Some(e)) if matches!(&e.kind,
            ExprKind::MethodCall(m, _, _) if m == "do_some")));
    assert!(matches!(&inner[2].kind,
        StmtKind::Local(_, Some(e)) if matches!(&e.kind,
            ExprKind::MethodCall(m, _, _) if m == "hello")));
    assert_eq!(local_name(&inner[3]), "instrumentation_argument_var_0");
    assert_eq!(count_probes(inner, "BEGIN"), 1);
    assert_eq!(count_probes(inner, "END"), 1);
    assert!(matches!(&inner[5].kind,
        StmtKind::Local(n, Some(e)) if n == "instrumentation_return_value"
            && matches!(&e.kind, ExprKind::MethodCall(m, recv, _) if m == "contains"
                && matches!(&recv.kind,
                    ExprKind::Path(p) if p.segments
                        == vec!["instrumentation_intermediate_var_0".to_string()]))));
}

#[test]
fn thread_spawn_as_local_scope() {
    // spawn(|| hello(1, 2, 3)) with spawn configured as LocalScope.
    let closure_body = call(
        30,
        sp(7, 14, 7, 27),
        path_expr(31, sp(7, 14, 7, 19), &["hello"]),
        vec![
            int_lit(32, sp(7, 20, 7, 21), 1),
            int_lit(33, sp(7, 23, 7, 24), 2),
            int_lit(34, sp(7, 26, 7, 27), 3),
        ],
    );
    let closure = Expr { id: 35, span: sp(7, 11, 7, 28), kind: ExprKind::Closure(Box::new(closure_body)) };
    let spawn = call(36, sp(7, 4, 7, 29), path_expr(37, sp(7, 4, 7, 10), &["spawn"]), vec![closure]);
    let stmts = vec![Stmt { id: 10, span: sp(7, 4, 7, 30), kind: StmtKind::Semi(spawn) }];
    let krate = one_fn_crate("main", stmts);
    let out = instrument_crate(krate, config(&[("spawn", "LocalScope")])).unwrap();
    let body = body_of(&out);
    let outer = match &body[0].kind {
        StmtKind::Semi(e) => match &e.kind {
            ExprKind::Block(b) => &b.stmts,
            _ => panic!("expected the envelope block"),
        },
        _ => panic!("expected the semi statement"),
    };
    // The whole spawn call is wrapped by BEGIN/END.
    assert_eq!(count_probes(outer, "BEGIN"), 1);
    assert_eq!(count_probes(outer, "END"), 1);
    let spawn_call = match &outer[1].kind {
        StmtKind::Local(n, Some(e)) => {
            assert_eq!(n, "instrumentation_return_value");
            e
        },
        _ => panic!("expected the return binding"),
    };
    let wrapped_closure = match &spawn_call.kind {
        ExprKind::Call(_, args) => &args[0],
        _ => panic!("expected the spawn call"),
    };
    let closure_block = match &wrapped_closure.kind {
        ExprKind::Closure(b) => match &b.kind {
            ExprKind::Block(blk) => &blk.stmts,
            _ => panic!("expected the wrapped body block"),
        },
        _ => panic!("expected the closure"),
    };
    // The closure body begins with local_init and LOCAL_BEGIN, ends with
    // LOCAL_END and the value.
    assert!(matches!(&closure_block[0].kind,
        StmtKind::Local(n, Some(_)) if n == "instrumentation_local_join_handle"));
    assert!(matches!(probe_desc(&closure_block[1]), Some((_, d)) if d == "LOCAL_BEGIN"));
    assert!(matches!(&closure_block[2].kind,
        StmtKind::Local(n, Some(_)) if n == "instrumentation_return_value"));
    assert!(matches!(probe_desc(&closure_block[3]), Some((_, d)) if d == "LOCAL_END"));
    assert!(matches!(&closure_block[4].kind, StmtKind::Tail(_)));
}

#[test]
fn global_scope_on_main() {
    let stmts = vec![Stmt {
        id: 10,
        span: sp(3, 4, 3, 10),
        kind: StmtKind::Semi(int_lit(11, sp(3, 4, 3, 9), 7)),
    }];
    let krate = one_fn_crate("main", stmts);
    let out = instrument_crate(krate, config(&[("main", "GlobalScope")])).unwrap();
    let body = body_of(&out);
    assert_eq!(body.len(), 6);
    // First three: global_init();, let handle = local_init();, GLOBAL_BEGIN.
    assert!(matches!(&body[0].kind,
        StmtKind::Semi(e) if matches!(&e.kind, ExprKind::Call(callee, _)
            if matches!(&callee.kind, ExprKind::Path(p)
                if p.segments == vec!["instrument".to_string(), "global_init".to_string()]))));
    assert!(matches!(&body[1].kind,
        StmtKind::Local(n, Some(_)) if n == "instrumentation_local_join_handle"));
    assert!(matches!(probe_desc(&body[2]), Some((_, d)) if d == "GLOBAL_BEGIN"));
    // Last two: GLOBAL_END, clean_up(handle).
    assert!(matches!(probe_desc(&body[4]), Some((_, d)) if d == "GLOBAL_END"));
    assert!(matches!(&body[5].kind,
        StmtKind::Semi(e) if matches!(&e.kind, ExprKind::Call(callee, _)
            if matches!(&callee.kind, ExprKind::Path(p)
                if p.segments == vec!["instrument".to_string(), "clean_up".to_string()]))));
}

#[test]
fn nested_calls() {
    // outer(hello(1)): both configured; the inner rewrite lands inside the
    // outer's hoisted argument.
    let inner_call = call(
        40,
        sp(4, 10, 4, 18),
        path_expr(41, sp(4, 10, 4, 15), &["hello"]),
        vec![int_lit(42, sp(4, 16, 4, 17), 1)],
    );
    let outer_call = call(43, sp(4, 4, 4, 19), path_expr(44, sp(4, 4, 4, 9), &["outer"]), vec![
        inner_call,
    ]);
    let stmts = vec![Stmt { id: 10, span: sp(4, 4, 4, 20), kind: StmtKind::Semi(outer_call) }];
    let krate = one_fn_crate("main", stmts);
    let out = instrument_crate(
        krate,
        config(&[("hello", "InstCallForFunction"), ("outer", "InstCallForFunction")]),
    )
    .unwrap();
    let body = body_of(&out);
    let outer_block = match &body[0].kind {
        StmtKind::Semi(e) => match &e.kind {
            ExprKind::Block(b) => &b.stmts,
            _ => panic!("expected the outer envelope"),
        },
        _ => panic!("expected the semi statement"),
    };
    // The outer's hoisted argument holds the block substituted for the
    // inner call, not the original call.
    let arg0 = match &outer_block[0].kind {
        StmtKind::Local(n, Some(e)) => {
            assert_eq!(n, "instrumentation_argument_var_0");
            e
        },
        _ => panic!("expected the hoisted argument"),
    };
    let inner_block = match &arg0.kind {
        ExprKind::Block(b) => &b.stmts,
        _ => panic!("the inner call should have been rewritten first"),
    };
    assert_eq!(count_probes(inner_block, "BEGIN"), 1);
    assert_eq!(count_probes(inner_block, "END"), 1);
    let (path, _) = probe_desc(&inner_block[1]).expect("inner begin probe");
    assert_eq!(path, "hello");
}

#[test]
fn macro_interior_expression() {
    // A configured call inside a macro invocation is visited but never
    // rewritten.
    let inner_call = call(
        50,
        sp(4, 13, 4, 21),
        path_expr(51, sp(4, 13, 4, 18), &["hello"]),
        vec![int_lit(52, sp(4, 19, 4, 20), 1)],
    );
    let mac = Expr { id: 53, span: sp(4, 4, 4, 22), kind: ExprKind::MacCall(vec![inner_call]) };
    let stmts = vec![Stmt { id: 10, span: sp(4, 4, 4, 23), kind: StmtKind::Semi(mac) }];
    let krate = one_fn_crate("main", stmts);
    let out = instrument_crate(krate, config(&[("hello", "InstCallForFunction")])).unwrap();
    let body = body_of(&out);
    assert_eq!(body.len(), 1);
    match &body[0].kind {
        StmtKind::Semi(e) => match &e.kind {
            ExprKind::MacCall(args) => {
                // The interior call is still a plain call: no point was
                // emitted for it, so nothing was rewritten.
                assert!(matches!(&args[0].kind, ExprKind::Call(_, _)));
            },
            _ => panic!("the macro invocation should be untouched"),
        },
        _ => panic!("the statement should be untouched"),
    }
}

#[test]
fn resolver_runs_twice_identically() {
    let krate = Crate {
        module: ModData {
            id: 1,
            span: sp(1, 0, 50, 0),
            items: vec![
                Item {
                    id: 2,
                    span: sp(1, 0, 1, 20),
                    ident: "thread".to_owned(),
                    kind: ItemKind::Use("std::thread".to_owned()),
                },
                fn_item(3, sp(3, 0, 10, 0), "hello", vec![]),
            ],
        },
    };
    let mut r1 = PathResolver::new();
    let m1 = r1.find_resolv_paths(&krate);
    let mut r2 = PathResolver::new();
    let m2 = r2.find_resolv_paths(&krate);
    assert!(m1.entries == m2.entries);
    assert_eq!(m1.entries.len(), 2);
    assert!(m1.entries.contains(&("thread".to_owned(), "std::thread".to_owned())));
    assert!(m1.entries.contains(&("hello".to_owned(), "hello".to_owned())));
}

#[test]
fn resolver_canonicalises_call_names() {
    // use std::thread; plus a call thread::spawn(..) matched under its
    // canonical name std::thread::spawn.
    let spawn_call = call(
        20,
        sp(5, 4, 5, 30),
        path_expr(21, sp(5, 4, 5, 17), &["thread", "spawn"]),
        vec![],
    );
    let krate = Crate {
        module: ModData {
            id: 1,
            span: sp(1, 0, 50, 0),
            items: vec![
                Item {
                    id: 2,
                    span: sp(1, 0, 1, 20),
                    ident: "thread".to_owned(),
                    kind: ItemKind::Use("std::thread".to_owned()),
                },
                fn_item(3, sp(3, 0, 10, 0), "main", vec![Stmt {
                    id: 10,
                    span: sp(5, 4, 5, 31),
                    kind: StmtKind::Semi(spawn_call),
                }]),
            ],
        },
    };
    let mut resolver = PathResolver::new();
    let paths = resolver.find_resolv_paths(&krate);
    let mut finder = InstFinder::new(
        paths,
        config(&[("std::thread::spawn", "InstCallForFunction")]),
    );
    finder.find_inst_points(&krate);
    let pts = finder.get_inst_points();
    assert_eq!(pts.points.len(), 1);
    assert_eq!(pts.points[0].absolute_path, "std::thread::spawn");
    assert!(pts.points[0].kind == InstKind::InstCallForFunction);
}

#[test]
fn points_order_and_dedup() {
    let mk = |depth: u128, line: u128, path: &str, kind: InstKind, end: u128| InstPoint {
        kind,
        node_id: 7,
        absolute_path: path.to_owned(),
        ast_pos: (depth, line, 0),
        static_data: StaticData::new(path, "", depth, "main.rs", line, end),
    };
    let mut set = PointSet::new();
    set.insert(mk(2, 10, "b", InstKind::InstCallForFunction, 10));
    set.insert(mk(1, 5, "a", InstKind::GlobalScope, 20));
    set.insert(mk(2, 10, "a", InstKind::InstCallForFunction, 10));
    // A key-equal duplicate collapses; the first insert wins.
    set.insert(mk(2, 10, "b", InstKind::InstCallForFunction, 10));
    assert_eq!(set.points.len(), 3);
    assert_eq!(set.points[0].ast_pos, (1, 5, 0));
    assert_eq!(set.points[1].absolute_path, "a");
    assert_eq!(set.points[2].absolute_path, "b");
}

#[test]
fn collector_arguments() {
    let args = |v: &[&str]| -> Vec<String> { v.iter().map(|s| s.to_string()).collect() };
    let c = Config::new(&args(&["instcollect", "alpha"])).unwrap();
    assert_eq!(c.run_name, "run_alpha");
    assert_eq!(c.db_name, "instrumentation.db");
    assert_eq!(c.table_name, "instrumentation");
    let c = Config::new(&args(&["instcollect", "alpha", "--db", "x.db"])).unwrap();
    assert_eq!(c.db_name, "x.db");
    assert_eq!(c.table_name, "instrumentation");
    let c = Config::new(&args(&["instcollect", "alpha", "--table", "t", "--db", "x.db"])).unwrap();
    assert_eq!(c.db_name, "x.db");
    assert_eq!(c.table_name, "t");
    assert_eq!(
        Config::new(&args(&["instcollect"])).unwrap_err(),
        "not enough arguments"
    );
    assert_eq!(
        Config::new(&args(&["a", "b", "c", "d", "e", "f", "g"])).unwrap_err(),
        "too many arguments"
    );
    assert_eq!(
        Config::new(&args(&["instcollect", "alpha", "--db"])).unwrap_err(),
        "either 'database_name' or 'table_name' was not provided"
    );
}

#[test]
fn glob_import_key_synthesis() {
    // A glob prefix ending in a star synthesises its key from the last two
    // segments, star included.
    let krate = Crate {
        module: ModData {
            id: 1,
            span: sp(1, 0, 50, 0),
            items: vec![Item {
                id: 2,
                span: sp(1, 0, 1, 20),
                ident: "x".to_owned(),
                kind: ItemKind::Use("p::q::*".to_owned()),
            }],
        },
    };
    let mut resolver = PathResolver::new();
    let m = resolver.find_resolv_paths(&krate);
    assert_eq!(m.entries, vec![("q*".to_owned(), "p::q::*".to_owned())]);
}
