use scout::ast::{BinOpKind, Expr, ExprKind, ImportSymbol, Stmt, StmtKind};
use scout::location::Location;
use scout::source::SourceFile;
use scout::value::VariableType;

fn loc(row: usize, column: usize) -> Location {
    Location { row, column }
}

fn ident(row: usize, column: usize, name: &str) -> Expr {
    Expr { location: loc(row, column), kind: ExprKind::Identifier { name: name.to_string() } }
}

fn string_lit(row: usize, column: usize, value: &str) -> Expr {
    Expr { location: loc(row, column), kind: ExprKind::Str { value: value.to_string() } }
}

fn attribute(row: usize, column: usize, base: Expr, name: &str) -> Expr {
    Expr {
        location: loc(row, column),
        kind: ExprKind::Attribute { base: Box::new(base), name: name.to_string() },
    }
}

fn call(row: usize, column: usize, func: Expr, args: Vec<Expr>) -> Expr {
    Expr {
        location: loc(row, column),
        kind: ExprKind::Call { func: Box::new(func), args, keywords: Vec::new() },
    }
}

fn expr_stmt(row: usize, e: Expr) -> Stmt {
    Stmt { location: loc(row, 0), kind: StmtKind::Expr { value: e } }
}

fn import_stmt(row: usize, module: &str) -> Stmt {
    Stmt {
        location: loc(row, 0),
        kind: StmtKind::Import {
            names: vec![ImportSymbol { symbol: module.to_string(), alias: None }],
        },
    }
}

#[test]
fn test_sourcefile_import() {
    // `import urllib.request` records the dotted module under its full name.
    let stmts = vec![import_stmt(1, "urllib.request")];
    let source = SourceFile::load("t.py".to_string(), "import urllib.request\n".to_string(), &stmts);
    let imports = source.get_imports();
    assert_eq!(imports.len(), 1);
    assert_eq!(imports[0].module, "urllib.request");
    assert!(source.has_import("urllib.request"));
    assert_eq!(source.get_import_count("urllib.request"), Some(1));
}

#[test]
fn test_dotted_call_identifier() {
    // A callee `a.b.c` resolves to exactly "a.b.c".
    let callee = attribute(2, 0, attribute(2, 0, ident(2, 0, "a"), "b"), "c");
    let stmts = vec![expr_stmt(2, call(2, 0, callee, vec![]))];
    let source = SourceFile::load("t.py".to_string(), "\na.b.c()\n".to_string(), &stmts);
    let entries = source.get_entries();
    assert_eq!(entries.len(), 1);
    assert_eq!(entries[0].full_identifier, "a.b.c");
    assert_eq!(entries[0].location.row, 2);
}

#[test]
fn test_call_of_call_placeholder() {
    // A callee that is itself a call is recorded with the "*" placeholder,
    // and the inner call is recorded as well.
    let inner = call(1, 0, ident(1, 0, "f"), vec![]);
    let outer = call(1, 0, inner, vec![]);
    let stmts = vec![expr_stmt(1, outer)];
    let source = SourceFile::load("t.py".to_string(), "f()()\n".to_string(), &stmts);
    let entries = source.get_entries();
    assert_eq!(entries.len(), 2);
    assert_eq!(entries[0].full_identifier, "*");
    assert_eq!(entries[1].full_identifier, "f");
}

#[test]
fn test_alias_rewrite() {
    // `from importlib import import_module as im` followed by `im("os")`:
    // the call identifier is rewritten to importlib.import_module.
    let from_import = Stmt {
        location: loc(1, 0),
        kind: StmtKind::ImportFrom {
            module: Some("importlib".to_string()),
            level: 0,
            names: vec![ImportSymbol {
                symbol: "import_module".to_string(),
                alias: Some("im".to_string()),
            }],
        },
    };
    let call_stmt = expr_stmt(2, call(2, 0, ident(2, 0, "im"), vec![string_lit(2, 3, "os")]));
    let stmts = vec![from_import, call_stmt];
    let source = SourceFile::load(
        "t.py".to_string(),
        "from importlib import import_module as im\nim(\"os\")\n".to_string(),
        &stmts,
    );
    let entries = source.get_entries();
    assert_eq!(entries.len(), 1);
    assert_eq!(entries[0].full_identifier, "importlib.import_module");
}

#[test]
fn test_dotted_alias_rewrite() {
    // `import a.b as x` then `x.c()` resolves through the alias to `a.b.c`.
    let import = Stmt {
        location: loc(1, 0),
        kind: StmtKind::Import {
            names: vec![ImportSymbol { symbol: "a.b".to_string(), alias: Some("x".to_string()) }],
        },
    };
    let call_stmt = expr_stmt(2, call(2, 0, attribute(2, 0, ident(2, 0, "x"), "c"), vec![]));
    let stmts = vec![import, call_stmt];
    let source = SourceFile::load(
        "t.py".to_string(),
        "import a.b as x\nx.c()\n".to_string(),
        &stmts,
    );
    let entries = source.get_entries();
    assert_eq!(entries.len(), 1);
    assert_eq!(entries[0].full_identifier, "a.b.c");
}

#[test]
fn test_dynamic_import_via_variable() {
    // `m = "os"` then `__import__(m)` synthesizes a dynamic import of "os".
    let assign = Stmt {
        location: loc(1, 0),
        kind: StmtKind::Assign {
            targets: vec![ident(1, 0, "m")],
            value: string_lit(1, 4, "os"),
        },
    };
    let call_stmt = expr_stmt(2, call(2, 0, ident(2, 0, "__import__"), vec![ident(2, 11, "m")]));
    let stmts = vec![assign, call_stmt];
    let source = SourceFile::load(
        "t.py".to_string(),
        "m = \"os\"\n__import__(m)\n".to_string(),
        &stmts,
    );
    let imports = source.get_imports();
    assert_eq!(imports.len(), 1);
    assert_eq!(imports[0].module, "os");
    assert!(imports[0].is_dynamic);
    assert_eq!(imports[0].location.row, 2);
}

#[test]
fn test_variable_substitution_in_args() {
    // An identifier argument bound to a string is replaced by the string.
    let assign = Stmt {
        location: loc(1, 0),
        kind: StmtKind::Assign {
            targets: vec![ident(1, 0, "m")],
            value: string_lit(1, 4, "payload"),
        },
    };
    let call_stmt = expr_stmt(2, call(2, 0, ident(2, 0, "decode"), vec![ident(2, 7, "m")]));
    let stmts = vec![assign, call_stmt];
    let source = SourceFile::load(
        "t.py".to_string(),
        "m = \"payload\"\ndecode(m)\n".to_string(),
        &stmts,
    );
    let entries = source.get_entries();
    assert_eq!(entries.len(), 1);
    match &entries[0].args[0] {
        Some(VariableType::Str(s)) => assert_eq!(s, "payload"),
        other => panic!("unexpected slot: {:?}", other),
    }
}

#[test]
fn test_string_concatenation_folds() {
    // A `+` of two string literals is folded at extraction time.
    let concat = Expr {
        location: loc(1, 0),
        kind: ExprKind::BinOp {
            left: Box::new(string_lit(1, 0, "o")),
            op: BinOpKind::Add,
            right: Box::new(string_lit(1, 6, "s")),
        },
    };
    let call_stmt = expr_stmt(1, call(1, 0, ident(1, 0, "load"), vec![concat]));
    let stmts = vec![call_stmt];
    let source = SourceFile::load("t.py".to_string(), "load(\"o\" + \"s\")\n".to_string(), &stmts);
    let entries = source.get_entries();
    match &entries[0].args[0] {
        Some(VariableType::Str(s)) => assert_eq!(s, "os"),
        other => panic!("unexpected slot: {:?}", other),
    }
}

#[test]
fn test_assign_binds_all_targets() {
    // `a = b = "os"` binds both targets, each at its own position.
    let assign = Stmt {
        location: loc(1, 0),
        kind: StmtKind::Assign {
            targets: vec![ident(1, 0, "a"), ident(1, 4, "b")],
            value: string_lit(1, 8, "os"),
        },
    };
    let stmts = vec![assign];
    let source = SourceFile::load("t.py".to_string(), "a = b = \"os\"\n".to_string(), &stmts);
    let vars = source.variable_visitor.get_variables();
    for name in ["a", "b"] {
        let bound = vars.iter().find(|p| p.0 == name).expect("target is bound");
        match &bound.1 {
            VariableType::Str(s) => assert_eq!(s, "os"),
            other => panic!("unexpected value: {:?}", other),
        }
    }
    let locs = source.variable_visitor.get_locations();
    assert_eq!(locs.iter().find(|p| p.0 == "a").unwrap().1.column, 0);
    assert_eq!(locs.iter().find(|p| p.0 == "b").unwrap().1.column, 4);
}

#[test]
fn test_chained_assign_feeds_dynamic_import() {
    // `m = n = "os"` then `__import__(n)`: the second target's binding
    // resolves the reflective call into a dynamic import of "os".
    let assign = Stmt {
        location: loc(1, 0),
        kind: StmtKind::Assign {
            targets: vec![ident(1, 0, "m"), ident(1, 4, "n")],
            value: string_lit(1, 8, "os"),
        },
    };
    let call_stmt = expr_stmt(2, call(2, 0, ident(2, 0, "__import__"), vec![ident(2, 11, "n")]));
    let stmts = vec![assign, call_stmt];
    let source = SourceFile::load(
        "t.py".to_string(),
        "m = n = \"os\"\n__import__(n)\n".to_string(),
        &stmts,
    );
    let imports = source.get_imports();
    assert_eq!(imports.len(), 1);
    assert_eq!(imports[0].module, "os");
    assert!(imports[0].is_dynamic);
    assert_eq!(imports[0].location.row, 2);
}

#[test]
fn test_aug_assign_concatenates_strings() {
    // `m = "o"` then `m += "s"` leaves m bound to "os".
    let assign = Stmt {
        location: loc(1, 0),
        kind: StmtKind::Assign {
            targets: vec![ident(1, 0, "m")],
            value: string_lit(1, 4, "o"),
        },
    };
    let aug = Stmt {
        location: loc(2, 0),
        kind: StmtKind::AugAssign {
            target: ident(2, 0, "m"),
            op: BinOpKind::Add,
            value: string_lit(2, 5, "s"),
        },
    };
    let stmts = vec![assign, aug];
    let source = SourceFile::load(
        "t.py".to_string(),
        "m = \"o\"\nm += \"s\"\n".to_string(),
        &stmts,
    );
    let vars = source.variable_visitor.get_variables();
    let bound = vars.iter().find(|p| p.0 == "m").expect("m is bound");
    match &bound.1 {
        VariableType::Str(s) => assert_eq!(s, "os"),
        other => panic!("unexpected value: {:?}", other),
    }
}

#[test]
fn test_import_counts_total_records() {
    // Importing the same module on two rows gives two records and a count
    // of two; a repeated record at the same position is not added twice.
    let stmts = vec![import_stmt(1, "os"), import_stmt(2, "os"), import_stmt(2, "os")];
    let source = SourceFile::load(
        "t.py".to_string(),
        "import os\nimport os\n".to_string(),
        &stmts,
    );
    assert_eq!(source.get_imports().len(), 2);
    assert_eq!(source.get_import_count("os"), Some(2));
    let total: u64 = source.get_import_counts().iter().map(|p| p.1).sum();
    assert_eq!(total as usize, source.get_imports().len());
}

#[test]
fn test_has_function_suffix() {
    let callee = attribute(1, 0, ident(1, 0, "base64"), "b64decode");
    let stmts = vec![expr_stmt(1, call(1, 0, callee, vec![]))];
    let source = SourceFile::load(
        "t.py".to_string(),
        "base64.b64decode(x)\n".to_string(),
        &stmts,
    );
    assert!(source.has_function("b64decode"));
    assert!(!source.has_function("b64encode"));
}

#[test]
fn test_sourcefile_functions() {
    // The call visitor records both a bare call and a dotted call.
    let urlopen = attribute(
        2,
        0,
        attribute(2, 0, ident(2, 0, "urllib"), "request"),
        "urlopen",
    );
    let stmts = vec![
        expr_stmt(1, call(1, 0, ident(1, 0, "print"), vec![])),
        expr_stmt(2, call(2, 0, urlopen, vec![])),
    ];
    let source = SourceFile::load(
        "t.py".to_string(),
        "print(x)
urllib.request.urlopen(u)
".to_string(),
        &stmts,
    );
    assert!(source.has_function("print"));
    assert!(source.has_function("urllib.request.urlopen"));
}

#[test]
fn test_sourcefile_function_visitor() {
    let urlopen = attribute(
        2,
        0,
        attribute(2, 0, ident(2, 0, "urllib"), "request"),
        "urlopen",
    );
    let stmts = vec![
        expr_stmt(1, call(1, 0, ident(1, 0, "print"), vec![])),
        expr_stmt(2, call(2, 0, urlopen, vec![])),
    ];
    let source = SourceFile::load(
        "t.py".to_string(),
        "print(x)
urllib.request.urlopen(u)
".to_string(),
        &stmts,
    );
    let names: Vec<&str> =
        source.get_entries().iter().map(|e| e.full_identifier.as_str()).collect();
    assert_eq!(names, vec!["print", "urllib.request.urlopen"]);
}

#[test]
fn test_sourcefile_import_visitor_expanded() {
    // An aliased `from importlib import import_module as im` and a plain
    // `import base64` both register their modules.
    let from_import = Stmt {
        location: loc(1, 0),
        kind: StmtKind::ImportFrom {
            module: Some("importlib".to_string()),
            level: 0,
            names: vec![ImportSymbol {
                symbol: "import_module".to_string(),
                alias: Some("im".to_string()),
            }],
        },
    };
    let stmts = vec![from_import, import_stmt(2, "base64")];
    let source = SourceFile::load(
        "t.py".to_string(),
        "from importlib import import_module as im
import base64
".to_string(),
        &stmts,
    );
    assert!(source.has_import("importlib"));
    assert!(source.has_import("base64"));
}

#[test]
fn test_sourcefile_function_visitor_expanded() {
    let callee = attribute(2, 0, ident(2, 0, "base64"), "b64decode");
    let stmts = vec![import_stmt(1, "base64"), expr_stmt(2, call(2, 0, callee, vec![]))];
    let source = SourceFile::load(
        "t.py".to_string(),
        "import base64
base64.b64decode(x)
".to_string(),
        &stmts,
    );
    assert!(source.has_function("b64decode"));
}

#[test]
fn test_sourcefile_functions_expanded() {
    // Aliased and plain imports together with a dotted call.
    let from_import = Stmt {
        location: loc(1, 0),
        kind: StmtKind::ImportFrom {
            module: Some("importlib".to_string()),
            level: 0,
            names: vec![ImportSymbol {
                symbol: "import_module".to_string(),
                alias: Some("im".to_string()),
            }],
        },
    };
    let callee = attribute(3, 0, ident(3, 0, "base64"), "b64decode");
    let stmts = vec![
        from_import,
        import_stmt(2, "base64"),
        expr_stmt(3, call(3, 0, callee, vec![])),
    ];
    let source = SourceFile::load(
        "t.py".to_string(),
        "from importlib import import_module as im
import base64
base64.b64decode(x)
"
            .to_string(),
        &stmts,
    );
    assert!(source.has_import("importlib"));
    assert!(source.has_import("base64"));
    assert!(source.has_function("b64decode"));
}

#[test]
fn test_import_inside_function_context() {
    // An import inside a def body carries the function context.
    let body_import = import_stmt(2, "os");
    let def = Stmt {
        location: loc(1, 0),
        kind: StmtKind::FunctionDef {
            name: "f".to_string(),
            body: vec![body_import],
            rest: vec![],
        },
    };
    let stmts = vec![def];
    let source = SourceFile::load(
        "t.py".to_string(),
        "def f():\n    import os\n".to_string(),
        &stmts,
    );
    let imports = source.get_imports();
    assert_eq!(imports.len(), 1);
    assert_eq!(imports[0].context, scout::import_visitor::Lexical::Function);
}
