use scout::analysis::SourceAnalysis;
use scout::ast::{Expr, ExprKind, ImportSymbol, Stmt, StmtKind};
use scout::bulletin::BulletinReason;
use scout::canary::{Canaries, CanaryInfo};
use scout::config::Config;
use scout::evaluator::Evaluator;
use scout::location::Location;
use scout::rules::{Functionality, Rule, RuleSet};
use scout::source::SourceFile;

fn loc(row: usize, column: usize) -> Location {
    Location { row, column }
}

fn ident(row: usize, column: usize, name: &str) -> Expr {
    Expr { location: loc(row, column), kind: ExprKind::Identifier { name: name.to_string() } }
}

fn string_lit(row: usize, column: usize, value: &str) -> Expr {
    Expr { location: loc(row, column), kind: ExprKind::Str { value: value.to_string() } }
}

fn attribute(row: usize, column: usize, base: Expr, name: &str) -> Expr {
    Expr {
        location: loc(row, column),
        kind: ExprKind::Attribute { base: Box::new(base), name: name.to_string() },
    }
}

fn call(row: usize, column: usize, func: Expr, args: Vec<Expr>) -> Expr {
    Expr {
        location: loc(row, column),
        kind: ExprKind::Call { func: Box::new(func), args, keywords: Vec::new() },
    }
}

fn expr_stmt(row: usize, e: Expr) -> Stmt {
    Stmt { location: loc(row, 0), kind: StmtKind::Expr { value: e } }
}

fn import_stmt(row: usize, module: &str) -> Stmt {
    Stmt {
        location: loc(row, 0),
        kind: StmtKind::Import {
            names: vec![ImportSymbol { symbol: module.to_string(), alias: None }],
        },
    }
}

fn default_config() -> Config {
    Config {
        use_cache: false,
        save_cache: false,
        fw_functions: 1_000_000,
        fw_imports: 1_000_000,
        fw_behavior: 1_000_000,
        fw_strings: 1_000_000,
        tw_functions: 1_000_000,
        tw_imports: 1_000_000,
        feature_tfidf_calls: true,
        feature_tfidf_imports: true,
    }
}

fn no_canaries() -> Canaries {
    Canaries::new(Vec::new())
}

#[test]
fn test_plain_dotted_call_bulletins() {
    // `import base64` and `base64.b64decode(x)` against an Encoding rule
    // pair yield a function bulletin at row 2 and an import bulletin.
    let stmts = vec![
        import_stmt(1, "base64"),
        expr_stmt(
            2,
            call(
                2,
                0,
                attribute(2, 0, ident(2, 0, "base64"), "b64decode"),
                vec![ident(2, 17, "x")],
            ),
        ),
    ];
    let source = SourceFile::load(
        "t.py".to_string(),
        "import base64\nbase64.b64decode(x)\n".to_string(),
        &stmts,
    );
    let sets = vec![RuleSet {
        name: "encodings".to_string(),
        threshold: 100_000,
        rules: vec![
            Rule::Function(Functionality::Encoding, "b64decode".to_string(), None, None),
            Rule::Module(Functionality::Encoding, "base64".to_string(), None, None),
        ],
    }];
    let evaluator = Evaluator::new(sets, no_canaries());
    let mut analysis = SourceAnalysis::new(source, false, 0);
    evaluator.evaluate(&mut analysis, &default_config());

    let functions: Vec<_> = analysis
        .bulletins
        .iter()
        .filter(|b| matches!(b.reason, BulletinReason::SuspiciousFunction))
        .collect();
    assert_eq!(functions.len(), 1);
    assert_eq!(functions[0].line, 2);
    assert_eq!(functions[0].identifier, "base64.b64decode");
    assert_eq!(functions[0].functionality, Some(Functionality::Encoding));
    assert_eq!(functions[0].threshold, 100_000);

    let imports: Vec<_> = analysis
        .bulletins
        .iter()
        .filter(|b| matches!(b.reason, BulletinReason::SuspiciousImport))
        .collect();
    assert_eq!(imports.len(), 1);
    assert_eq!(imports[0].line, 1);
    assert_eq!(analysis.alerts_functions, 1);
    assert_eq!(analysis.alerts_imports, 1);
}

#[test]
fn test_alias_rewrite_bulletin() {
    // After the alias rewrite, the System rule on import_module fires at
    // row 2.
    let from_import = Stmt {
        location: loc(1, 0),
        kind: StmtKind::ImportFrom {
            module: Some("importlib".to_string()),
            level: 0,
            names: vec![ImportSymbol {
                symbol: "import_module".to_string(),
                alias: Some("im".to_string()),
            }],
        },
    };
    let call_stmt = expr_stmt(2, call(2, 0, ident(2, 0, "im"), vec![string_lit(2, 3, "os")]));
    let source = SourceFile::load(
        "t.py".to_string(),
        "from importlib import import_module as im\nim(\"os\")\n".to_string(),
        &vec![from_import, call_stmt],
    );
    let sets = vec![RuleSet {
        name: "system".to_string(),
        threshold: 100_000,
        rules: vec![Rule::Function(Functionality::System, "import_module".to_string(), None, None)],
    }];
    let evaluator = Evaluator::new(sets, no_canaries());
    let mut analysis = SourceAnalysis::new(source, false, 0);
    evaluator.evaluate(&mut analysis, &default_config());
    let functions: Vec<_> = analysis
        .bulletins
        .iter()
        .filter(|b| matches!(b.reason, BulletinReason::SuspiciousFunction))
        .collect();
    assert_eq!(functions.len(), 1);
    assert_eq!(functions[0].line, 2);
    assert_eq!(functions[0].identifier, "importlib.import_module");
}

#[test]
fn test_dynamic_import_bulletins() {
    // `m = "os"` then `__import__(m)` with a module rule for "os" yields
    // both a suspicious-import and a dynamic-import bulletin at row 2.
    let assign = Stmt {
        location: loc(1, 0),
        kind: StmtKind::Assign {
            targets: vec![ident(1, 0, "m")],
            value: string_lit(1, 4, "os"),
        },
    };
    let call_stmt = expr_stmt(2, call(2, 0, ident(2, 0, "__import__"), vec![ident(2, 11, "m")]));
    let source = SourceFile::load(
        "t.py".to_string(),
        "m = \"os\"\n__import__(m)\n".to_string(),
        &vec![assign, call_stmt],
    );
    let sets = vec![RuleSet {
        name: "modules".to_string(),
        threshold: 100_000,
        rules: vec![Rule::Module(Functionality::System, "os".to_string(), None, None)],
    }];
    let evaluator = Evaluator::new(sets, no_canaries());
    let mut analysis = SourceAnalysis::new(source, false, 0);
    evaluator.evaluate(&mut analysis, &default_config());

    let dynamic: Vec<_> = analysis
        .bulletins
        .iter()
        .filter(|b| matches!(b.reason, BulletinReason::DynamicImport))
        .collect();
    assert_eq!(dynamic.len(), 1);
    assert_eq!(dynamic[0].line, 2);
    assert_eq!(dynamic[0].threshold, 200_000);

    let imports: Vec<_> = analysis
        .bulletins
        .iter()
        .filter(|b| matches!(b.reason, BulletinReason::SuspiciousImport))
        .collect();
    assert_eq!(imports.len(), 1);
    assert_eq!(imports[0].line, 2);
}

#[test]
fn test_import_inside_function_bulletins() {
    // `def f(): import os` with a module rule for "os": a suspicious
    // import and an import-inside-function bulletin, both at row 2, the
    // latter at threshold 0.3.
    let def = Stmt {
        location: loc(1, 0),
        kind: StmtKind::FunctionDef {
            name: "f".to_string(),
            body: vec![import_stmt(2, "os")],
            rest: vec![],
        },
    };
    let source = SourceFile::load(
        "t.py".to_string(),
        "def f():\n    import os\n".to_string(),
        &vec![def],
    );
    let sets = vec![RuleSet {
        name: "modules".to_string(),
        threshold: 100_000,
        rules: vec![Rule::Module(Functionality::System, "os".to_string(), None, None)],
    }];
    let evaluator = Evaluator::new(sets, no_canaries());
    let mut analysis = SourceAnalysis::new(source, false, 0);
    evaluator.evaluate(&mut analysis, &default_config());

    assert_eq!(analysis.bulletins.len(), 2);
    assert!(matches!(analysis.bulletins[0].reason, BulletinReason::SuspiciousImport));
    assert_eq!(analysis.bulletins[0].line, 2);
    assert!(matches!(analysis.bulletins[1].reason, BulletinReason::ImportInsideFunction));
    assert_eq!(analysis.bulletins[1].line, 2);
    assert_eq!(analysis.bulletins[1].threshold, 300_000);
}

#[test]
fn test_canary_bulletin() {
    // A string binding that starts with a canary prefix raises a canary
    // bulletin at the binding's definition.
    let assign = Stmt {
        location: loc(3, 4),
        kind: StmtKind::Assign {
            targets: vec![ident(3, 4, "payload")],
            value: string_lit(3, 14, "EVIL-MARKER-12345"),
        },
    };
    let source = SourceFile::load(
        "t.py".to_string(),
        "\n\n    payload = \"EVIL-MARKER-12345\"\n".to_string(),
        &vec![assign],
    );
    let canaries = Canaries::new(vec![(
        "EVIL-MARKER".to_string(),
        CanaryInfo { identifier: "marker".to_string(), transform: "plain".to_string() },
    )]);
    let evaluator = Evaluator::new(Vec::new(), canaries);
    let mut analysis = SourceAnalysis::new(source, false, 0);
    evaluator.evaluate(&mut analysis, &default_config());
    assert_eq!(analysis.bulletins.len(), 1);
    match &analysis.bulletins[0].reason {
        BulletinReason::Canary(m) => {
            assert_eq!(m, "detected 'marker' using transform 'plain'");
        }
        other => panic!("unexpected reason: {:?}", other),
    }
    assert_eq!(analysis.bulletins[0].line, 3);
    assert_eq!(analysis.bulletins[0].col, 4);
}

#[test]
fn test_evaluation_idempotent_on_clone() {
    // Evaluating a freshly built analysis of the same source twice gives
    // the same bulletin list.
    let build = || {
        let stmts = vec![import_stmt(1, "socket")];
        SourceFile::load("t.py".to_string(), "import socket\n".to_string(), &stmts)
    };
    let sets = || {
        vec![RuleSet {
            name: "net".to_string(),
            threshold: 0,
            rules: vec![Rule::Module(Functionality::Network, "socket".to_string(), None, None)],
        }]
    };
    let e1 = Evaluator::new(sets(), no_canaries());
    let mut a1 = SourceAnalysis::new(build(), false, 0);
    e1.evaluate(&mut a1, &default_config());
    let e2 = Evaluator::new(sets(), no_canaries());
    let mut a2 = SourceAnalysis::new(build(), false, 0);
    e2.evaluate(&mut a2, &default_config());
    assert_eq!(a1.bulletins.len(), a2.bulletins.len());
    for (x, y) in a1.bulletins.iter().zip(a2.bulletins.iter()) {
        assert_eq!(x.identifier, y.identifier);
        assert_eq!(x.line, y.line);
        assert_eq!(x.col, y.col);
        assert_eq!(x.threshold, y.threshold);
    }
}

#[test]
fn test_found_anything_masks_single_alert() {
    // The alert counters are joined with a conjunction, so a lone function
    // alert reports found_anything only through the bulletin check.
    let stmts = vec![expr_stmt(1, call(1, 0, ident(1, 0, "eval"), vec![]))];
    let source = SourceFile::load("t.py".to_string(), "eval()\n".to_string(), &stmts);
    let sets = vec![RuleSet {
        name: "calls".to_string(),
        threshold: 0,
        rules: vec![Rule::Function(Functionality::Process, "eval".to_string(), None, None)],
    }];
    let evaluator = Evaluator::new(sets, no_canaries());
    let mut analysis = SourceAnalysis::new(source, false, 0);
    evaluator.evaluate(&mut analysis, &default_config());
    assert_eq!(analysis.alerts_functions, 1);
    assert_eq!(analysis.alerts_imports, 0);
    // found_anything still answers true, but only because a bulletin exists.
    assert!(analysis.found_anything());
    assert!(!(analysis.alerts_functions > 0 && analysis.alerts_imports > 0));
}
