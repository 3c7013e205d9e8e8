use scout::analysis::SourceAnalysis;
use scout::ast::{Expr, ExprKind, ImportSymbol, Stmt, StmtKind};
use scout::bulletin::BulletinReason;
use scout::canary::Canaries;
use scout::config::Config;
use scout::density::{DensityEvent, FieldType};
use scout::evaluator::Evaluator;
use scout::location::Location;
use scout::rules::{Functionality, Rule, RuleSet};
use scout::source::SourceFile;

fn loc(row: usize, column: usize) -> Location {
    Location { row, column }
}

fn ident(row: usize, column: usize, name: &str) -> Expr {
    Expr { location: loc(row, column), kind: ExprKind::Identifier { name: name.to_string() } }
}

fn call(row: usize, column: usize, func: Expr) -> Expr {
    Expr {
        location: loc(row, column),
        kind: ExprKind::Call { func: Box::new(func), args: Vec::new(), keywords: Vec::new() },
    }
}

fn expr_stmt(row: usize, e: Expr) -> Stmt {
    Stmt { location: loc(row, 0), kind: StmtKind::Expr { value: e } }
}

fn import_stmt(row: usize, module: &str) -> Stmt {
    Stmt {
        location: loc(row, 0),
        kind: StmtKind::Import {
            names: vec![ImportSymbol { symbol: module.to_string(), alias: None }],
        },
    }
}

fn default_config() -> Config {
    Config {
        use_cache: false,
        save_cache: false,
        fw_functions: 1_000_000,
        fw_imports: 1_000_000,
        fw_behavior: 1_000_000,
        fw_strings: 1_000_000,
        tw_functions: 1_000_000,
        tw_imports: 1_000_000,
        feature_tfidf_calls: true,
        feature_tfidf_imports: true,
    }
}

fn gaussian_density(x: f64, mu: f64, variance: f64) -> f64 {
    let sigma = variance.sqrt();
    (1f64 / (sigma * (2f64 * std::f64::consts::PI).sqrt()))
        * ((-(x - mu).powi(2)) / (2f64 * variance)).exp()
}

/// The floating-point field arithmetic as the driver around the library
/// performs it: half-line samples, the Gaussian accumulation with the
/// TF-IDF blend, a weighted channel sum, and fixed-point samples out.
fn combined_density_micros(loc_count: usize, events: &[DensityEvent]) -> Vec<u64> {
    let n = loc_count * 2;
    let mut channels: Vec<Vec<f64>> = vec![vec![0f64; n]; 4];
    for ev in events {
        let ch = match ev.field {
            FieldType::Functions => 0,
            FieldType::Imports => 1,
            FieldType::Behavior => 2,
            FieldType::Strings => 3,
        };
        let multiplier = ev.multiplier as f64 / 1e6;
        let weight = ev.tfidf_weight as f64 / 1e6;
        let w = 1.0f64 - (1.0f64 - multiplier) * weight;
        for i in 0..n {
            let x = i as f64 * 0.5;
            channels[ch][i] = (channels[ch][i] + gaussian_density(x, ev.row as f64, 5.0)) * w;
        }
    }
    let mut combined = vec![0f64; n];
    for ch in &channels {
        for i in 0..n {
            combined[i] += ch[i];
        }
    }
    combined.iter().map(|v| (v * 1e6).round().max(0.0) as u64).collect()
}

#[test]
fn test_hotspot_filtering_by_global_threshold() {
    // Two rule matches on rows 5 and 500 of an 800-line file give two
    // disjoint hotspots; raising the global threshold above the weaker
    // peak hides only that bulletin.
    let text = "\n".repeat(800);
    let stmts = vec![
        expr_stmt(5, call(5, 0, ident(5, 0, "hot.risk"))),
        expr_stmt(500, call(500, 0, ident(500, 0, "low.risk"))),
    ];
    let mut source = SourceFile::load("t.py".to_string(), text, &stmts);
    // Dampen the first identifier as a small TF-IDF weight would.  (A later
    // event's blend rescales everything added before it, so only the first
    // contribution can end up weaker than the last.)
    source.set_call_tfidf("hot.risk", 500_000);
    let sets = vec![RuleSet {
        name: "calls".to_string(),
        threshold: 10_000,
        rules: vec![
            Rule::Function(Functionality::Process, "risk".to_string(), None, None),
        ],
    }];
    let evaluator = Evaluator::new(sets, Canaries::new(Vec::new()));
    let mut analysis = SourceAnalysis::new(source, false, 0);
    evaluator.evaluate(&mut analysis, &default_config());
    assert_eq!(analysis.bulletins.len(), 2);

    analysis.combined_density =
        combined_density_micros(analysis.source.get_loc(), &analysis.density_events);
    let hotspots = analysis.get_hotspots();
    assert_eq!(hotspots.len(), 2);
    assert!(hotspots[0].line_high() < hotspots[1].line_low());

    let visible: Vec<usize> = analysis.get_visible_bulletins().iter().map(|b| b.line).collect();
    assert_eq!(visible, vec![5, 500]);

    // The dampened peak is about 0.089, the other about 0.178; a global
    // threshold between them hides exactly the weaker hotspot's bulletin.
    analysis.global_threshold = 120_000;
    let visible: Vec<usize> = analysis.get_visible_bulletins().iter().map(|b| b.line).collect();
    assert_eq!(visible, vec![500]);
}

#[test]
fn test_tfidf_zero_suppresses_bulletin() {
    // An import whose TF-IDF weight is zero contributes no density, so its
    // bulletin never becomes visible even at a zero global threshold.
    let stmts = vec![import_stmt(1, "json")];
    let mut source = SourceFile::load("t.py".to_string(), "import json\n".to_string(), &stmts);
    source.set_import_tfidf("json", 0);
    let sets = vec![RuleSet {
        name: "modules".to_string(),
        threshold: 10_000,
        rules: vec![Rule::Module(Functionality::Encoding, "json".to_string(), None, None)],
    }];
    let evaluator = Evaluator::new(sets, Canaries::new(Vec::new()));
    let mut analysis = SourceAnalysis::new(source, false, 0);
    evaluator.evaluate(&mut analysis, &default_config());
    assert_eq!(analysis.bulletins.len(), 1);
    assert_eq!(analysis.density_events[0].multiplier, 0);

    analysis.combined_density =
        combined_density_micros(analysis.source.get_loc(), &analysis.density_events);
    assert!(analysis.get_hotspots().is_empty());
    assert!(analysis.get_visible_bulletins().is_empty());
    assert!(!analysis.any_bulletins_over_threshold());
}

#[test]
fn test_show_all_bypasses_thresholds() {
    let stmts = vec![import_stmt(1, "json")];
    let mut source = SourceFile::load("t.py".to_string(), "import json\n".to_string(), &stmts);
    source.set_import_tfidf("json", 0);
    let sets = vec![RuleSet {
        name: "modules".to_string(),
        threshold: 10_000,
        rules: vec![Rule::Module(Functionality::Encoding, "json".to_string(), None, None)],
    }];
    let evaluator = Evaluator::new(sets, Canaries::new(Vec::new()));
    let mut analysis = SourceAnalysis::new(source, true, 0);
    evaluator.evaluate(&mut analysis, &default_config());
    analysis.combined_density =
        combined_density_micros(analysis.source.get_loc(), &analysis.density_events);
    // Everything-shown mode answers yes without consulting the density...
    assert!(analysis.any_bulletins_over_threshold());
    // ...but the hotspot grouping still has nothing to attach bulletins to
    // when the whole field is zero.
    assert_eq!(analysis.get_visible_bulletins().len(), 0);
    assert_eq!(analysis.get_all_bulletins().len(), 1);
}

#[test]
fn test_report_message_layout() {
    // A small file with one suspicious import renders the annotated
    // listing: header, numbered lines, and a caret under the match.
    let stmts = vec![import_stmt(1, "os")];
    let source = SourceFile::load("t.py".to_string(), "import os\nx = 1".to_string(), &stmts);
    let sets = vec![RuleSet {
        name: "modules".to_string(),
        threshold: 100_000,
        rules: vec![Rule::Module(Functionality::System, "os".to_string(), None, None)],
    }];
    let evaluator = Evaluator::new(sets, Canaries::new(Vec::new()));
    let mut analysis = SourceAnalysis::new(source, false, 0);
    evaluator.evaluate(&mut analysis, &default_config());
    analysis.combined_density =
        combined_density_micros(analysis.source.get_loc(), &analysis.density_events);
    let report = scout::report::create_evaluation_report(&analysis).expect("report emitted");
    let expected = "Location: t.py\n  1| import os\n     ^The import 'os' is often used in malicious activity\n  2| x = 1";
    assert_eq!(report, expected);
}

#[test]
fn test_report_suppressed_when_nothing_visible() {
    let stmts = vec![import_stmt(1, "json")];
    let mut source = SourceFile::load("t.py".to_string(), "import json\n".to_string(), &stmts);
    source.set_import_tfidf("json", 0);
    let sets = vec![RuleSet {
        name: "modules".to_string(),
        threshold: 10_000,
        rules: vec![Rule::Module(Functionality::Encoding, "json".to_string(), None, None)],
    }];
    let evaluator = Evaluator::new(sets, Canaries::new(Vec::new()));
    let mut analysis = SourceAnalysis::new(source, false, 0);
    evaluator.evaluate(&mut analysis, &default_config());
    analysis.combined_density =
        combined_density_micros(analysis.source.get_loc(), &analysis.density_events);
    assert!(scout::report::create_evaluation_report(&analysis).is_none());
}

#[test]
fn test_hotspot_scan_exact_runs() {
    // The scan enters above the threshold, closes at the first sample back
    // at or below it, and carries the peak of the closed range.
    let y: Vec<u64> = vec![0, 20_000, 20_000, 5_000, 0, 15_000];
    let spots = scout::density::find_hotspots(&y, 10_000);
    assert_eq!(spots.len(), 2);
    assert_eq!(spots[0].start_index, 1);
    assert_eq!(spots[0].end_index, 3);
    assert_eq!(spots[0].peak, 20_000);
    assert_eq!(spots[0].line_low(), 1);
    assert_eq!(spots[0].line_high(), 2);
    assert_eq!(spots[1].start_index, 5);
    assert_eq!(spots[1].end_index, 5);
    assert_eq!(spots[1].peak, 15_000);
}

#[test]
fn test_report_separator_between_hotspots() {
    // Two far-apart matches produce two displayed groups with the
    // separator between their blocks.
    let text = (1..=100).map(|i| format!("line{}", i)).collect::<Vec<_>>().join("
");
    let stmts = vec![
        expr_stmt(5, call(5, 0, ident(5, 0, "risk.one"))),
        expr_stmt(60, call(60, 0, ident(60, 0, "risk.two"))),
    ];
    let source = SourceFile::load("t.py".to_string(), text, &stmts);
    let sets = vec![RuleSet {
        name: "calls".to_string(),
        threshold: 10_000,
        rules: vec![
            Rule::Function(Functionality::Process, "one".to_string(), None, None),
            Rule::Function(Functionality::Process, "two".to_string(), None, None),
        ],
    }];
    let evaluator = Evaluator::new(sets, Canaries::new(Vec::new()));
    let mut analysis = SourceAnalysis::new(source, false, 0);
    evaluator.evaluate(&mut analysis, &default_config());
    analysis.combined_density =
        combined_density_micros(analysis.source.get_loc(), &analysis.density_events);
    assert_eq!(analysis.get_hotspots().len(), 2);
    let report = scout::report::create_evaluation_report(&analysis).expect("report emitted");
    assert!(report.starts_with("Location: t.py
"));
    assert!(report.contains("...
"));
    assert!(report.contains("^The function 'risk.one' is often used in malicious activity"));
    assert!(report.contains("^The function 'risk.two' is often used in malicious activity"));
}

#[test]
fn test_hotspot_get_code_slice() {
    let stmts: Vec<Stmt> = Vec::new();
    let source = SourceFile::load("t.py".to_string(), "a
b
c
d
".to_string(), &stmts);
    let h = scout::density::Hotspot { start_index: 2, end_index: 5, peak: 0 };
    // Lines 1..3 cover 0-based indices 1 and 2.
    let code = h.get_code(&source);
    assert_eq!(code.len(), 2);
    assert_eq!(code[0], (1, "b".to_string()));
    assert_eq!(code[1], (2, "c".to_string()));
}

#[test]
fn test_uniq_functionality_sorted() {
    let stmts = vec![import_stmt(1, "socket"), import_stmt(2, "base64")];
    let source = SourceFile::load(
        "t.py".to_string(),
        "import socket\nimport base64\n".to_string(),
        &stmts,
    );
    let sets = vec![RuleSet {
        name: "mixed".to_string(),
        threshold: 0,
        rules: vec![
            Rule::Module(Functionality::Network, "socket".to_string(), None, None),
            Rule::Module(Functionality::Encoding, "base64".to_string(), None, None),
        ],
    }];
    let evaluator = Evaluator::new(sets, Canaries::new(Vec::new()));
    let mut analysis = SourceAnalysis::new(source, false, 0);
    evaluator.evaluate(&mut analysis, &default_config());
    let all = analysis.get_all_bulletins();
    let uniq = analysis.get_uniq_functionality(&all);
    assert_eq!(uniq, vec![Functionality::Encoding, Functionality::Network]);
}
