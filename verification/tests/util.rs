use scout::ast::{Expr, ExprKind, ImportSymbol, Stmt, StmtKind};
use scout::bulletin::{Bulletin, BulletinReason};
use scout::rules::{Functionality, Rule, RuleSet};
use scout::value::VariableType;
use scout::checker::Checker;
use scout::fixer::ParseErrorFixer;
use scout::location::Location;
use scout::metadata::parse_metadata_file;
use scout::utils::{detect_package_type, format_empty_arg, get_last_attr, indent, PackageType};

#[test]
fn test_get_last_attr() {
    assert_eq!(get_last_attr("a.b.c"), "c");
    assert_eq!(get_last_attr("name"), "name");
    assert_eq!(get_last_attr("base64.b64decode"), "b64decode");
    assert_eq!(get_last_attr("trailing."), "");
}

#[test]
fn test_format_empty_arg() {
    assert_eq!(format_empty_arg(&None), "*");
    assert_eq!(format_empty_arg(&Some("value".to_string())), "value");
}

#[test]
fn test_indent_prefixes_lines() {
    let lines = vec!["a".to_string(), "b".to_string()];
    let out = indent(&lines, "  ".to_string());
    assert_eq!(out, vec!["  a".to_string(), "  b".to_string()]);
    let out2 = scout::utils::_indent(&lines, "> ".to_string());
    assert_eq!(out2, vec!["> a".to_string(), "> b".to_string()]);
}

#[test]
fn test_detect_package() {
    let wheel = vec!["flask-2.0.dist-info".to_string(), "flask".to_string()];
    assert_eq!(detect_package_type(&wheel), Some(PackageType::Wheel));
    let zip = vec!["setup.py".to_string(), "termcolor".to_string()];
    assert_eq!(detect_package_type(&zip), Some(PackageType::Zip));
    let neither = vec!["README".to_string()];
    assert_eq!(detect_package_type(&neither), None);
    // The last entry that says anything wins.
    let both = vec!["pkg.dist-info".to_string(), "setup.py".to_string()];
    assert_eq!(detect_package_type(&both), Some(PackageType::Zip));
}

#[test]
fn test_fixer_common_fixes() {
    // The first pass rewrites the legacy except syntax and strips leading
    // zeros; the patched text differs from the input.
    let mut fixer = ParseErrorFixer::new(3);
    assert!(fixer.attempts_left());
    let patched = fixer.attempt_fix(1, "except ValueError, e:\nx = 007");
    assert_eq!(patched, "except ValueError as  e:\nx = 7");
}

#[test]
fn test_fixer_blanks_error_line() {
    // After the common fixes were tried, the erroring line is blanked.
    let mut fixer = ParseErrorFixer::new(3);
    let first = fixer.attempt_fix(1, "a = 1\nb = (\nc = 3");
    assert_eq!(first, "a = 1\nb = (\nc = 3");
    let second = fixer.attempt_fix(2, first.as_str());
    assert_eq!(second, "a = 1\n\nc = 3");
    let third = fixer.attempt_fix(1, second.as_str());
    assert_eq!(third, "\n\nc = 3");
    assert!(!fixer.attempts_left());
}

#[test]
fn test_parse_metadata_file() {
    let lines = vec![
        "Metadata-Version: 2.1".to_string(),
        "Name: apache-beam".to_string(),
        "Requires-Dist: crcmod (>=1.7,<2.0)".to_string(),
        "Requires-Dist: google-cloud-bigquery ; extra == 'gcp'".to_string(),
        "Requires-Dist: pytest ; extra == 'test'".to_string(),
    ];
    let metadata = parse_metadata_file(&lines);
    assert_eq!(metadata.name, "apache-beam");
    assert!(metadata.deps.contains(&"crcmod".to_string()));
    assert!(metadata.deps.contains(&"google-cloud-bigquery".to_string()));
    assert!(metadata.deps.contains(&"pytest".to_string()));
}

#[test]
fn test_checker_counts() {
    let call = Stmt {
        location: Location { row: 1, column: 0 },
        kind: StmtKind::Expr {
            value: Expr {
                location: Location { row: 1, column: 0 },
                kind: ExprKind::Call {
                    func: Box::new(Expr {
                        location: Location { row: 1, column: 0 },
                        kind: ExprKind::Identifier { name: "eval".to_string() },
                    }),
                    args: Vec::new(),
                    keywords: Vec::new(),
                },
            },
        },
    };
    let import = Stmt {
        location: Location { row: 2, column: 0 },
        kind: StmtKind::Import {
            names: vec![ImportSymbol { symbol: "socket".to_string(), alias: None }],
        },
    };
    let source = scout::source::SourceFile::load(
        "t.py".to_string(),
        "eval()\nimport socket\n".to_string(),
        &vec![call, import],
    );
    let checker = Checker::new(vec!["eval".to_string()], vec!["socket".to_string()]);
    let result = checker.check(&source);
    assert_eq!(result.suspicious_functions, 1);
    assert_eq!(result.suspicious_imports, 1);
}

#[test]
fn test_bulletin_reason_messages() {
    let b = Bulletin::new(
        "base64".to_string(),
        BulletinReason::SuspiciousImport,
        Location { row: 3, column: 2 },
        None,
        100_000,
    );
    assert_eq!(b.reason(), "The import 'base64' is often used in malicious activity");
    assert_eq!(b.line(), 3);
    assert_eq!(b.col(), 2);
    let d = Bulletin::new(
        "os".to_string(),
        BulletinReason::DynamicImport,
        Location { row: 1, column: 0 },
        None,
        200_000,
    );
    assert_eq!(
        d.reason(),
        "Functionality was dynamically imported (at runtime). This can be used to obfuscate malicious activity."
    );
}

#[test]
fn test_rule_functionality() {
    let m = Rule::Module(Functionality::Network, "socket".to_string(), None, None);
    assert_eq!(m.functionality(), Functionality::Network);
    let f = Rule::Function(Functionality::Encoding, "b64decode".to_string(), None, None);
    assert_eq!(f.functionality(), Functionality::Encoding);
}

#[test]
fn test_variable_type_accessors() {
    let s = VariableType::Str("x".to_string());
    assert!(s.is_string());
    assert!(!s.is_identifier());
    assert_eq!(s.get_string(), Some(&"x".to_string()));
    assert_eq!(s.get_identifier(), None);
    let i = VariableType::Identifier("y".to_string());
    assert!(i.is_identifier());
    assert_eq!(i.get_identifier(), Some(&"y".to_string()));
}

#[test]
fn test_rule_set_filters() {
    let set = RuleSet {
        name: "mixed".to_string(),
        threshold: 0,
        rules: vec![
            Rule::Module(Functionality::Network, "socket".to_string(), None, None),
            Rule::Function(Functionality::Encoding, "b64decode".to_string(), None, None),
            Rule::Module(Functionality::System, "os".to_string(), None, None),
        ],
    };
    assert_eq!(set.get_module_rules().len(), 2);
    assert_eq!(set.get_function_rules().len(), 1);
}
