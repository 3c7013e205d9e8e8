use vstd::prelude::*;

use crate::alist::alist_get;
use crate::bulletin::{Bulletin, BulletinReason, BulletinReasonV, BulletinV, bulletin_view,
    bulletins_view};
use crate::canary::{Canaries, CanaryInfoV, canaries_view};
use crate::call_visitor::CallEntryV;
use crate::config::Config;
use crate::density::{DensityEvent, FieldType};
use crate::import_visitor::{ImportEntry, ImportEntryV, Lexical, import_entries_view,
    import_entry_view};
use crate::location::Location;
use crate::rules::{Rule, RuleSet, RuleV, rule_set_view, rule_sets_view, rule_view};
use crate::source::SourceFile;
use crate::utils::last_attr_of;
use crate::value::ValueV;

verus! {

/// One emission of the evaluator: a bulletin together with the density
/// contribution that accompanies it.
#[verifier::ext_equal]
pub struct FindingV {
    pub bulletin: BulletinV,
    pub event: DensityEvent,
}

/// The bulletins of a list of findings.
pub open spec fn finding_bulletins(fs: Seq<FindingV>) -> Seq<BulletinV> {
    Seq::new(fs.len(), |i: int| fs[i].bulletin)
}

/// The density events of a list of findings.
pub open spec fn finding_events(fs: Seq<FindingV>) -> Seq<DensityEvent> {
    Seq::new(fs.len(), |i: int| fs[i].event)
}

/// How many findings are function alerts (`SuspiciousFunction`).
pub open spec fn count_function_alerts(fs: Seq<FindingV>) -> int
    decreases fs.len(),
{
    if fs.len() == 0 {
        0
    } else {
        count_function_alerts(fs.subrange(0, fs.len() - 1)) + if fs[fs.len()
            - 1].bulletin.reason is SuspiciousFunction {
            1int
        } else {
            0int
        }
    }
}

/// How many findings are import-side alerts (everything else).
pub open spec fn count_import_alerts(fs: Seq<FindingV>) -> int
    decreases fs.len(),
{
    if fs.len() == 0 {
        0
    } else {
        count_import_alerts(fs.subrange(0, fs.len() - 1)) + if fs[fs.len()
            - 1].bulletin.reason is SuspiciousFunction {
            0int
        } else {
            1int
        }
    }
}

/// A TF-IDF weight from a slot table, the neutral weight of one when the
/// identifier has no slot.
pub open spec fn tfidf_or_default(table: Seq<(Seq<char>, int)>, k: Seq<char>) -> int {
    match alist_get(table, k) {
        Option::Some(v) => v,
        Option::None => 1_000_000,
    }
}

/// The threshold carried by an `ImportInsideFunction` bulletin.
pub const IMPORT_IN_FUNCTION_THRESHOLD: u64 = 300_000;

/// The threshold carried by a `DynamicImport` or `Canary` bulletin.
pub const INFO_THRESHOLD: u64 = 200_000;

/// The findings one module rule yields on one import record: a
/// `SuspiciousImport` when the module matches, and additionally an
/// `ImportInsideFunction` when the import stood inside a function body.
pub open spec fn module_check_spec(
    threshold: u64,
    rule: RuleV,
    entry: ImportEntryV,
    itf: Seq<(Seq<char>, int)>,
    tw_imports: u64,
) -> Seq<FindingV> {
    match rule {
        RuleV::Module(func, ident, name, desc) => if entry.module == ident {
            let first = FindingV {
                bulletin: BulletinV {
                    identifier: ident,
                    line: entry.location.row,
                    col: entry.location.column,
                    reason: BulletinReasonV::SuspiciousImport,
                    functionality: Option::Some(func),
                    threshold,
                },
                event: DensityEvent {
                    field: FieldType::Imports,
                    row: entry.location.row,
                    multiplier: tfidf_or_default(itf, ident) as u64,
                    tfidf_weight: tw_imports,
                },
            };
            if entry.context is Function {
                seq![first].push(
                    FindingV {
                        bulletin: BulletinV {
                            identifier: entry.module,
                            line: entry.location.row,
                            col: entry.location.column,
                            reason: BulletinReasonV::ImportInsideFunction,
                            functionality: Option::None,
                            threshold: IMPORT_IN_FUNCTION_THRESHOLD,
                        },
                        event: DensityEvent {
                            field: FieldType::Imports,
                            row: entry.location.row,
                            multiplier: 1_000_000,
                            tfidf_weight: tw_imports,
                        },
                    },
                )
            } else {
                seq![first]
            }
        } else {
            Seq::empty()
        },
        RuleV::Function(..) => Seq::empty(),
    }
}

/// The finding one function rule yields on one call record: a
/// `SuspiciousFunction` when the rule matches the last attribute of the
/// call's identifier.
pub open spec fn function_check_spec(
    threshold: u64,
    rule: RuleV,
    entry: CallEntryV,
    ctf: Seq<(Seq<char>, int)>,
    tw_functions: u64,
) -> Seq<FindingV> {
    match rule {
        RuleV::Function(func, ident, name, desc) => if last_attr_of(entry.full_identifier)
            == ident {
            seq![
                FindingV {
                    bulletin: BulletinV {
                        identifier: entry.full_identifier,
                        line: entry.location.row,
                        col: entry.location.column,
                        reason: BulletinReasonV::SuspiciousFunction,
                        functionality: Option::Some(func),
                        threshold,
                    },
                    event: DensityEvent {
                        field: FieldType::Functions,
                        row: entry.location.row,
                        multiplier: tfidf_or_default(ctf, entry.full_identifier) as u64,
                        tfidf_weight: tw_functions,
                    },
                },
            ]
        } else {
            Seq::empty()
        },
        RuleV::Module(..) => Seq::empty(),
    }
}

/// The finding a dynamically discovered import yields.
pub open spec fn dynamic_check_spec(entry: ImportEntryV, tw_imports: u64) -> Seq<FindingV> {
    if entry.is_dynamic {
        seq![
            FindingV {
                bulletin: BulletinV {
                    identifier: entry.module,
                    line: entry.location.row,
                    col: entry.location.column,
                    reason: BulletinReasonV::DynamicImport,
                    functionality: Option::None,
                    threshold: INFO_THRESHOLD,
                },
                event: DensityEvent {
                    field: FieldType::Behavior,
                    row: entry.location.row,
                    multiplier: 1_000_000,
                    tfidf_weight: tw_imports,
                },
            },
        ]
    } else {
        Seq::empty()
    }
}

/// The canary message: which identifier was detected under which transform.
pub open spec fn canary_message_spec(info: CanaryInfoV) -> Seq<char> {
    "detected '"@ + info.identifier + "' using transform '"@ + info.transform + "'"@
}

/// The findings one string-valued binding yields against the canary
/// catalog, in catalog order: one `Canary` bulletin per matching prefix,
/// placed at the binding's definition.
pub open spec fn canary_var_findings(
    canaries: Seq<(Seq<char>, CanaryInfoV)>,
    ident: Seq<char>,
    value: ValueV,
    locs: Seq<(Seq<char>, Location)>,
) -> Seq<FindingV>
    decreases canaries.len(),
{
    if canaries.len() == 0 {
        Seq::empty()
    } else {
        let pre = canary_var_findings(canaries.subrange(0, canaries.len() - 1), ident, value, locs);
        let c = canaries[canaries.len() - 1];
        match value {
            ValueV::Str(s) => if crate::strutil::is_prefix_of(c.0, s) {
                match alist_get(locs, ident) {
                    Option::Some(loc) => pre.push(
                        FindingV {
                            bulletin: BulletinV {
                                identifier: c.1.identifier,
                                line: loc.row,
                                col: loc.column,
                                reason: BulletinReasonV::Canary(canary_message_spec(c.1)),
                                functionality: Option::None,
                                threshold: INFO_THRESHOLD,
                            },
                            event: DensityEvent {
                                field: FieldType::Strings,
                                row: loc.row,
                                multiplier: 1_000_000,
                                tfidf_weight: 1_000_000,
                            },
                        },
                    ),
                    Option::None => pre,
                }
            } else {
                pre
            },
            _ => pre,
        }
    }
}

/// The canary findings over all bindings, in binding order.
pub open spec fn canary_findings(
    canaries: Seq<(Seq<char>, CanaryInfoV)>,
    vars: Seq<(Seq<char>, ValueV)>,
    locs: Seq<(Seq<char>, Location)>,
) -> Seq<FindingV>
    decreases vars.len(),
{
    if vars.len() == 0 {
        Seq::empty()
    } else {
        canary_findings(canaries, vars.subrange(0, vars.len() - 1), locs) + canary_var_findings(
            canaries,
            vars[vars.len() - 1].0,
            vars[vars.len() - 1].1,
            locs,
        )
    }
}

/// The dynamic-import findings over all import records, in record order.
pub open spec fn dynamic_findings(imports: Seq<ImportEntryV>, tw_imports: u64) -> Seq<FindingV>
    decreases imports.len(),
{
    if imports.len() == 0 {
        Seq::empty()
    } else {
        dynamic_findings(imports.subrange(0, imports.len() - 1), tw_imports) + dynamic_check_spec(
            imports[imports.len() - 1],
            tw_imports,
        )
    }
}

/// The findings of one rule set's module rules on one import record.
pub open spec fn module_rules_findings(
    threshold: u64,
    rules: Seq<RuleV>,
    entry: ImportEntryV,
    itf: Seq<(Seq<char>, int)>,
    tw_imports: u64,
) -> Seq<FindingV>
    decreases rules.len(),
{
    if rules.len() == 0 {
        Seq::empty()
    } else {
        module_rules_findings(threshold, rules.subrange(0, rules.len() - 1), entry, itf, tw_imports)
            + module_check_spec(threshold, rules[rules.len() - 1], entry, itf, tw_imports)
    }
}

/// The findings of one rule set over all import records.
pub open spec fn imports_findings(
    threshold: u64,
    rules: Seq<RuleV>,
    imports: Seq<ImportEntryV>,
    itf: Seq<(Seq<char>, int)>,
    tw_imports: u64,
) -> Seq<FindingV>
    decreases imports.len(),
{
    if imports.len() == 0 {
        Seq::empty()
    } else {
        imports_findings(
            threshold,
            rules,
            imports.subrange(0, imports.len() - 1),
            itf,
            tw_imports,
        ) + module_rules_findings(threshold, rules, imports[imports.len() - 1], itf, tw_imports)
    }
}

/// The findings of one rule set's function rules on one call record.
pub open spec fn function_rules_findings(
    threshold: u64,
    rules: Seq<RuleV>,
    entry: CallEntryV,
    ctf: Seq<(Seq<char>, int)>,
    tw_functions: u64,
) -> Seq<FindingV>
    decreases rules.len(),
{
    if rules.len() == 0 {
        Seq::empty()
    } else {
        function_rules_findings(
            threshold,
            rules.subrange(0, rules.len() - 1),
            entry,
            ctf,
            tw_functions,
        ) + function_check_spec(threshold, rules[rules.len() - 1], entry, ctf, tw_functions)
    }
}

/// The findings of one rule set over all call records.
pub open spec fn calls_findings(
    threshold: u64,
    rules: Seq<RuleV>,
    calls: Seq<CallEntryV>,
    ctf: Seq<(Seq<char>, int)>,
    tw_functions: u64,
) -> Seq<FindingV>
    decreases calls.len(),
{
    if calls.len() == 0 {
        Seq::empty()
    } else {
        calls_findings(threshold, rules, calls.subrange(0, calls.len() - 1), ctf, tw_functions)
            + function_rules_findings(threshold, rules, calls[calls.len() - 1], ctf, tw_functions)
    }
}

/// The findings of one rule set: all module-rule matches over the imports,
/// then all function-rule matches over the calls.
pub open spec fn set_findings(
    set: crate::rules::RuleSetV,
    imports: Seq<ImportEntryV>,
    calls: Seq<CallEntryV>,
    itf: Seq<(Seq<char>, int)>,
    ctf: Seq<(Seq<char>, int)>,
    cfg: Config,
) -> Seq<FindingV> {
    imports_findings(set.threshold, set.rules, imports, itf, cfg.tw_imports) + calls_findings(
        set.threshold,
        set.rules,
        calls,
        ctf,
        cfg.tw_functions,
    )
}

/// The findings of the whole catalog, set by set.
pub open spec fn sets_findings(
    sets: Seq<crate::rules::RuleSetV>,
    imports: Seq<ImportEntryV>,
    calls: Seq<CallEntryV>,
    itf: Seq<(Seq<char>, int)>,
    ctf: Seq<(Seq<char>, int)>,
    cfg: Config,
) -> Seq<FindingV>
    decreases sets.len(),
{
    if sets.len() == 0 {
        Seq::empty()
    } else {
        sets_findings(sets.subrange(0, sets.len() - 1), imports, calls, itf, ctf, cfg)
            + set_findings(sets[sets.len() - 1], imports, calls, itf, ctf, cfg)
    }
}

/// Everything one evaluation emits, in order: the canary findings, the
/// dynamic-import findings, then the rule-catalog findings.
pub open spec fn findings_spec(
    sets: Seq<crate::rules::RuleSetV>,
    canaries: Seq<(Seq<char>, CanaryInfoV)>,
    src: SourceFile,
    cfg: Config,
) -> Seq<FindingV> {
    canary_findings(canaries, src.variable_visitor@.variables, src.variable_visitor@.locations)
        + dynamic_findings(src.import_visitor@.imports, cfg.tw_imports) + sets_findings(
        sets,
        src.import_visitor@.imports,
        src.call_visitor@.entries,
        src.import_visitor.tfidf_view(),
        src.call_visitor.tfidf_view(),
        cfg,
    )
}


/// Projections distribute over concatenation, and so do the alert counts.
pub proof fn lemma_findings_concat(a: Seq<FindingV>, b: Seq<FindingV>)
    ensures
        finding_bulletins(a + b) == finding_bulletins(a) + finding_bulletins(b),
        finding_events(a + b) == finding_events(a) + finding_events(b),
        count_function_alerts(a + b) == count_function_alerts(a) + count_function_alerts(b),
        count_import_alerts(a + b) == count_import_alerts(a) + count_import_alerts(b),
    decreases b.len(),
{
    assert(finding_bulletins(a + b) =~= finding_bulletins(a) + finding_bulletins(b));
    assert(finding_events(a + b) =~= finding_events(a) + finding_events(b));
    if b.len() == 0 {
        assert(a + b =~= a);
        assert(b.subrange(0, 0) =~= b);
    } else {
        lemma_findings_concat(a, b.subrange(0, b.len() - 1));
        assert((a + b).subrange(0, (a + b).len() - 1) =~= a + b.subrange(0, b.len() - 1));
        assert((a + b)[(a + b).len() - 1] == b[b.len() - 1]);
    }
}

/// The alert counts of a single finding.
pub proof fn lemma_count_one(f: FindingV)
    ensures
        count_function_alerts(seq![f]) == if f.bulletin.reason is SuspiciousFunction {
            1int
        } else {
            0int
        },
        count_import_alerts(seq![f]) == if f.bulletin.reason is SuspiciousFunction {
            0int
        } else {
            1int
        },
{
    assert(count_function_alerts(Seq::<FindingV>::empty()) == 0);
    assert(count_import_alerts(Seq::<FindingV>::empty()) == 0);
    assert(seq![f].subrange(0, 0) =~= Seq::<FindingV>::empty());
}

/// The alert counts of a pair of findings.
pub proof fn lemma_count_two(f: FindingV, g: FindingV)
    ensures
        count_function_alerts(seq![f].push(g)) == count_function_alerts(seq![f]) + if g
            .bulletin.reason is SuspiciousFunction {
            1int
        } else {
            0int
        },
        count_import_alerts(seq![f].push(g)) == count_import_alerts(seq![f]) + if g
            .bulletin.reason is SuspiciousFunction {
            0int
        } else {
            1int
        },
{
    lemma_count_one(f);
    assert(seq![f].push(g).subrange(0, 1) =~= seq![f]);
}

/// Appending one finding bumps the matching count.
pub proof fn lemma_count_push(fs: Seq<FindingV>, g: FindingV)
    ensures
        count_function_alerts(fs.push(g)) == count_function_alerts(fs) + if g
            .bulletin.reason is SuspiciousFunction {
            1int
        } else {
            0int
        },
        count_import_alerts(fs.push(g)) == count_import_alerts(fs) + if g
            .bulletin.reason is SuspiciousFunction {
            0int
        } else {
            1int
        },
{
    assert(fs.push(g).subrange(0, fs.push(g).len() - 1) =~= fs);
}

/// Canary findings for one binding never carry the function reason.
pub proof fn lemma_canary_var_no_function(
    canaries: Seq<(Seq<char>, CanaryInfoV)>,
    ident: Seq<char>,
    value: ValueV,
    locs: Seq<(Seq<char>, Location)>,
)
    ensures
        count_function_alerts(canary_var_findings(canaries, ident, value, locs)) == 0,
        count_import_alerts(canary_var_findings(canaries, ident, value, locs))
            == canary_var_findings(canaries, ident, value, locs).len(),
    decreases canaries.len(),
{
    if canaries.len() == 0 {
    } else {
        let pre = canaries.subrange(0, canaries.len() - 1);
        lemma_canary_var_no_function(pre, ident, value, locs);
        let fs_pre = canary_var_findings(pre, ident, value, locs);
        let fs = canary_var_findings(canaries, ident, value, locs);
        if fs.len() == fs_pre.len() + 1 {
            lemma_count_push(fs_pre, fs[fs.len() - 1]);
        }
        assert(fs == fs_pre || fs == fs_pre.push(fs[fs.len() - 1]));
    }
}

/// Canary findings never carry the function reason.
pub proof fn lemma_canary_no_function(
    canaries: Seq<(Seq<char>, CanaryInfoV)>,
    vars: Seq<(Seq<char>, ValueV)>,
    locs: Seq<(Seq<char>, Location)>,
)
    ensures
        count_function_alerts(canary_findings(canaries, vars, locs)) == 0,
    decreases vars.len(),
{
    if vars.len() > 0 {
        let pre = vars.subrange(0, vars.len() - 1);
        lemma_canary_no_function(canaries, pre, locs);
        lemma_canary_var_no_function(canaries, vars[vars.len() - 1].0, vars[vars.len() - 1].1, locs);
        lemma_findings_concat(
            canary_findings(canaries, pre, locs),
            canary_var_findings(canaries, vars[vars.len() - 1].0, vars[vars.len() - 1].1, locs),
        );
    }
}

/// Dynamic-import findings never carry the function reason.
pub proof fn lemma_dynamic_no_function(imports: Seq<ImportEntryV>, tw: u64)
    ensures
        count_function_alerts(dynamic_findings(imports, tw)) == 0,
    decreases imports.len(),
{
    if imports.len() > 0 {
        let pre = imports.subrange(0, imports.len() - 1);
        lemma_dynamic_no_function(pre, tw);
        let chunk = dynamic_check_spec(imports[imports.len() - 1], tw);
        if chunk.len() > 0 {
            lemma_count_one(chunk[0]);
            assert(chunk =~= seq![chunk[0]]);
        } else {
            assert(chunk =~= Seq::<FindingV>::empty());
        }
        lemma_findings_concat(dynamic_findings(pre, tw), chunk);
    }
}

/// Alert counts are at most the number of findings.
pub proof fn lemma_alert_counts_bound(fs: Seq<FindingV>)
    ensures
        0 <= count_function_alerts(fs) <= fs.len(),
        0 <= count_import_alerts(fs) <= fs.len(),
        count_function_alerts(fs) + count_import_alerts(fs) == fs.len(),
    decreases fs.len(),
{
    if fs.len() > 0 {
        lemma_alert_counts_bound(fs.subrange(0, fs.len() - 1));
    }
}

/// Module-rule findings never carry the function reason.
pub proof fn lemma_module_rules_counts(
    threshold: u64,
    rules: Seq<RuleV>,
    entry: ImportEntryV,
    itf: Seq<(Seq<char>, int)>,
    tw: u64,
)
    ensures
        count_function_alerts(module_rules_findings(threshold, rules, entry, itf, tw)) == 0,
    decreases rules.len(),
{
    if rules.len() > 0 {
        let pre = rules.subrange(0, rules.len() - 1);
        lemma_module_rules_counts(threshold, pre, entry, itf, tw);
        let chunk = module_check_spec(threshold, rules[rules.len() - 1], entry, itf, tw);
        if chunk.len() == 2 {
            lemma_count_two(chunk[0], chunk[1]);
            lemma_count_one(chunk[0]);
            assert(chunk =~= seq![chunk[0]].push(chunk[1]));
        } else if chunk.len() == 1 {
            lemma_count_one(chunk[0]);
            assert(chunk =~= seq![chunk[0]]);
        } else {
            assert(chunk =~= Seq::<FindingV>::empty());
        }
        lemma_findings_concat(module_rules_findings(threshold, pre, entry, itf, tw), chunk);
    }
}

/// Import-side rule findings never carry the function reason.
pub proof fn lemma_imports_part_counts(
    threshold: u64,
    rules: Seq<RuleV>,
    imports: Seq<ImportEntryV>,
    itf: Seq<(Seq<char>, int)>,
    tw: u64,
)
    ensures
        count_function_alerts(imports_findings(threshold, rules, imports, itf, tw)) == 0,
    decreases imports.len(),
{
    if imports.len() > 0 {
        let pre = imports.subrange(0, imports.len() - 1);
        lemma_imports_part_counts(threshold, rules, pre, itf, tw);
        lemma_module_rules_counts(threshold, rules, imports[imports.len() - 1], itf, tw);
        lemma_findings_concat(
            imports_findings(threshold, rules, pre, itf, tw),
            module_rules_findings(threshold, rules, imports[imports.len() - 1], itf, tw),
        );
    }
}

/// Function-rule findings never carry an import-side reason.
pub proof fn lemma_function_rules_counts(
    threshold: u64,
    rules: Seq<RuleV>,
    entry: CallEntryV,
    ctf: Seq<(Seq<char>, int)>,
    tw: u64,
)
    ensures
        count_import_alerts(function_rules_findings(threshold, rules, entry, ctf, tw)) == 0,
    decreases rules.len(),
{
    if rules.len() > 0 {
        let pre = rules.subrange(0, rules.len() - 1);
        lemma_function_rules_counts(threshold, pre, entry, ctf, tw);
        let chunk = function_check_spec(threshold, rules[rules.len() - 1], entry, ctf, tw);
        if chunk.len() == 1 {
            lemma_count_one(chunk[0]);
            assert(chunk =~= seq![chunk[0]]);
        } else {
            assert(chunk =~= Seq::<FindingV>::empty());
        }
        lemma_findings_concat(function_rules_findings(threshold, pre, entry, ctf, tw), chunk);
    }
}

/// Call-side rule findings never carry an import-side reason.
pub proof fn lemma_calls_part_counts(
    threshold: u64,
    rules: Seq<RuleV>,
    calls: Seq<CallEntryV>,
    ctf: Seq<(Seq<char>, int)>,
    tw: u64,
)
    ensures
        count_import_alerts(calls_findings(threshold, rules, calls, ctf, tw)) == 0,
    decreases calls.len(),
{
    if calls.len() > 0 {
        let pre = calls.subrange(0, calls.len() - 1);
        lemma_calls_part_counts(threshold, rules, pre, ctf, tw);
        lemma_function_rules_counts(threshold, rules, calls[calls.len() - 1], ctf, tw);
        lemma_findings_concat(
            calls_findings(threshold, rules, pre, ctf, tw),
            function_rules_findings(threshold, rules, calls[calls.len() - 1], ctf, tw),
        );
    }
}

/// Runs the rule catalog and the canary catalog against sources.
#[derive(Debug)]
pub struct Evaluator {
    pub rule_sets: Vec<RuleSet>,
    pub canaries: Canaries,
}

impl Evaluator {
    pub fn new(rule_sets: Vec<RuleSet>, canaries: Canaries) -> (r: Self)
        ensures
            r.rule_sets@ == rule_sets@,
            r.canaries.canaries@ == canaries.canaries@,
    {
        Evaluator { rule_sets, canaries }
    }

    /// Applies one module rule to one import record.
    #[verifier::loop_isolation(false)]
    fn rule_check_module(
        &self,
        source: &SourceFile,
        entry: &ImportEntry,
        rule: &Rule,
        set: &RuleSet,
        events: &mut Vec<DensityEvent>,
        bulletins: &mut Vec<Bulletin>,
        alerts: &mut usize,
        config: &Config,
    )
        requires
            *old(alerts) <= old(bulletins)@.len(),
        ensures
            ({
                let fs = module_check_spec(
                    set.threshold,
                    rule_view(*rule),
                    import_entry_view(*entry),
                    source.import_visitor.tfidf_view(),
                    config.tw_imports,
                );
                &&& bulletins_view(final(bulletins)@) == bulletins_view(old(bulletins)@)
                    + finding_bulletins(fs)
                &&& final(events)@ == old(events)@ + finding_events(fs)
                &&& *final(alerts) == *old(alerts) + count_import_alerts(fs)
                &&& *final(alerts) <= final(bulletins)@.len()
            }),
    {
        let ghost fs = module_check_spec(
            set.threshold,
            rule_view(*rule),
            import_entry_view(*entry),
            source.import_visitor.tfidf_view(),
            config.tw_imports,
        );
        match rule {
            Rule::Module(func, ident, _name, _desc) => {
                if crate::strutil::str_eq(entry.module.as_str(), ident.as_str()) {
                    let multiplier: u64 = match source.get_import_tfidf(ident.as_str()) {
                        Some(v) => v,
                        None => 1_000_000,
                    };
                    let notif = Bulletin::new(
                        ident.clone(),
                        BulletinReason::SuspiciousImport,
                        entry.location,
                        Some(*func),
                        set.threshold,
                    );
                    bulletins.push(notif);
                    events.push(
                        DensityEvent {
                            field: FieldType::Imports,
                            row: entry.location.row,
                            multiplier,
                            tfidf_weight: config.tw_imports,
                        },
                    );
                    // Reading the length here bounds the counter, so its increment
                    // cannot wrap.
                    // Reading the length here bounds the counter, so its
                    // increment cannot wrap.
                    let cap: usize = bulletins.len();
                    *alerts = *alerts + 1;
                    let inside = match entry.context {
                        Lexical::Function => true,
                        Lexical::Global => false,
                    };
                    if inside {
                        let notif2 = Bulletin::new(
                            entry.module.clone(),
                            BulletinReason::ImportInsideFunction,
                            entry.location,
                            None,
                            IMPORT_IN_FUNCTION_THRESHOLD,
                        );
                        bulletins.push(notif2);
                        events.push(
                            DensityEvent {
                                field: FieldType::Imports,
                                row: entry.location.row,
                                multiplier: 1_000_000,
                                tfidf_weight: config.tw_imports,
                            },
                        );
                        // Reading the length here bounds the counter again.
                        let cap2: usize = bulletins.len();
                        *alerts = *alerts + 1;
                    }
                    proof {
                        if inside {
                            assert(fs.len() == 2);
                            lemma_count_two(fs[0], fs[1]);
                            lemma_count_one(fs[0]);
                            assert(fs =~= seq![fs[0]].push(fs[1]));
                        } else {
                            assert(fs.len() == 1);
                            lemma_count_one(fs[0]);
                            assert(fs =~= seq![fs[0]]);
                        }
                        assert(bulletins_view(bulletins@) =~= bulletins_view(old(bulletins)@)
                            + finding_bulletins(fs));
                        assert(events@ =~= old(events)@ + finding_events(fs));
                    }
                } else {
                    proof {
                        assert(fs =~= Seq::<FindingV>::empty());
                        assert(bulletins_view(bulletins@) =~= bulletins_view(old(bulletins)@)
                            + finding_bulletins(fs));
                        assert(events@ =~= old(events)@ + finding_events(fs));
                    }
                }
            },
            Rule::Function(..) => {
                proof {
                    assert(fs =~= Seq::<FindingV>::empty());
                    assert(bulletins_view(bulletins@) =~= bulletins_view(old(bulletins)@)
                        + finding_bulletins(fs));
                    assert(events@ =~= old(events)@ + finding_events(fs));
                }
            },
        }
    }

    /// Applies one function rule to one call record.
    #[verifier::loop_isolation(false)]
    fn rule_check_function(
        &self,
        source: &SourceFile,
        entry: &crate::call_visitor::CallEntry,
        rule: &Rule,
        set: &RuleSet,
        events: &mut Vec<DensityEvent>,
        bulletins: &mut Vec<Bulletin>,
        alerts: &mut usize,
        config: &Config,
    )
        requires
            *old(alerts) <= old(bulletins)@.len(),
        ensures
            ({
                let fs = function_check_spec(
                    set.threshold,
                    rule_view(*rule),
                    crate::call_visitor::call_entry_view(*entry),
                    source.call_visitor.tfidf_view(),
                    config.tw_functions,
                );
                &&& bulletins_view(final(bulletins)@) == bulletins_view(old(bulletins)@)
                    + finding_bulletins(fs)
                &&& final(events)@ == old(events)@ + finding_events(fs)
                &&& *final(alerts) == *old(alerts) + count_function_alerts(fs)
                &&& *final(alerts) <= final(bulletins)@.len()
            }),
    {
        let ghost fs = function_check_spec(
            set.threshold,
            rule_view(*rule),
            crate::call_visitor::call_entry_view(*entry),
            source.call_visitor.tfidf_view(),
            config.tw_functions,
        );
        match rule {
            Rule::Function(func, ident, _name, _desc) => {
                let last = crate::utils::get_last_attr(entry.full_identifier.as_str());
                if crate::strutil::str_eq(last, ident.as_str()) {
                    let multiplier: u64 = match source.get_call_tfidf(
                        entry.full_identifier.as_str(),
                    ) {
                        Some(v) => v,
                        None => 1_000_000,
                    };
                    let notif = Bulletin::new(
                        entry.full_identifier.clone(),
                        BulletinReason::SuspiciousFunction,
                        entry.location,
                        Some(*func),
                        set.threshold,
                    );
                    bulletins.push(notif);
                    events.push(
                        DensityEvent {
                            field: FieldType::Functions,
                            row: entry.location.row,
                            multiplier,
                            tfidf_weight: config.tw_functions,
                        },
                    );
                    // Reading the length here bounds the counter, so its increment
                    // cannot wrap.
                    // Reading the length here bounds the counter, so its
                    // increment cannot wrap.
                    let cap: usize = bulletins.len();
                    *alerts = *alerts + 1;
                    proof {
                        assert(fs.len() == 1);
                        lemma_count_one(fs[0]);
                        assert(fs =~= seq![fs[0]]);
                        assert(bulletins_view(bulletins@) =~= bulletins_view(old(bulletins)@)
                            + finding_bulletins(fs));
                        assert(events@ =~= old(events)@ + finding_events(fs));
                    }
                } else {
                    proof {
                        assert(fs =~= Seq::<FindingV>::empty());
                        assert(bulletins_view(bulletins@) =~= bulletins_view(old(bulletins)@)
                            + finding_bulletins(fs));
                        assert(events@ =~= old(events)@ + finding_events(fs));
                    }
                }
            },
            Rule::Module(..) => {
                proof {
                    assert(fs =~= Seq::<FindingV>::empty());
                    assert(bulletins_view(bulletins@) =~= bulletins_view(old(bulletins)@)
                        + finding_bulletins(fs));
                    assert(events@ =~= old(events)@ + finding_events(fs));
                }
            },
        }
    }

    /// Flags a dynamically discovered import.
    #[verifier::loop_isolation(false)]
    fn misc_import_checks(
        &self,
        entry: &ImportEntry,
        events: &mut Vec<DensityEvent>,
        bulletins: &mut Vec<Bulletin>,
        alerts: &mut usize,
        config: &Config,
    )
        requires
            *old(alerts) <= old(bulletins)@.len(),
        ensures
            ({
                let fs = dynamic_check_spec(import_entry_view(*entry), config.tw_imports);
                &&& bulletins_view(final(bulletins)@) == bulletins_view(old(bulletins)@)
                    + finding_bulletins(fs)
                &&& final(events)@ == old(events)@ + finding_events(fs)
                &&& *final(alerts) == *old(alerts) + count_import_alerts(fs)
                &&& *final(alerts) <= final(bulletins)@.len()
            }),
    {
        let ghost fs = dynamic_check_spec(import_entry_view(*entry), config.tw_imports);
        if entry.is_dynamic {
            let notif = Bulletin::new(
                entry.module.clone(),
                BulletinReason::DynamicImport,
                entry.location,
                None,
                INFO_THRESHOLD,
            );
            bulletins.push(notif);
            events.push(
                DensityEvent {
                    field: FieldType::Behavior,
                    row: entry.location.row,
                    multiplier: 1_000_000,
                    tfidf_weight: config.tw_imports,
                },
            );
            // Reading the length here bounds the counter, so its increment
                    // cannot wrap.
                    // Reading the length here bounds the counter, so its increment
            // cannot wrap.
            let cap: usize = bulletins.len();
            *alerts = *alerts + 1;
            proof {
                assert(fs.len() == 1);
                lemma_count_one(fs[0]);
                assert(fs =~= seq![fs[0]]);
                assert(bulletins_view(bulletins@) =~= bulletins_view(old(bulletins)@)
                    + finding_bulletins(fs));
                assert(events@ =~= old(events)@ + finding_events(fs));
            }
        } else {
            proof {
                assert(fs =~= Seq::<FindingV>::empty());
                assert(bulletins_view(bulletins@) =~= bulletins_view(old(bulletins)@)
                    + finding_bulletins(fs));
                assert(events@ =~= old(events)@ + finding_events(fs));
            }
        }
    }

    /// Checks one string binding against the whole canary catalog.
    #[verifier::loop_isolation(false)]
    fn canary_check_var(
        &self,
        source: &SourceFile,
        ident: &String,
        variable: &crate::value::VariableType,
        events: &mut Vec<DensityEvent>,
        bulletins: &mut Vec<Bulletin>,
        alerts: &mut usize,
    )
        requires
            *old(alerts) <= old(bulletins)@.len(),
        ensures
            ({
                let fs = canary_var_findings(
                    canaries_view(self.canaries.canaries@),
                    ident@,
                    crate::value::value_view(*variable),
                    source.variable_visitor@.locations,
                );
                &&& bulletins_view(final(bulletins)@) == bulletins_view(old(bulletins)@)
                    + finding_bulletins(fs)
                &&& final(events)@ == old(events)@ + finding_events(fs)
                &&& *final(alerts) == *old(alerts) + count_import_alerts(fs)
                &&& *final(alerts) <= final(bulletins)@.len()
            }),
    {
        let ghost cv = canaries_view(self.canaries.canaries@);
        let ghost vval = crate::value::value_view(*variable);
        let ghost locs = source.variable_visitor@.locations;
        let n: usize = self.canaries.canaries.len();
        let mut i: usize = 0;
        while i < n
            invariant
                n == self.canaries.canaries@.len(),
                0 <= i <= n,
                *alerts <= bulletins@.len(),
                ({
                    let fs = canary_var_findings(cv.subrange(0, i as int), ident@, vval, locs);
                    &&& bulletins_view(bulletins@) == bulletins_view(old(bulletins)@)
                        + finding_bulletins(fs)
                    &&& events@ == old(events)@ + finding_events(fs)
                    &&& *alerts == *old(alerts) + count_import_alerts(fs)
                }),
            decreases n - i,
        {
            let ghost fs_pre = canary_var_findings(cv.subrange(0, i as int), ident@, vval, locs);
            let ghost cvi1 = cv.subrange(0, i + 1);
            proof {
                assert(cvi1.subrange(0, i as int) =~= cv.subrange(0, i as int));
                assert(cvi1[i as int] == cv[i as int]);
            }
            let ghost goal = canary_var_findings(cvi1, ident@, vval, locs);
            let key = &self.canaries.canaries[i].0;
            let is_str = variable.is_string();
            if is_str {
                match variable.get_string() {
                    Some(str_var) => {
                        if crate::strutil::starts_with(str_var.as_str(), key.as_str()) {
                            match crate::variable_visitor::loc_get(
                                source.variable_visitor.get_locations(),
                                ident.as_str(),
                            ) {
                                Some(location) => {
                                    let info = &self.canaries.canaries[i].1;
                                    let mut message = String::from_str("detected '");
                                    message.append(info.identifier.as_str());
                                    message.append("' using transform '");
                                    message.append(info.transform.as_str());
                                    message.append("'");
                                    proof {
                                        assert(message@ == canary_message_spec(
                                            cv[i as int].1,
                                        ));
                                    }
                                    let notif = Bulletin::new(
                                        info.identifier.clone(),
                                        BulletinReason::Canary(message),
                                        location,
                                        None,
                                        INFO_THRESHOLD,
                                    );
                                    let ghost nview = crate::bulletin::bulletin_view(notif);
                                    bulletins.push(notif);
                                    events.push(
                                        DensityEvent {
                                            field: FieldType::Strings,
                                            row: location.row,
                                            multiplier: 1_000_000,
                                            tfidf_weight: 1_000_000,
                                        },
                                    );
                                    // Reading the length here bounds the counter, so its increment
                    // cannot wrap.
                    let cap: usize = bulletins.len();
                                    *alerts = *alerts + 1;
                                    proof {
                                        let c = cv[i as int];
                                        assert(vval is Str);
                                        assert(crate::strutil::is_prefix_of(c.0, vval->Str_0));
                                        assert(alist_get(locs, ident@) == Option::Some(
                                            location,
                                        ));
                                        assert(goal == fs_pre.push(goal[goal.len() - 1]));
                                        assert(nview =~= goal[goal.len() - 1].bulletin);
                                        lemma_count_push(fs_pre, goal[goal.len() - 1]);
                                        let a = bulletins_view(old(bulletins)@);
                                        assert(finding_bulletins(goal) =~= finding_bulletins(
                                            fs_pre,
                                        ).push(goal[goal.len() - 1].bulletin));
                                        assert(a + finding_bulletins(fs_pre).push(
                                            goal[goal.len() - 1].bulletin,
                                        ) =~= (a + finding_bulletins(fs_pre)).push(
                                            goal[goal.len() - 1].bulletin,
                                        ));
                                        assert(finding_events(goal) =~= finding_events(
                                            fs_pre,
                                        ).push(goal[goal.len() - 1].event));
                                        assert(old(events)@ + finding_events(fs_pre).push(
                                            goal[goal.len() - 1].event,
                                        ) =~= (old(events)@ + finding_events(fs_pre)).push(
                                            goal[goal.len() - 1].event,
                                        ));
                                        assert(bulletins_view(bulletins@) =~= bulletins_view(
                                            old(bulletins)@,
                                        ) + finding_bulletins(goal));
                                        assert(events@ =~= old(events)@ + finding_events(goal));
                                    }
                                },
                                None => {
                                    proof {
                                        assert(alist_get(locs, ident@) is None);
                                        assert(goal == fs_pre);
                                    }
                                },
                            }
                        } else {
                            proof {
                                assert(goal == fs_pre);
                            }
                        }
                    },
                    None => {
                        proof {
                            assert(goal == fs_pre);
                        }
                    },
                }
            } else {
                proof {
                    assert(!(vval is Str));
                    assert(goal == fs_pre);
                }
            }
            i = i + 1;
        }
        proof {
            assert(cv.subrange(0, n as int) =~= cv);
        }
    }

    /// Emits the canary findings for every binding, in binding order.
    #[verifier::loop_isolation(false)]
    fn canary_phase(&self, analysis: &mut crate::analysis::SourceAnalysis)
        requires
            old(analysis).alerts_imports <= old(analysis).bulletins@.len(),
            old(analysis).alerts_functions <= old(analysis).bulletins@.len(),
        ensures
            ({
                let fs = canary_findings(
                    canaries_view(self.canaries.canaries@),
                    old(analysis).source.variable_visitor@.variables,
                    old(analysis).source.variable_visitor@.locations,
                );
                &&& bulletins_view(final(analysis).bulletins@) == bulletins_view(
                    old(analysis).bulletins@,
                ) + finding_bulletins(fs)
                &&& final(analysis).density_events@ == old(analysis).density_events@
                    + finding_events(fs)
                &&& final(analysis).alerts_imports == old(analysis).alerts_imports
                    + count_import_alerts(fs)
            }),
            final(analysis).alerts_functions == old(analysis).alerts_functions,
            final(analysis).alerts_imports <= final(analysis).bulletins@.len(),
            final(analysis).alerts_functions <= final(analysis).bulletins@.len(),
            final(analysis).source == old(analysis).source,
            final(analysis).combined_density@ == old(analysis).combined_density@,
            final(analysis).message == old(analysis).message,
            final(analysis).show_all == old(analysis).show_all,
            final(analysis).global_threshold == old(analysis).global_threshold,
    {
        let ghost src0 = analysis.source;
        let ghost cv = canaries_view(self.canaries.canaries@);
        let ghost b0 = bulletins_view(old(analysis).bulletins@);
        let ghost e0 = old(analysis).density_events@;
        let ghost ai0 = old(analysis).alerts_imports as int;
        let ghost vars = analysis.source.variable_visitor@.variables;
        let ghost locs = analysis.source.variable_visitor@.locations;
        let nv: usize = analysis.source.variable_visitor.variables.len();
        let mut i: usize = 0;
        while i < nv
            invariant
                nv == analysis.source.variable_visitor.variables@.len(),
                0 <= i <= nv,
                analysis.source == src0,
                analysis.combined_density@ == old(analysis).combined_density@,
                analysis.message == old(analysis).message,
                analysis.show_all == old(analysis).show_all,
                analysis.global_threshold == old(analysis).global_threshold,
                analysis.alerts_functions == old(analysis).alerts_functions,
                analysis.alerts_functions <= analysis.bulletins@.len(),
                analysis.alerts_imports <= analysis.bulletins@.len(),
                ({
                    let fs = canary_findings(cv, vars.subrange(0, i as int), locs);
                    &&& bulletins_view(analysis.bulletins@) == b0 + finding_bulletins(fs)
                    &&& analysis.density_events@ == e0 + finding_events(fs)
                    &&& analysis.alerts_imports == ai0 + count_import_alerts(fs)
                }),
            decreases nv - i,
        {
            let ghost fs_pre = canary_findings(cv, vars.subrange(0, i as int), locs);
            let pair_ident = analysis.source.variable_visitor.variables[i].0.clone();
            let pair_value = analysis.source.variable_visitor.variables[i].1.clone();
            proof {
                assert(vars[i as int] == (
                    analysis.source.variable_visitor.variables@[i as int].0@,
                    crate::value::value_view(
                        analysis.source.variable_visitor.variables@[i as int].1,
                    ),
                ));
            }
            let mut bulletins: Vec<Bulletin> = Vec::new();
            core::mem::swap(&mut bulletins, &mut analysis.bulletins);
            let mut events: Vec<DensityEvent> = Vec::new();
            core::mem::swap(&mut events, &mut analysis.density_events);
            let mut alerts: usize = analysis.alerts_imports;
            self.canary_check_var(
                &analysis.source,
                &pair_ident,
                &pair_value,
                &mut events,
                &mut bulletins,
                &mut alerts,
            );
            analysis.bulletins = bulletins;
            analysis.density_events = events;
            analysis.alerts_imports = alerts;
            proof {
                let chunk = canary_var_findings(cv, vars[i as int].0, vars[i as int].1, locs);
                lemma_findings_concat(fs_pre, chunk);
                assert(vars.subrange(0, i + 1).subrange(0, i as int) =~= vars.subrange(
                    0,
                    i as int,
                ));
                assert(vars.subrange(0, i + 1)[i as int] == vars[i as int]);
                assert(canary_findings(cv, vars.subrange(0, i + 1), locs) == fs_pre + chunk);
                assert(b0 + (finding_bulletins(fs_pre) + finding_bulletins(chunk)) =~= (b0
                    + finding_bulletins(fs_pre)) + finding_bulletins(chunk));
                assert(e0 + (finding_events(fs_pre) + finding_events(chunk)) =~= (e0
                    + finding_events(fs_pre)) + finding_events(chunk));
            }
            i = i + 1;
        }
        proof {
            assert(vars.subrange(0, nv as int) =~= vars);
        }
    }

    /// Emits the dynamic-import findings, in record order.
    #[verifier::loop_isolation(false)]
    fn dynamic_phase(&self, analysis: &mut crate::analysis::SourceAnalysis, config: &Config)
        requires
            old(analysis).alerts_imports <= old(analysis).bulletins@.len(),
            old(analysis).alerts_functions <= old(analysis).bulletins@.len(),
        ensures
            ({
                let fs = dynamic_findings(
                    old(analysis).source.import_visitor@.imports,
                    config.tw_imports,
                );
                &&& bulletins_view(final(analysis).bulletins@) == bulletins_view(
                    old(analysis).bulletins@,
                ) + finding_bulletins(fs)
                &&& final(analysis).density_events@ == old(analysis).density_events@
                    + finding_events(fs)
                &&& final(analysis).alerts_imports == old(analysis).alerts_imports
                    + count_import_alerts(fs)
            }),
            final(analysis).alerts_functions == old(analysis).alerts_functions,
            final(analysis).alerts_imports <= final(analysis).bulletins@.len(),
            final(analysis).alerts_functions <= final(analysis).bulletins@.len(),
            final(analysis).source == old(analysis).source,
            final(analysis).combined_density@ == old(analysis).combined_density@,
            final(analysis).message == old(analysis).message,
            final(analysis).show_all == old(analysis).show_all,
            final(analysis).global_threshold == old(analysis).global_threshold,
    {
        let ghost src0 = analysis.source;
        let ghost b0 = bulletins_view(old(analysis).bulletins@);
        let ghost e0 = old(analysis).density_events@;
        let ghost ai0 = old(analysis).alerts_imports as int;
        let ghost imps = analysis.source.import_visitor@.imports;
        let ni: usize = analysis.source.import_visitor.imports.len();
        let mut j: usize = 0;
        while j < ni
            invariant
                ni == analysis.source.import_visitor.imports@.len(),
                0 <= j <= ni,
                analysis.source == src0,
                analysis.combined_density@ == old(analysis).combined_density@,
                analysis.message == old(analysis).message,
                analysis.show_all == old(analysis).show_all,
                analysis.global_threshold == old(analysis).global_threshold,
                analysis.alerts_functions == old(analysis).alerts_functions,
                analysis.alerts_functions <= analysis.bulletins@.len(),
                analysis.alerts_imports <= analysis.bulletins@.len(),
                ({
                    let fs = dynamic_findings(imps.subrange(0, j as int), config.tw_imports);
                    &&& bulletins_view(analysis.bulletins@) == b0 + finding_bulletins(fs)
                    &&& analysis.density_events@ == e0 + finding_events(fs)
                    &&& analysis.alerts_imports == ai0 + count_import_alerts(fs)
                }),
            decreases ni - j,
        {
            let ghost fs_pre = dynamic_findings(imps.subrange(0, j as int), config.tw_imports);
            let mut bulletins: Vec<Bulletin> = Vec::new();
            core::mem::swap(&mut bulletins, &mut analysis.bulletins);
            let mut events: Vec<DensityEvent> = Vec::new();
            core::mem::swap(&mut events, &mut analysis.density_events);
            let mut alerts: usize = analysis.alerts_imports;
            proof {
                assert(import_entries_view(analysis.source.import_visitor.imports@)[j as int]
                    == imps[j as int]);
            }
            self.misc_import_checks(
                &analysis.source.import_visitor.imports[j],
                &mut events,
                &mut bulletins,
                &mut alerts,
                config,
            );
            analysis.bulletins = bulletins;
            analysis.density_events = events;
            analysis.alerts_imports = alerts;
            proof {
                let chunk = dynamic_check_spec(imps[j as int], config.tw_imports);
                lemma_findings_concat(fs_pre, chunk);
                assert(imps.subrange(0, j + 1).subrange(0, j as int) =~= imps.subrange(
                    0,
                    j as int,
                ));
                assert(imps.subrange(0, j + 1)[j as int] == imps[j as int]);
                assert(dynamic_findings(imps.subrange(0, j + 1), config.tw_imports) == fs_pre
                    + chunk);
                assert(b0 + (finding_bulletins(fs_pre) + finding_bulletins(chunk)) =~= (b0
                    + finding_bulletins(fs_pre)) + finding_bulletins(chunk));
                assert(e0 + (finding_events(fs_pre) + finding_events(chunk)) =~= (e0
                    + finding_events(fs_pre)) + finding_events(chunk));
            }
            j = j + 1;
        }
        proof {
            assert(imps.subrange(0, ni as int) =~= imps);
        }
    }

    /// Emits one rule set's module-rule findings over the imports.
    #[verifier::loop_isolation(false)]
    fn set_imports_phase(
        &self,
        set: &RuleSet,
        analysis: &mut crate::analysis::SourceAnalysis,
        config: &Config,
    )
        requires
            old(analysis).alerts_imports <= old(analysis).bulletins@.len(),
            old(analysis).alerts_functions <= old(analysis).bulletins@.len(),
        ensures
            ({
                let fs = imports_findings(
                    rule_set_view(*set).threshold,
                    rule_set_view(*set).rules,
                    old(analysis).source.import_visitor@.imports,
                    old(analysis).source.import_visitor.tfidf_view(),
                    config.tw_imports,
                );
                &&& bulletins_view(final(analysis).bulletins@) == bulletins_view(
                    old(analysis).bulletins@,
                ) + finding_bulletins(fs)
                &&& final(analysis).density_events@ == old(analysis).density_events@
                    + finding_events(fs)
                &&& final(analysis).alerts_imports == old(analysis).alerts_imports
                    + count_import_alerts(fs)
            }),
            final(analysis).alerts_functions == old(analysis).alerts_functions,
            final(analysis).alerts_imports <= final(analysis).bulletins@.len(),
            final(analysis).alerts_functions <= final(analysis).bulletins@.len(),
            final(analysis).source == old(analysis).source,
            final(analysis).combined_density@ == old(analysis).combined_density@,
            final(analysis).message == old(analysis).message,
            final(analysis).show_all == old(analysis).show_all,
            final(analysis).global_threshold == old(analysis).global_threshold,
    {
        let ghost src0 = analysis.source;
        let ghost b0 = bulletins_view(old(analysis).bulletins@);
        let ghost e0 = old(analysis).density_events@;
        let ghost ai0 = old(analysis).alerts_imports as int;
        let ghost imps = analysis.source.import_visitor@.imports;
        let ghost itf = analysis.source.import_visitor.tfidf_view();
        let ghost set_v = rule_set_view(*set);
        let ghost rules_v = set_v.rules;
        let ni: usize = analysis.source.import_visitor.imports.len();
        let mut j: usize = 0;
        while j < ni
            invariant
                ni == analysis.source.import_visitor.imports@.len(),
                0 <= j <= ni,
                analysis.source == src0,
                analysis.combined_density@ == old(analysis).combined_density@,
                analysis.message == old(analysis).message,
                analysis.show_all == old(analysis).show_all,
                analysis.global_threshold == old(analysis).global_threshold,
                analysis.alerts_functions == old(analysis).alerts_functions,
                analysis.alerts_functions <= analysis.bulletins@.len(),
                analysis.alerts_imports <= analysis.bulletins@.len(),
                ({
                    let fs = imports_findings(
                        set_v.threshold,
                        rules_v,
                        imps.subrange(0, j as int),
                        itf,
                        config.tw_imports,
                    );
                    &&& bulletins_view(analysis.bulletins@) == b0 + finding_bulletins(fs)
                    &&& analysis.density_events@ == e0 + finding_events(fs)
                    &&& analysis.alerts_imports == ai0 + count_import_alerts(fs)
                }),
            decreases ni - j,
        {
            let ghost fsj = imports_findings(
                set_v.threshold,
                rules_v,
                imps.subrange(0, j as int),
                itf,
                config.tw_imports,
            );
            let ghost b_imp = bulletins_view(analysis.bulletins@);
            let ghost e_imp = analysis.density_events@;
            let ghost ai_imp = analysis.alerts_imports as int;
            let nr: usize = set.rules.len();
            let mut ri: usize = 0;
            while ri < nr
                invariant
                    nr == set.rules@.len(),
                    nr == rules_v.len(),
                    0 <= ri <= nr,
                    j < ni,
                    ni == analysis.source.import_visitor.imports@.len(),
                    analysis.source == src0,
                    analysis.combined_density@ == old(analysis).combined_density@,
                    analysis.message == old(analysis).message,
                    analysis.show_all == old(analysis).show_all,
                    analysis.global_threshold == old(analysis).global_threshold,
                    analysis.alerts_functions == old(analysis).alerts_functions,
                    analysis.alerts_functions <= analysis.bulletins@.len(),
                    analysis.alerts_imports <= analysis.bulletins@.len(),
                    ({
                        let fs = module_rules_findings(
                            set_v.threshold,
                            rules_v.subrange(0, ri as int),
                            imps[j as int],
                            itf,
                            config.tw_imports,
                        );
                        &&& bulletins_view(analysis.bulletins@) == b_imp + finding_bulletins(fs)
                        &&& analysis.density_events@ == e_imp + finding_events(fs)
                        &&& analysis.alerts_imports == ai_imp + count_import_alerts(fs)
                    }),
                decreases nr - ri,
            {
                let ghost fsr = module_rules_findings(
                    set_v.threshold,
                    rules_v.subrange(0, ri as int),
                    imps[j as int],
                    itf,
                    config.tw_imports,
                );
                let mut bulletins: Vec<Bulletin> = Vec::new();
                core::mem::swap(&mut bulletins, &mut analysis.bulletins);
                let mut events: Vec<DensityEvent> = Vec::new();
                core::mem::swap(&mut events, &mut analysis.density_events);
                let mut alerts: usize = analysis.alerts_imports;
                proof {
                    assert(import_entries_view(
                        analysis.source.import_visitor.imports@,
                    )[j as int] == imps[j as int]);
                    assert(crate::rules::rules_view(set.rules@)[ri as int]
                        == rules_v[ri as int]);
                }
                self.rule_check_module(
                    &analysis.source,
                    &analysis.source.import_visitor.imports[j],
                    &set.rules[ri],
                    set,
                    &mut events,
                    &mut bulletins,
                    &mut alerts,
                    config,
                );
                analysis.bulletins = bulletins;
                analysis.density_events = events;
                analysis.alerts_imports = alerts;
                proof {
                    let chunk = module_check_spec(
                        set_v.threshold,
                        rules_v[ri as int],
                        imps[j as int],
                        itf,
                        config.tw_imports,
                    );
                    lemma_findings_concat(fsr, chunk);
                    assert(rules_v.subrange(0, ri + 1).subrange(0, ri as int) =~= rules_v
                        .subrange(0, ri as int));
                    assert(rules_v.subrange(0, ri + 1)[ri as int] == rules_v[ri as int]);
                    assert(module_rules_findings(
                        set_v.threshold,
                        rules_v.subrange(0, ri + 1),
                        imps[j as int],
                        itf,
                        config.tw_imports,
                    ) == fsr + chunk);
                    assert(b_imp + (finding_bulletins(fsr) + finding_bulletins(chunk)) =~= (b_imp
                        + finding_bulletins(fsr)) + finding_bulletins(chunk));
                    assert(e_imp + (finding_events(fsr) + finding_events(chunk)) =~= (e_imp
                        + finding_events(fsr)) + finding_events(chunk));
                }
                ri = ri + 1;
            }
            proof {
                assert(rules_v.subrange(0, nr as int) =~= rules_v);
                let chunk = module_rules_findings(
                    set_v.threshold,
                    rules_v,
                    imps[j as int],
                    itf,
                    config.tw_imports,
                );
                lemma_findings_concat(fsj, chunk);
                assert(imps.subrange(0, j + 1).subrange(0, j as int) =~= imps.subrange(
                    0,
                    j as int,
                ));
                assert(imps.subrange(0, j + 1)[j as int] == imps[j as int]);
                assert(imports_findings(
                    set_v.threshold,
                    rules_v,
                    imps.subrange(0, j + 1),
                    itf,
                    config.tw_imports,
                ) == fsj + chunk);
                assert(b0 + (finding_bulletins(fsj) + finding_bulletins(chunk)) =~= (b0
                    + finding_bulletins(fsj)) + finding_bulletins(chunk));
                assert(e0 + (finding_events(fsj) + finding_events(chunk)) =~= (e0
                    + finding_events(fsj)) + finding_events(chunk));
                assert(b_imp == b0 + finding_bulletins(fsj));
                assert(e_imp == e0 + finding_events(fsj));
            }
            j = j + 1;
        }
        proof {
            assert(imps.subrange(0, ni as int) =~= imps);
        }
    }

    /// Emits one rule set's function-rule findings over the calls.
    #[verifier::loop_isolation(false)]
    fn set_calls_phase(
        &self,
        set: &RuleSet,
        analysis: &mut crate::analysis::SourceAnalysis,
        config: &Config,
    )
        requires
            old(analysis).alerts_imports <= old(analysis).bulletins@.len(),
            old(analysis).alerts_functions <= old(analysis).bulletins@.len(),
        ensures
            ({
                let fs = calls_findings(
                    rule_set_view(*set).threshold,
                    rule_set_view(*set).rules,
                    old(analysis).source.call_visitor@.entries,
                    old(analysis).source.call_visitor.tfidf_view(),
                    config.tw_functions,
                );
                &&& bulletins_view(final(analysis).bulletins@) == bulletins_view(
                    old(analysis).bulletins@,
                ) + finding_bulletins(fs)
                &&& final(analysis).density_events@ == old(analysis).density_events@
                    + finding_events(fs)
                &&& final(analysis).alerts_functions == old(analysis).alerts_functions
                    + count_function_alerts(fs)
            }),
            final(analysis).alerts_imports == old(analysis).alerts_imports,
            final(analysis).alerts_imports <= final(analysis).bulletins@.len(),
            final(analysis).alerts_functions <= final(analysis).bulletins@.len(),
            final(analysis).source == old(analysis).source,
            final(analysis).combined_density@ == old(analysis).combined_density@,
            final(analysis).message == old(analysis).message,
            final(analysis).show_all == old(analysis).show_all,
            final(analysis).global_threshold == old(analysis).global_threshold,
    {
        let ghost src0 = analysis.source;
        let ghost b0 = bulletins_view(old(analysis).bulletins@);
        let ghost e0 = old(analysis).density_events@;
        let ghost af0 = old(analysis).alerts_functions as int;
        let ghost calls = analysis.source.call_visitor@.entries;
        let ghost ctf = analysis.source.call_visitor.tfidf_view();
        let ghost set_v = rule_set_view(*set);
        let ghost rules_v = set_v.rules;
        let nc: usize = analysis.source.call_visitor.entries.len();
        let mut j: usize = 0;
        while j < nc
            invariant
                nc == analysis.source.call_visitor.entries@.len(),
                0 <= j <= nc,
                analysis.source == src0,
                analysis.combined_density@ == old(analysis).combined_density@,
                analysis.message == old(analysis).message,
                analysis.show_all == old(analysis).show_all,
                analysis.global_threshold == old(analysis).global_threshold,
                analysis.alerts_imports == old(analysis).alerts_imports,
                analysis.alerts_imports <= analysis.bulletins@.len(),
                analysis.alerts_functions <= analysis.bulletins@.len(),
                ({
                    let fs = calls_findings(
                        set_v.threshold,
                        rules_v,
                        calls.subrange(0, j as int),
                        ctf,
                        config.tw_functions,
                    );
                    &&& bulletins_view(analysis.bulletins@) == b0 + finding_bulletins(fs)
                    &&& analysis.density_events@ == e0 + finding_events(fs)
                    &&& analysis.alerts_functions == af0 + count_function_alerts(fs)
                }),
            decreases nc - j,
        {
            let ghost fsj = calls_findings(
                set_v.threshold,
                rules_v,
                calls.subrange(0, j as int),
                ctf,
                config.tw_functions,
            );
            let ghost b_one = bulletins_view(analysis.bulletins@);
            let ghost e_one = analysis.density_events@;
            let ghost af_one = analysis.alerts_functions as int;
            let nr: usize = set.rules.len();
            let mut ri: usize = 0;
            while ri < nr
                invariant
                    nr == set.rules@.len(),
                    nr == rules_v.len(),
                    0 <= ri <= nr,
                    j < nc,
                    nc == analysis.source.call_visitor.entries@.len(),
                    analysis.source == src0,
                    analysis.combined_density@ == old(analysis).combined_density@,
                    analysis.message == old(analysis).message,
                    analysis.show_all == old(analysis).show_all,
                    analysis.global_threshold == old(analysis).global_threshold,
                    analysis.alerts_imports == old(analysis).alerts_imports,
                    analysis.alerts_imports <= analysis.bulletins@.len(),
                    analysis.alerts_functions <= analysis.bulletins@.len(),
                    ({
                        let fs = function_rules_findings(
                            set_v.threshold,
                            rules_v.subrange(0, ri as int),
                            calls[j as int],
                            ctf,
                            config.tw_functions,
                        );
                        &&& bulletins_view(analysis.bulletins@) == b_one + finding_bulletins(fs)
                        &&& analysis.density_events@ == e_one + finding_events(fs)
                        &&& analysis.alerts_functions == af_one + count_function_alerts(fs)
                    }),
                decreases nr - ri,
            {
                let ghost fsr = function_rules_findings(
                    set_v.threshold,
                    rules_v.subrange(0, ri as int),
                    calls[j as int],
                    ctf,
                    config.tw_functions,
                );
                let mut bulletins: Vec<Bulletin> = Vec::new();
                core::mem::swap(&mut bulletins, &mut analysis.bulletins);
                let mut events: Vec<DensityEvent> = Vec::new();
                core::mem::swap(&mut events, &mut analysis.density_events);
                let mut alerts: usize = analysis.alerts_functions;
                proof {
                    assert(crate::call_visitor::call_entries_view(
                        analysis.source.call_visitor.entries@,
                    )[j as int] == calls[j as int]);
                    assert(crate::rules::rules_view(set.rules@)[ri as int]
                        == rules_v[ri as int]);
                }
                self.rule_check_function(
                    &analysis.source,
                    &analysis.source.call_visitor.entries[j],
                    &set.rules[ri],
                    set,
                    &mut events,
                    &mut bulletins,
                    &mut alerts,
                    config,
                );
                analysis.bulletins = bulletins;
                analysis.density_events = events;
                analysis.alerts_functions = alerts;
                proof {
                    let chunk = function_check_spec(
                        set_v.threshold,
                        rules_v[ri as int],
                        calls[j as int],
                        ctf,
                        config.tw_functions,
                    );
                    lemma_findings_concat(fsr, chunk);
                    assert(rules_v.subrange(0, ri + 1).subrange(0, ri as int) =~= rules_v
                        .subrange(0, ri as int));
                    assert(rules_v.subrange(0, ri + 1)[ri as int] == rules_v[ri as int]);
                    assert(function_rules_findings(
                        set_v.threshold,
                        rules_v.subrange(0, ri + 1),
                        calls[j as int],
                        ctf,
                        config.tw_functions,
                    ) == fsr + chunk);
                    assert(b_one + (finding_bulletins(fsr) + finding_bulletins(chunk)) =~= (b_one
                        + finding_bulletins(fsr)) + finding_bulletins(chunk));
                    assert(e_one + (finding_events(fsr) + finding_events(chunk)) =~= (e_one
                        + finding_events(fsr)) + finding_events(chunk));
                }
                ri = ri + 1;
            }
            proof {
                assert(rules_v.subrange(0, nr as int) =~= rules_v);
                let chunk = function_rules_findings(
                    set_v.threshold,
                    rules_v,
                    calls[j as int],
                    ctf,
                    config.tw_functions,
                );
                lemma_findings_concat(fsj, chunk);
                assert(calls.subrange(0, j + 1).subrange(0, j as int) =~= calls.subrange(
                    0,
                    j as int,
                ));
                assert(calls.subrange(0, j + 1)[j as int] == calls[j as int]);
                assert(calls_findings(
                    set_v.threshold,
                    rules_v,
                    calls.subrange(0, j + 1),
                    ctf,
                    config.tw_functions,
                ) == fsj + chunk);
                assert(b0 + (finding_bulletins(fsj) + finding_bulletins(chunk)) =~= (b0
                    + finding_bulletins(fsj)) + finding_bulletins(chunk));
                assert(e0 + (finding_events(fsj) + finding_events(chunk)) =~= (e0
                    + finding_events(fsj)) + finding_events(chunk));
            }
            j = j + 1;
        }
        proof {
            assert(calls.subrange(0, nc as int) =~= calls);
        }
    }

    /// Evaluates one source: the canary check over the bindings, the
    /// dynamic-import check over the imports, then the rule catalog, set by
    /// set.  Bulletins, density events and alert counts are appended to the
    /// analysis; everything else is left as it was.
    #[verifier::loop_isolation(false)]
    #[verifier::rlimit(100)]
    pub fn evaluate(&self, analysis: &mut crate::analysis::SourceAnalysis, config: &Config)
        requires
            crate::analysis::analysis_wf(*old(analysis)),
        ensures
            crate::analysis::analysis_wf(*final(analysis)),
            ({
                let fs = findings_spec(
                    rule_sets_view(self.rule_sets@),
                    canaries_view(self.canaries.canaries@),
                    old(analysis).source,
                    *config,
                );
                &&& bulletins_view(final(analysis).bulletins@) == bulletins_view(
                    old(analysis).bulletins@,
                ) + finding_bulletins(fs)
                &&& final(analysis).density_events@ == old(analysis).density_events@
                    + finding_events(fs)
                &&& final(analysis).alerts_functions == old(analysis).alerts_functions
                    + count_function_alerts(fs)
                &&& final(analysis).alerts_imports == old(analysis).alerts_imports
                    + count_import_alerts(fs)
            }),
            final(analysis).source == old(analysis).source,
            final(analysis).combined_density@ == old(analysis).combined_density@,
            final(analysis).message == old(analysis).message,
            final(analysis).show_all == old(analysis).show_all,
            final(analysis).global_threshold == old(analysis).global_threshold,
    {
        let ghost src0 = analysis.source;
        let ghost cv = canaries_view(self.canaries.canaries@);
        let ghost setsv = rule_sets_view(self.rule_sets@);
        let ghost b0 = bulletins_view(old(analysis).bulletins@);
        let ghost e0 = old(analysis).density_events@;
        let ghost af0 = old(analysis).alerts_functions as int;
        let ghost ai0 = old(analysis).alerts_imports as int;
        let ghost vars = analysis.source.variable_visitor@.variables;
        let ghost locs = analysis.source.variable_visitor@.locations;
        let ghost imps = analysis.source.import_visitor@.imports;
        let ghost calls = analysis.source.call_visitor@.entries;
        let ghost itf = analysis.source.import_visitor.tfidf_view();
        let ghost ctf = analysis.source.call_visitor.tfidf_view();

        self.canary_phase(analysis);
        let ghost fs1 = canary_findings(cv, vars, locs);
        self.dynamic_phase(analysis, config);
        let ghost fs2 = fs1 + dynamic_findings(imps, config.tw_imports);
        proof {
            lemma_findings_concat(fs1, dynamic_findings(imps, config.tw_imports));
            lemma_canary_no_function(cv, vars, locs);
            lemma_dynamic_no_function(imps, config.tw_imports);
            assert(b0 + (finding_bulletins(fs1) + finding_bulletins(
                dynamic_findings(imps, config.tw_imports),
            )) =~= (b0 + finding_bulletins(fs1)) + finding_bulletins(
                dynamic_findings(imps, config.tw_imports),
            ));
            assert(e0 + (finding_events(fs1) + finding_events(
                dynamic_findings(imps, config.tw_imports),
            )) =~= (e0 + finding_events(fs1)) + finding_events(
                dynamic_findings(imps, config.tw_imports),
            ));
            assert(setsv.subrange(0, 0) =~= Seq::<crate::rules::RuleSetV>::empty());
            assert(sets_findings(
                Seq::<crate::rules::RuleSetV>::empty(),
                imps,
                calls,
                itf,
                ctf,
                *config,
            ) =~= Seq::<FindingV>::empty());
            assert(fs2 + Seq::<FindingV>::empty() =~= fs2);
            lemma_findings_concat(fs2, Seq::<FindingV>::empty());
        }
        let ns: usize = self.rule_sets.len();
        let mut si: usize = 0;
        while si < ns
            invariant
                ns == self.rule_sets@.len(),
                0 <= si <= ns,
                analysis.source == src0,
                analysis.combined_density@ == old(analysis).combined_density@,
                analysis.message == old(analysis).message,
                analysis.show_all == old(analysis).show_all,
                analysis.global_threshold == old(analysis).global_threshold,
                analysis.alerts_functions <= analysis.bulletins@.len(),
                analysis.alerts_imports <= analysis.bulletins@.len(),
                ({
                    let fs = fs2 + sets_findings(
                        setsv.subrange(0, si as int),
                        imps,
                        calls,
                        itf,
                        ctf,
                        *config,
                    );
                    &&& bulletins_view(analysis.bulletins@) == b0 + finding_bulletins(fs)
                    &&& analysis.density_events@ == e0 + finding_events(fs)
                    &&& analysis.alerts_imports == ai0 + count_import_alerts(fs)
                    &&& analysis.alerts_functions == af0 + count_function_alerts(fs)
                }),
            decreases ns - si,
        {
            let ghost fs_pre = fs2 + sets_findings(
                setsv.subrange(0, si as int),
                imps,
                calls,
                itf,
                ctf,
                *config,
            );
            let ghost set_v = setsv[si as int];
            proof {
                assert(set_v == rule_set_view(self.rule_sets@[si as int]));
            }
            let ghost b_set = bulletins_view(analysis.bulletins@);
            let ghost e_set = analysis.density_events@;
            self.set_imports_phase(&self.rule_sets[si], analysis, config);
            let ghost fsi = imports_findings(
                set_v.threshold,
                set_v.rules,
                imps,
                itf,
                config.tw_imports,
            );
            self.set_calls_phase(&self.rule_sets[si], analysis, config);
            let ghost fsc = calls_findings(
                set_v.threshold,
                set_v.rules,
                calls,
                ctf,
                config.tw_functions,
            );
            proof {
                lemma_findings_concat(fsi, fsc);
                lemma_imports_part_counts(set_v.threshold, set_v.rules, imps, itf, config.tw_imports);
                lemma_calls_part_counts(set_v.threshold, set_v.rules, calls, ctf, config.tw_functions);
                assert(set_findings(set_v, imps, calls, itf, ctf, *config) == fsi + fsc);
                lemma_findings_concat(fs_pre, fsi + fsc);
                assert(b_set + (finding_bulletins(fsi) + finding_bulletins(fsc)) =~= (b_set
                    + finding_bulletins(fsi)) + finding_bulletins(fsc));
                assert(e_set + (finding_events(fsi) + finding_events(fsc)) =~= (e_set
                    + finding_events(fsi)) + finding_events(fsc));
                assert(b0 + finding_bulletins(fs_pre + (fsi + fsc)) =~= (b0 + finding_bulletins(
                    fs_pre,
                )) + (finding_bulletins(fsi) + finding_bulletins(fsc)));
                assert(e0 + finding_events(fs_pre + (fsi + fsc)) =~= (e0 + finding_events(fs_pre))
                    + (finding_events(fsi) + finding_events(fsc)));
                assert(setsv.subrange(0, si + 1).subrange(0, si as int) =~= setsv.subrange(
                    0,
                    si as int,
                ));
                assert(setsv.subrange(0, si + 1)[si as int] == setsv[si as int]);
                assert(sets_findings(setsv.subrange(0, si + 1), imps, calls, itf, ctf, *config)
                    == sets_findings(setsv.subrange(0, si as int), imps, calls, itf, ctf, *config)
                    + (fsi + fsc));
                lemma_findings_concat(
                    sets_findings(setsv.subrange(0, si as int), imps, calls, itf, ctf, *config),
                    fsi + fsc,
                );
                lemma_findings_concat(
                    fs2,
                    sets_findings(setsv.subrange(0, si + 1), imps, calls, itf, ctf, *config),
                );
                lemma_findings_concat(
                    fs2,
                    sets_findings(setsv.subrange(0, si as int), imps, calls, itf, ctf, *config),
                );
                assert(fs2 + sets_findings(setsv.subrange(0, si + 1), imps, calls, itf, ctf, *config)
                    =~= fs_pre + (fsi + fsc));
            }
            si = si + 1;
        }
        proof {
            assert(setsv.subrange(0, ns as int) =~= setsv);
            let all = findings_spec(setsv, cv, src0, *config);
            let fs3 = fs2 + sets_findings(setsv, imps, calls, itf, ctf, *config);
            lemma_findings_concat(fs2, sets_findings(setsv, imps, calls, itf, ctf, *config));
            assert(all =~= fs3);
            lemma_alert_counts_bound(all);
            assert(count_function_alerts(all) == count_function_alerts(fs3));
            assert(count_import_alerts(all) == count_import_alerts(fs3));
        }
    }


}

} // verus!
