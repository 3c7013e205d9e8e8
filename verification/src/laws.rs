use vstd::prelude::*;

use crate::alist::{alist_get, alist_has};
use crate::analysis::{SourceAnalysis, visible_spec};
use crate::ast::{ExprKindV, ExprV};
use crate::bulletin::{BulletinV, bulletins_view};
use crate::call_visitor::{call_ident_of, rewrite_identifier};
use crate::canary::CanaryInfoV;
use crate::config::Config;
use crate::density::Hotspot;
use crate::evaluator::{finding_bulletins, findings_spec};
use crate::rules::RuleSetV;
use crate::strutil::is_prefix_of;
use crate::utils::base_identifier_of;

verus! {

/// An expression that is nothing but attributes over a plain identifier,
/// written out as its dotted name.
pub open spec fn dotted_name_of(e: ExprV) -> Option<Seq<char>>
    decreases e,
{
    match e.kind {
        ExprKindV::Identifier { name } => Option::Some(name),
        ExprKindV::Attribute { base, name } => match dotted_name_of(*base) {
            Option::Some(b) => Option::Some(b + seq!['.'] + name),
            Option::None => Option::None,
        },
        _ => Option::None,
    }
}

/// A callee that is a plain dotted chain resolves to exactly its dotted
/// name; and with no aliases recorded, the alias rewrite leaves that name
/// untouched.
pub proof fn law_plain_dotted_call(e: ExprV, name: Seq<char>)
    requires
        dotted_name_of(e) == Option::Some(name),
    ensures
        call_ident_of(e) == Option::Some(name),
        rewrite_identifier(Seq::empty(), name) == name,
    decreases e,
{
    match e.kind {
        ExprKindV::Identifier { .. } => {},
        ExprKindV::Attribute { base, name: attr } => {
            law_plain_dotted_call(*base, dotted_name_of(*base)->0);
        },
        _ => {},
    }
}

/// After the alias rewrite, a call whose base identifier was an alias
/// carries the alias target as a prefix of its identifier.
pub proof fn law_alias_rewrite_prefix(
    aliases: Seq<(Seq<char>, Seq<char>)>,
    full: Seq<char>,
    target: Seq<char>,
)
    requires
        alist_get(aliases, base_identifier_of(full)) == Option::Some(target),
    ensures
        is_prefix_of(target, rewrite_identifier(aliases, full)),
{
    let r = rewrite_identifier(aliases, full);
    match crate::strutil::first_index_of(full, '.') {
        Option::Some(i) => {
            assert(r == target + full.subrange(i, full.len() as int));
            assert(r.subrange(0, target.len() as int) =~= target);
        },
        Option::None => {
            assert(r == target);
            assert(r.subrange(0, target.len() as int) =~= target);
        },
    }
}

/// Every finding a module rule yields sits at the import record's
/// position: the bulletin carries the record's row and column, and the
/// density contribution centres on the same row.
pub proof fn law_module_check_locations(
    threshold: u64,
    rule: crate::rules::RuleV,
    entry: crate::import_visitor::ImportEntryV,
    itf: Seq<(Seq<char>, int)>,
    tw: u64,
)
    ensures
        forall|i: int|
            0 <= i < crate::evaluator::module_check_spec(threshold, rule, entry, itf, tw).len()
                ==> {
                let f = #[trigger] crate::evaluator::module_check_spec(
                    threshold,
                    rule,
                    entry,
                    itf,
                    tw,
                )[i];
                f.bulletin.line == entry.location.row && f.bulletin.col == entry.location.column
                    && f.event.row == entry.location.row
            },
{
}

/// Every finding a function rule yields sits at the call record's position.
pub proof fn law_function_check_locations(
    threshold: u64,
    rule: crate::rules::RuleV,
    entry: crate::call_visitor::CallEntryV,
    ctf: Seq<(Seq<char>, int)>,
    tw: u64,
)
    ensures
        forall|i: int|
            0 <= i < crate::evaluator::function_check_spec(threshold, rule, entry, ctf, tw).len()
                ==> {
                let f = #[trigger] crate::evaluator::function_check_spec(
                    threshold,
                    rule,
                    entry,
                    ctf,
                    tw,
                )[i];
                f.bulletin.line == entry.location.row && f.bulletin.col == entry.location.column
                    && f.event.row == entry.location.row
            },
{
}

/// A dynamic-import finding sits at its import record's position.
pub proof fn law_dynamic_check_locations(entry: crate::import_visitor::ImportEntryV, tw: u64)
    ensures
        forall|i: int|
            0 <= i < crate::evaluator::dynamic_check_spec(entry, tw).len() ==> {
                let f = #[trigger] crate::evaluator::dynamic_check_spec(entry, tw)[i];
                f.bulletin.line == entry.location.row && f.bulletin.col == entry.location.column
                    && f.event.row == entry.location.row
            },
{
}

/// Every canary finding for a binding sits at the binding's recorded
/// definition.
pub proof fn law_canary_locations(
    canaries: Seq<(Seq<char>, crate::canary::CanaryInfoV)>,
    ident: Seq<char>,
    value: crate::value::ValueV,
    locs: Seq<(Seq<char>, crate::location::Location)>,
)
    ensures
        forall|i: int|
            0 <= i < crate::evaluator::canary_var_findings(canaries, ident, value, locs).len()
                ==> {
                let f = #[trigger] crate::evaluator::canary_var_findings(
                    canaries,
                    ident,
                    value,
                    locs,
                )[i];
                alist_get(locs, ident) is Some && f.bulletin.line == alist_get(
                    locs,
                    ident,
                )->0.row && f.bulletin.col == alist_get(locs, ident)->0.column && f.event.row
                    == alist_get(locs, ident)->0.row
            },
    decreases canaries.len(),
{
    if canaries.len() > 0 {
        law_canary_locations(canaries.subrange(0, canaries.len() - 1), ident, value, locs);
        let fs = crate::evaluator::canary_var_findings(canaries, ident, value, locs);
        let pre = crate::evaluator::canary_var_findings(
            canaries.subrange(0, canaries.len() - 1),
            ident,
            value,
            locs,
        );
        assert forall|i: int| 0 <= i < fs.len() implies {
            let f = #[trigger] fs[i];
            alist_get(locs, ident) is Some && f.bulletin.line == alist_get(locs, ident)->0.row
                && f.bulletin.col == alist_get(locs, ident)->0.column && f.event.row == alist_get(
                locs,
                ident,
            )->0.row
        } by {
            if i < pre.len() {
                assert(fs[i] == pre[i]);
            }
        }
    }
}

/// Does some import record sit exactly at the bulletin's position?
pub open spec fn at_some_import(
    imports: Seq<crate::import_visitor::ImportEntryV>,
    b: BulletinV,
) -> bool {
    exists|i: int|
        0 <= i < imports.len() && (#[trigger] imports[i].location).row == b.line
            && imports[i].location.column == b.col
}

/// Does some call record sit exactly at the bulletin's position?
pub open spec fn at_some_call(calls: Seq<crate::call_visitor::CallEntryV>, b: BulletinV) -> bool {
    exists|i: int|
        0 <= i < calls.len() && (#[trigger] calls[i].location).row == b.line
            && calls[i].location.column == b.col
}

/// Does some recorded binding definition sit exactly at the bulletin's
/// position?
pub open spec fn at_some_binding(
    locs: Seq<(Seq<char>, crate::location::Location)>,
    b: BulletinV,
) -> bool {
    exists|i: int|
        0 <= i < locs.len() && (#[trigger] locs[i].1).row == b.line && locs[i].1.column == b.col
}

/// A finding sits at the record that generated it: import-side reasons at
/// an import record, function reasons at a call record, canary reasons at
/// a binding's recorded definition.
pub open spec fn finding_located(
    f: crate::evaluator::FindingV,
    imports: Seq<crate::import_visitor::ImportEntryV>,
    calls: Seq<crate::call_visitor::CallEntryV>,
    locs: Seq<(Seq<char>, crate::location::Location)>,
) -> bool {
    match f.bulletin.reason {
        crate::bulletin::BulletinReasonV::SuspiciousFunction => at_some_call(calls, f.bulletin),
        crate::bulletin::BulletinReasonV::Canary(_) => at_some_binding(locs, f.bulletin),
        _ => at_some_import(imports, f.bulletin),
    }
}

proof fn lemma_module_rules_located(
    threshold: u64,
    rules: Seq<crate::rules::RuleV>,
    entry: crate::import_visitor::ImportEntryV,
    itf: Seq<(Seq<char>, int)>,
    tw: u64,
)
    ensures
        forall|k: int|
            0 <= k < crate::evaluator::module_rules_findings(threshold, rules, entry, itf, tw).len()
                ==> {
                let f = #[trigger] crate::evaluator::module_rules_findings(
                    threshold,
                    rules,
                    entry,
                    itf,
                    tw,
                )[k];
                f.bulletin.line == entry.location.row && f.bulletin.col == entry.location.column
            },
    decreases rules.len(),
{
    if rules.len() > 0 {
        let pre = rules.subrange(0, rules.len() - 1);
        lemma_module_rules_located(threshold, pre, entry, itf, tw);
        law_module_check_locations(threshold, rules[rules.len() - 1], entry, itf, tw);
        let fs = crate::evaluator::module_rules_findings(threshold, rules, entry, itf, tw);
        let fp = crate::evaluator::module_rules_findings(threshold, pre, entry, itf, tw);
        let ch = crate::evaluator::module_check_spec(
            threshold,
            rules[rules.len() - 1],
            entry,
            itf,
            tw,
        );
        assert forall|k: int| 0 <= k < fs.len() implies {
            let f = #[trigger] fs[k];
            f.bulletin.line == entry.location.row && f.bulletin.col == entry.location.column
        } by {
            if k < fp.len() {
                assert(fs[k] == fp[k]);
            } else {
                assert(fs[k] == ch[k - fp.len()]);
            }
        }
    }
}

proof fn lemma_imports_findings_located(
    threshold: u64,
    rules: Seq<crate::rules::RuleV>,
    imports: Seq<crate::import_visitor::ImportEntryV>,
    itf: Seq<(Seq<char>, int)>,
    tw: u64,
)
    ensures
        forall|k: int|
            0 <= k < crate::evaluator::imports_findings(threshold, rules, imports, itf, tw).len()
                ==> at_some_import(
                imports,
                (#[trigger] crate::evaluator::imports_findings(
                    threshold,
                    rules,
                    imports,
                    itf,
                    tw,
                )[k]).bulletin,
            ),
    decreases imports.len(),
{
    if imports.len() > 0 {
        let pre = imports.subrange(0, imports.len() - 1);
        lemma_imports_findings_located(threshold, rules, pre, itf, tw);
        lemma_module_rules_located(threshold, rules, imports[imports.len() - 1], itf, tw);
        let fs = crate::evaluator::imports_findings(threshold, rules, imports, itf, tw);
        let fp = crate::evaluator::imports_findings(threshold, rules, pre, itf, tw);
        let ch = crate::evaluator::module_rules_findings(
            threshold,
            rules,
            imports[imports.len() - 1],
            itf,
            tw,
        );
        assert forall|k: int| 0 <= k < fs.len() implies at_some_import(
            imports,
            (#[trigger] fs[k]).bulletin,
        ) by {
            if k < fp.len() {
                assert(fs[k] == fp[k]);
                assert(at_some_import(pre, fs[k].bulletin));
                let i = choose|i: int|
                    0 <= i < pre.len() && (#[trigger] pre[i].location).row == fs[k].bulletin.line
                        && pre[i].location.column == fs[k].bulletin.col;
                assert(imports[i] == pre[i]);
            } else {
                assert(fs[k] == ch[k - fp.len()]);
                assert((imports[imports.len() - 1].location).row == fs[k].bulletin.line);
            }
        }
    }
}

proof fn lemma_function_rules_located(
    threshold: u64,
    rules: Seq<crate::rules::RuleV>,
    entry: crate::call_visitor::CallEntryV,
    ctf: Seq<(Seq<char>, int)>,
    tw: u64,
)
    ensures
        forall|k: int|
            0 <= k < crate::evaluator::function_rules_findings(
                threshold,
                rules,
                entry,
                ctf,
                tw,
            ).len() ==> {
                let f = #[trigger] crate::evaluator::function_rules_findings(
                    threshold,
                    rules,
                    entry,
                    ctf,
                    tw,
                )[k];
                f.bulletin.line == entry.location.row && f.bulletin.col == entry.location.column
            },
    decreases rules.len(),
{
    if rules.len() > 0 {
        let pre = rules.subrange(0, rules.len() - 1);
        lemma_function_rules_located(threshold, pre, entry, ctf, tw);
        law_function_check_locations(threshold, rules[rules.len() - 1], entry, ctf, tw);
        let fs = crate::evaluator::function_rules_findings(threshold, rules, entry, ctf, tw);
        let fp = crate::evaluator::function_rules_findings(threshold, pre, entry, ctf, tw);
        let ch = crate::evaluator::function_check_spec(
            threshold,
            rules[rules.len() - 1],
            entry,
            ctf,
            tw,
        );
        assert forall|k: int| 0 <= k < fs.len() implies {
            let f = #[trigger] fs[k];
            f.bulletin.line == entry.location.row && f.bulletin.col == entry.location.column
        } by {
            if k < fp.len() {
                assert(fs[k] == fp[k]);
            } else {
                assert(fs[k] == ch[k - fp.len()]);
            }
        }
    }
}

proof fn lemma_calls_findings_located(
    threshold: u64,
    rules: Seq<crate::rules::RuleV>,
    calls: Seq<crate::call_visitor::CallEntryV>,
    ctf: Seq<(Seq<char>, int)>,
    tw: u64,
)
    ensures
        forall|k: int|
            0 <= k < crate::evaluator::calls_findings(threshold, rules, calls, ctf, tw).len()
                ==> at_some_call(
                calls,
                (#[trigger] crate::evaluator::calls_findings(threshold, rules, calls, ctf, tw)[k])
                    .bulletin,
            ),
    decreases calls.len(),
{
    if calls.len() > 0 {
        let pre = calls.subrange(0, calls.len() - 1);
        lemma_calls_findings_located(threshold, rules, pre, ctf, tw);
        lemma_function_rules_located(threshold, rules, calls[calls.len() - 1], ctf, tw);
        let fs = crate::evaluator::calls_findings(threshold, rules, calls, ctf, tw);
        let fp = crate::evaluator::calls_findings(threshold, rules, pre, ctf, tw);
        let ch = crate::evaluator::function_rules_findings(
            threshold,
            rules,
            calls[calls.len() - 1],
            ctf,
            tw,
        );
        assert forall|k: int| 0 <= k < fs.len() implies at_some_call(
            calls,
            (#[trigger] fs[k]).bulletin,
        ) by {
            if k < fp.len() {
                assert(fs[k] == fp[k]);
                assert(at_some_call(pre, fs[k].bulletin));
                let i = choose|i: int|
                    0 <= i < pre.len() && (#[trigger] pre[i].location).row == fs[k].bulletin.line
                        && pre[i].location.column == fs[k].bulletin.col;
                assert(calls[i] == pre[i]);
            } else {
                assert(fs[k] == ch[k - fp.len()]);
                assert((calls[calls.len() - 1].location).row == fs[k].bulletin.line);
            }
        }
    }
}

proof fn lemma_dynamic_findings_located(
    imports: Seq<crate::import_visitor::ImportEntryV>,
    tw: u64,
)
    ensures
        forall|k: int|
            0 <= k < crate::evaluator::dynamic_findings(imports, tw).len() ==> at_some_import(
                imports,
                (#[trigger] crate::evaluator::dynamic_findings(imports, tw)[k]).bulletin,
            ),
    decreases imports.len(),
{
    if imports.len() > 0 {
        let pre = imports.subrange(0, imports.len() - 1);
        lemma_dynamic_findings_located(pre, tw);
        law_dynamic_check_locations(imports[imports.len() - 1], tw);
        let fs = crate::evaluator::dynamic_findings(imports, tw);
        let fp = crate::evaluator::dynamic_findings(pre, tw);
        let ch = crate::evaluator::dynamic_check_spec(imports[imports.len() - 1], tw);
        assert forall|k: int| 0 <= k < fs.len() implies at_some_import(
            imports,
            (#[trigger] fs[k]).bulletin,
        ) by {
            if k < fp.len() {
                assert(fs[k] == fp[k]);
                assert(at_some_import(pre, fs[k].bulletin));
                let i = choose|i: int|
                    0 <= i < pre.len() && (#[trigger] pre[i].location).row == fs[k].bulletin.line
                        && pre[i].location.column == fs[k].bulletin.col;
                assert(imports[i] == pre[i]);
            } else {
                assert(fs[k] == ch[k - fp.len()]);
                assert((imports[imports.len() - 1].location).row == fs[k].bulletin.line);
            }
        }
    }
}

proof fn lemma_canary_findings_located(
    canaries: Seq<(Seq<char>, CanaryInfoV)>,
    vars: Seq<(Seq<char>, crate::value::ValueV)>,
    locs: Seq<(Seq<char>, crate::location::Location)>,
)
    ensures
        forall|k: int|
            0 <= k < crate::evaluator::canary_findings(canaries, vars, locs).len()
                ==> at_some_binding(
                locs,
                (#[trigger] crate::evaluator::canary_findings(canaries, vars, locs)[k]).bulletin,
            ),
    decreases vars.len(),
{
    if vars.len() > 0 {
        let pre = vars.subrange(0, vars.len() - 1);
        lemma_canary_findings_located(canaries, pre, locs);
        let ident = vars[vars.len() - 1].0;
        law_canary_locations(canaries, ident, vars[vars.len() - 1].1, locs);
        let fs = crate::evaluator::canary_findings(canaries, vars, locs);
        let fp = crate::evaluator::canary_findings(canaries, pre, locs);
        let ch = crate::evaluator::canary_var_findings(
            canaries,
            ident,
            vars[vars.len() - 1].1,
            locs,
        );
        assert forall|k: int| 0 <= k < fs.len() implies at_some_binding(
            locs,
            (#[trigger] fs[k]).bulletin,
        ) by {
            if k < fp.len() {
                assert(fs[k] == fp[k]);
            } else {
                assert(fs[k] == ch[k - fp.len()]);
                if ch.len() > 0 {
                    crate::alist::lemma_alist_get_has(locs, ident);
                    let j = crate::counts::lemma_alist_first_key_index(locs, ident);
                    crate::counts::lemma_alist_get_at_first(locs, ident, j);
                    assert((locs[j].1).row == fs[k].bulletin.line);
                }
            }
        }
    }
}

proof fn lemma_sets_findings_located(
    sets: Seq<RuleSetV>,
    imports: Seq<crate::import_visitor::ImportEntryV>,
    calls: Seq<crate::call_visitor::CallEntryV>,
    itf: Seq<(Seq<char>, int)>,
    ctf: Seq<(Seq<char>, int)>,
    cfg: Config,
)
    ensures
        forall|k: int|
            0 <= k < crate::evaluator::sets_findings(sets, imports, calls, itf, ctf, cfg).len()
                ==> finding_located(
                #[trigger] crate::evaluator::sets_findings(sets, imports, calls, itf, ctf, cfg)[k],
                imports,
                calls,
                Seq::empty(),
            ),
    decreases sets.len(),
{
    if sets.len() > 0 {
        let pre = sets.subrange(0, sets.len() - 1);
        lemma_sets_findings_located(pre, imports, calls, itf, ctf, cfg);
        let set = sets[sets.len() - 1];
        lemma_imports_findings_located(set.threshold, set.rules, imports, itf, cfg.tw_imports);
        lemma_calls_findings_located(set.threshold, set.rules, calls, ctf, cfg.tw_functions);
        let fs = crate::evaluator::sets_findings(sets, imports, calls, itf, ctf, cfg);
        let fp = crate::evaluator::sets_findings(pre, imports, calls, itf, ctf, cfg);
        let fi = crate::evaluator::imports_findings(
            set.threshold,
            set.rules,
            imports,
            itf,
            cfg.tw_imports,
        );
        let fc = crate::evaluator::calls_findings(
            set.threshold,
            set.rules,
            calls,
            ctf,
            cfg.tw_functions,
        );
        lemma_imports_part_reasons(set.threshold, set.rules, imports, itf, cfg.tw_imports);
        lemma_calls_part_reasons(set.threshold, set.rules, calls, ctf, cfg.tw_functions);
        assert forall|k: int| 0 <= k < fs.len() implies finding_located(
            #[trigger] fs[k],
            imports,
            calls,
            Seq::empty(),
        ) by {
            if k < fp.len() {
                assert(fs[k] == fp[k]);
            } else if k < fp.len() + fi.len() {
                assert(fs[k] == fi[k - fp.len()]);
            } else {
                assert(fs[k] == fc[k - fp.len() - fi.len()]);
            }
        }
    }
}

/// Import-side rule findings carry import-side reasons.
proof fn lemma_imports_part_reasons(
    threshold: u64,
    rules: Seq<crate::rules::RuleV>,
    imports: Seq<crate::import_visitor::ImportEntryV>,
    itf: Seq<(Seq<char>, int)>,
    tw: u64,
)
    ensures
        forall|k: int|
            0 <= k < crate::evaluator::imports_findings(threshold, rules, imports, itf, tw).len()
                ==> {
                let r = (#[trigger] crate::evaluator::imports_findings(
                    threshold,
                    rules,
                    imports,
                    itf,
                    tw,
                )[k]).bulletin.reason;
                r is SuspiciousImport || r is ImportInsideFunction
            },
    decreases imports.len(),
{
    if imports.len() > 0 {
        let pre = imports.subrange(0, imports.len() - 1);
        lemma_imports_part_reasons(threshold, rules, pre, itf, tw);
        lemma_module_rules_reasons(threshold, rules, imports[imports.len() - 1], itf, tw);
        let fs = crate::evaluator::imports_findings(threshold, rules, imports, itf, tw);
        let fp = crate::evaluator::imports_findings(threshold, rules, pre, itf, tw);
        let ch = crate::evaluator::module_rules_findings(
            threshold,
            rules,
            imports[imports.len() - 1],
            itf,
            tw,
        );
        assert forall|k: int| 0 <= k < fs.len() implies {
            let r = (#[trigger] fs[k]).bulletin.reason;
            r is SuspiciousImport || r is ImportInsideFunction
        } by {
            if k < fp.len() {
                assert(fs[k] == fp[k]);
            } else {
                assert(fs[k] == ch[k - fp.len()]);
            }
        }
    }
}

proof fn lemma_module_rules_reasons(
    threshold: u64,
    rules: Seq<crate::rules::RuleV>,
    entry: crate::import_visitor::ImportEntryV,
    itf: Seq<(Seq<char>, int)>,
    tw: u64,
)
    ensures
        forall|k: int|
            0 <= k < crate::evaluator::module_rules_findings(threshold, rules, entry, itf, tw).len()
                ==> {
                let r = (#[trigger] crate::evaluator::module_rules_findings(
                    threshold,
                    rules,
                    entry,
                    itf,
                    tw,
                )[k]).bulletin.reason;
                r is SuspiciousImport || r is ImportInsideFunction
            },
    decreases rules.len(),
{
    if rules.len() > 0 {
        let pre = rules.subrange(0, rules.len() - 1);
        lemma_module_rules_reasons(threshold, pre, entry, itf, tw);
        let fs = crate::evaluator::module_rules_findings(threshold, rules, entry, itf, tw);
        let fp = crate::evaluator::module_rules_findings(threshold, pre, entry, itf, tw);
        let ch = crate::evaluator::module_check_spec(
            threshold,
            rules[rules.len() - 1],
            entry,
            itf,
            tw,
        );
        assert forall|k: int| 0 <= k < fs.len() implies {
            let r = (#[trigger] fs[k]).bulletin.reason;
            r is SuspiciousImport || r is ImportInsideFunction
        } by {
            if k < fp.len() {
                assert(fs[k] == fp[k]);
            } else {
                assert(fs[k] == ch[k - fp.len()]);
            }
        }
    }
}

/// Call-side rule findings carry the function reason.
proof fn lemma_calls_part_reasons(
    threshold: u64,
    rules: Seq<crate::rules::RuleV>,
    calls: Seq<crate::call_visitor::CallEntryV>,
    ctf: Seq<(Seq<char>, int)>,
    tw: u64,
)
    ensures
        forall|k: int|
            0 <= k < crate::evaluator::calls_findings(threshold, rules, calls, ctf, tw).len()
                ==> (#[trigger] crate::evaluator::calls_findings(
                threshold,
                rules,
                calls,
                ctf,
                tw,
            )[k]).bulletin.reason is SuspiciousFunction,
    decreases calls.len(),
{
    if calls.len() > 0 {
        let pre = calls.subrange(0, calls.len() - 1);
        lemma_calls_part_reasons(threshold, rules, pre, ctf, tw);
        lemma_function_rules_reasons(threshold, rules, calls[calls.len() - 1], ctf, tw);
        let fs = crate::evaluator::calls_findings(threshold, rules, calls, ctf, tw);
        let fp = crate::evaluator::calls_findings(threshold, rules, pre, ctf, tw);
        let ch = crate::evaluator::function_rules_findings(
            threshold,
            rules,
            calls[calls.len() - 1],
            ctf,
            tw,
        );
        assert forall|k: int| 0 <= k < fs.len() implies (#[trigger] fs[k])
            .bulletin.reason is SuspiciousFunction by {
            if k < fp.len() {
                assert(fs[k] == fp[k]);
            } else {
                assert(fs[k] == ch[k - fp.len()]);
            }
        }
    }
}

proof fn lemma_function_rules_reasons(
    threshold: u64,
    rules: Seq<crate::rules::RuleV>,
    entry: crate::call_visitor::CallEntryV,
    ctf: Seq<(Seq<char>, int)>,
    tw: u64,
)
    ensures
        forall|k: int|
            0 <= k < crate::evaluator::function_rules_findings(
                threshold,
                rules,
                entry,
                ctf,
                tw,
            ).len() ==> (#[trigger] crate::evaluator::function_rules_findings(
                threshold,
                rules,
                entry,
                ctf,
                tw,
            )[k]).bulletin.reason is SuspiciousFunction,
    decreases rules.len(),
{
    if rules.len() > 0 {
        let pre = rules.subrange(0, rules.len() - 1);
        lemma_function_rules_reasons(threshold, pre, entry, ctf, tw);
        let fs = crate::evaluator::function_rules_findings(threshold, rules, entry, ctf, tw);
        let fp = crate::evaluator::function_rules_findings(threshold, pre, entry, ctf, tw);
        let ch = crate::evaluator::function_check_spec(
            threshold,
            rules[rules.len() - 1],
            entry,
            ctf,
            tw,
        );
        assert forall|k: int| 0 <= k < fs.len() implies (#[trigger] fs[k])
            .bulletin.reason is SuspiciousFunction by {
            if k < fp.len() {
                assert(fs[k] == fp[k]);
            } else {
                assert(fs[k] == ch[k - fp.len()]);
            }
        }
    }
}

/// Every bulletin one evaluation emits sits at the location of the record
/// that generated it: suspicious imports, imports inside functions and
/// dynamic imports at their import record, suspicious functions at their
/// call record, and canary bulletins at the binding's recorded definition.
pub proof fn law_bulletin_locations(
    sets: Seq<RuleSetV>,
    canaries: Seq<(Seq<char>, CanaryInfoV)>,
    src: crate::source::SourceFile,
    cfg: Config,
)
    ensures
        forall|k: int|
            0 <= k < findings_spec(sets, canaries, src, cfg).len() ==> finding_located(
                #[trigger] findings_spec(sets, canaries, src, cfg)[k],
                src.import_visitor@.imports,
                src.call_visitor@.entries,
                src.variable_visitor@.locations,
            ),
{
    let imports = src.import_visitor@.imports;
    let calls = src.call_visitor@.entries;
    let vars = src.variable_visitor@.variables;
    let locs = src.variable_visitor@.locations;
    let itf = src.import_visitor.tfidf_view();
    let ctf = src.call_visitor.tfidf_view();
    let fs = findings_spec(sets, canaries, src, cfg);
    let fa = crate::evaluator::canary_findings(canaries, vars, locs);
    let fb = crate::evaluator::dynamic_findings(imports, cfg.tw_imports);
    let fc = crate::evaluator::sets_findings(sets, imports, calls, itf, ctf, cfg);
    lemma_canary_findings_located(canaries, vars, locs);
    lemma_dynamic_findings_located(imports, cfg.tw_imports);
    lemma_sets_findings_located(sets, imports, calls, itf, ctf, cfg);
    lemma_canary_part_reasons(canaries, vars, locs);
    lemma_dynamic_part_reasons(imports, cfg.tw_imports);
    assert forall|k: int| 0 <= k < fs.len() implies finding_located(
        #[trigger] fs[k],
        imports,
        calls,
        locs,
    ) by {
        if k < fa.len() {
            assert(fs[k] == fa[k]);
        } else if k < fa.len() + fb.len() {
            assert(fs[k] == fb[k - fa.len()]);
        } else {
            assert(fs[k] == fc[k - fa.len() - fb.len()]);
        }
    }
}

/// Canary findings carry the canary reason.
proof fn lemma_canary_part_reasons(
    canaries: Seq<(Seq<char>, CanaryInfoV)>,
    vars: Seq<(Seq<char>, crate::value::ValueV)>,
    locs: Seq<(Seq<char>, crate::location::Location)>,
)
    ensures
        forall|k: int|
            0 <= k < crate::evaluator::canary_findings(canaries, vars, locs).len()
                ==> (#[trigger] crate::evaluator::canary_findings(canaries, vars, locs)[k])
                .bulletin.reason is Canary,
    decreases vars.len(),
{
    if vars.len() > 0 {
        let pre = vars.subrange(0, vars.len() - 1);
        lemma_canary_part_reasons(canaries, pre, locs);
        lemma_canary_var_reasons(canaries, vars[vars.len() - 1].0, vars[vars.len() - 1].1, locs);
        let fs = crate::evaluator::canary_findings(canaries, vars, locs);
        let fp = crate::evaluator::canary_findings(canaries, pre, locs);
        let ch = crate::evaluator::canary_var_findings(
            canaries,
            vars[vars.len() - 1].0,
            vars[vars.len() - 1].1,
            locs,
        );
        assert forall|k: int| 0 <= k < fs.len() implies (#[trigger] fs[k])
            .bulletin.reason is Canary by {
            if k < fp.len() {
                assert(fs[k] == fp[k]);
            } else {
                assert(fs[k] == ch[k - fp.len()]);
            }
        }
    }
}

proof fn lemma_canary_var_reasons(
    canaries: Seq<(Seq<char>, CanaryInfoV)>,
    ident: Seq<char>,
    value: crate::value::ValueV,
    locs: Seq<(Seq<char>, crate::location::Location)>,
)
    ensures
        forall|k: int|
            0 <= k < crate::evaluator::canary_var_findings(canaries, ident, value, locs).len()
                ==> (#[trigger] crate::evaluator::canary_var_findings(
                canaries,
                ident,
                value,
                locs,
            )[k]).bulletin.reason is Canary,
    decreases canaries.len(),
{
    if canaries.len() > 0 {
        let pre = canaries.subrange(0, canaries.len() - 1);
        lemma_canary_var_reasons(pre, ident, value, locs);
        let fs = crate::evaluator::canary_var_findings(canaries, ident, value, locs);
        let fp = crate::evaluator::canary_var_findings(pre, ident, value, locs);
        assert forall|k: int| 0 <= k < fs.len() implies (#[trigger] fs[k])
            .bulletin.reason is Canary by {
            if k < fp.len() {
                assert(fs[k] == fp[k]);
            }
        }
    }
}

/// Dynamic-import findings carry the dynamic-import reason.
proof fn lemma_dynamic_part_reasons(
    imports: Seq<crate::import_visitor::ImportEntryV>,
    tw: u64,
)
    ensures
        forall|k: int|
            0 <= k < crate::evaluator::dynamic_findings(imports, tw).len()
                ==> (#[trigger] crate::evaluator::dynamic_findings(imports, tw)[k])
                .bulletin.reason is DynamicImport,
    decreases imports.len(),
{
    if imports.len() > 0 {
        let pre = imports.subrange(0, imports.len() - 1);
        lemma_dynamic_part_reasons(pre, tw);
        let fs = crate::evaluator::dynamic_findings(imports, tw);
        let fp = crate::evaluator::dynamic_findings(pre, tw);
        let ch = crate::evaluator::dynamic_check_spec(imports[imports.len() - 1], tw);
        assert forall|k: int| 0 <= k < fs.len() implies (#[trigger] fs[k])
            .bulletin.reason is DynamicImport by {
            if k < fp.len() {
                assert(fs[k] == fp[k]);
            } else {
                assert(fs[k] == ch[k - fp.len()]);
            }
        }
    }
}

/// The record list grew only at the end, and every appended record
/// carries the given lexical context.
pub open spec fn extends_with_context(
    pre: Seq<crate::import_visitor::ImportEntryV>,
    post: Seq<crate::import_visitor::ImportEntryV>,
    ctx: crate::import_visitor::Lexical,
) -> bool {
    &&& pre.len() <= post.len()
    &&& post.subrange(0, pre.len() as int) == pre
    &&& forall|i: int| pre.len() <= i < post.len() ==> (#[trigger] post[i]).context == ctx
}

proof fn lemma_extends_trans(
    a: Seq<crate::import_visitor::ImportEntryV>,
    b: Seq<crate::import_visitor::ImportEntryV>,
    c: Seq<crate::import_visitor::ImportEntryV>,
    ctx: crate::import_visitor::Lexical,
)
    requires
        extends_with_context(a, b, ctx),
        extends_with_context(b, c, ctx),
    ensures
        extends_with_context(a, c, ctx),
{
    assert(c.subrange(0, a.len() as int) =~= c.subrange(0, b.len() as int).subrange(
        0,
        a.len() as int,
    ));
    assert forall|i: int| a.len() <= i < c.len() implies (#[trigger] c[i]).context == ctx by {
        if i < b.len() {
            assert(c.subrange(0, b.len() as int)[i] == c[i]);
            assert(b[i].context == ctx);
        }
    }
}

proof fn lemma_add_import_extends(
    st: crate::import_visitor::ImportStateV,
    e: crate::import_visitor::ImportEntryV,
)
    ensures
        extends_with_context(
            st.imports,
            crate::import_visitor::add_import_spec(st, e).imports,
            e.context,
        ),
{
    let post = crate::import_visitor::add_import_spec(st, e).imports;
    if crate::import_visitor::has_import_record(st.imports, e) {
        assert(post.subrange(0, st.imports.len() as int) =~= st.imports);
    } else {
        assert(post == st.imports.push(e));
        assert(post.subrange(0, st.imports.len() as int) =~= st.imports);
    }
}

proof fn lemma_fun_ctx_import_names(
    st: crate::import_visitor::ImportStateV,
    location: crate::location::Location,
    names: Seq<crate::ast::ImportSymbolV>,
)
    ensures
        extends_with_context(
            st.imports,
            crate::import_visitor::fold_import_names(
                st,
                location,
                names,
                crate::import_visitor::Lexical::Function,
            ).imports,
            crate::import_visitor::Lexical::Function,
        ),
    decreases names.len(),
{
    if names.len() == 0 {
        assert(st.imports.subrange(0, st.imports.len() as int) =~= st.imports);
    } else {
        let pre_names = names.subrange(0, names.len() - 1);
        lemma_fun_ctx_import_names(st, location, pre_names);
        let mid = crate::import_visitor::fold_import_names(
            st,
            location,
            pre_names,
            crate::import_visitor::Lexical::Function,
        );
        let n = names[names.len() - 1];
        lemma_add_import_extends(
            mid,
            crate::import_visitor::ImportEntryV {
                module: n.symbol,
                symbol: Option::None,
                location,
                alias: n.alias,
                context: crate::import_visitor::Lexical::Function,
                is_dynamic: false,
            },
        );
        lemma_extends_trans(
            st.imports,
            mid.imports,
            crate::import_visitor::fold_import_names(
                st,
                location,
                names,
                crate::import_visitor::Lexical::Function,
            ).imports,
            crate::import_visitor::Lexical::Function,
        );
    }
}

proof fn lemma_fun_ctx_from_names(
    st: crate::import_visitor::ImportStateV,
    location: crate::location::Location,
    module: Option<Seq<char>>,
    names: Seq<crate::ast::ImportSymbolV>,
)
    ensures
        extends_with_context(
            st.imports,
            crate::import_visitor::fold_from_names(
                st,
                location,
                module,
                names,
                crate::import_visitor::Lexical::Function,
            ).imports,
            crate::import_visitor::Lexical::Function,
        ),
    decreases names.len(),
{
    if names.len() == 0 {
        assert(st.imports.subrange(0, st.imports.len() as int) =~= st.imports);
    } else {
        let pre_names = names.subrange(0, names.len() - 1);
        lemma_fun_ctx_from_names(st, location, module, pre_names);
        let mid = crate::import_visitor::fold_from_names(
            st,
            location,
            module,
            pre_names,
            crate::import_visitor::Lexical::Function,
        );
        let n = names[names.len() - 1];
        lemma_add_import_extends(
            mid,
            crate::import_visitor::ImportEntryV {
                module: match module {
                    Option::Some(m) => m,
                    Option::None => n.symbol,
                },
                symbol: Option::Some(n.symbol),
                location,
                alias: n.alias,
                context: crate::import_visitor::Lexical::Function,
                is_dynamic: false,
            },
        );
        lemma_extends_trans(
            st.imports,
            mid.imports,
            crate::import_visitor::fold_from_names(
                st,
                location,
                module,
                names,
                crate::import_visitor::Lexical::Function,
            ).imports,
            crate::import_visitor::Lexical::Function,
        );
    }
}

proof fn lemma_fun_ctx_stmt(st: crate::import_visitor::ImportStateV, s: crate::ast::StmtV)
    ensures
        extends_with_context(
            st.imports,
            crate::import_visitor::imports_in_stmt(
                st,
                s,
                crate::import_visitor::Lexical::Function,
            ).imports,
            crate::import_visitor::Lexical::Function,
        ),
    decreases s,
{
    match s.kind {
        crate::ast::StmtKindV::Import { names } => {
            lemma_fun_ctx_import_names(st, s.location, names);
        },
        crate::ast::StmtKindV::ImportFrom { module, level, names } => {
            lemma_fun_ctx_from_names(st, s.location, module, names);
        },
        crate::ast::StmtKindV::FunctionDef { name, body, rest } => {
            lemma_fun_ctx_stmts(st, body);
        },
        crate::ast::StmtKindV::ClassDef { name, body, rest } => {
            lemma_fun_ctx_stmts(st, body);
        },
        crate::ast::StmtKindV::Other { children } => {
            lemma_fun_ctx_frags(st, children);
        },
        _ => {
            assert(st.imports.subrange(0, st.imports.len() as int) =~= st.imports);
        },
    }
}

proof fn lemma_fun_ctx_stmts(st: crate::import_visitor::ImportStateV, ss: Seq<crate::ast::StmtV>)
    ensures
        extends_with_context(
            st.imports,
            crate::import_visitor::imports_in_stmts(
                st,
                ss,
                crate::import_visitor::Lexical::Function,
            ).imports,
            crate::import_visitor::Lexical::Function,
        ),
    decreases ss,
{
    if ss.len() == 0 {
        assert(st.imports.subrange(0, st.imports.len() as int) =~= st.imports);
    } else {
        let pre_ss = ss.subrange(0, ss.len() - 1);
        lemma_fun_ctx_stmts(st, pre_ss);
        let mid = crate::import_visitor::imports_in_stmts(
            st,
            pre_ss,
            crate::import_visitor::Lexical::Function,
        );
        lemma_fun_ctx_stmt(mid, ss[ss.len() - 1]);
        lemma_extends_trans(
            st.imports,
            mid.imports,
            crate::import_visitor::imports_in_stmts(
                st,
                ss,
                crate::import_visitor::Lexical::Function,
            ).imports,
            crate::import_visitor::Lexical::Function,
        );
    }
}

proof fn lemma_fun_ctx_frags(
    st: crate::import_visitor::ImportStateV,
    fs: Seq<crate::ast::FragmentV>,
)
    ensures
        extends_with_context(
            st.imports,
            crate::import_visitor::imports_in_fragments(
                st,
                fs,
                crate::import_visitor::Lexical::Function,
            ).imports,
            crate::import_visitor::Lexical::Function,
        ),
    decreases fs,
{
    if fs.len() == 0 {
        assert(st.imports.subrange(0, st.imports.len() as int) =~= st.imports);
    } else {
        let pre_fs = fs.subrange(0, fs.len() - 1);
        lemma_fun_ctx_frags(st, pre_fs);
        let mid = crate::import_visitor::imports_in_fragments(
            st,
            pre_fs,
            crate::import_visitor::Lexical::Function,
        );
        match fs[fs.len() - 1] {
            crate::ast::FragmentV::Expr(e) => {},
            crate::ast::FragmentV::Stmt(t) => {
                lemma_fun_ctx_stmt(mid, t);
                lemma_extends_trans(
                    st.imports,
                    mid.imports,
                    crate::import_visitor::imports_in_fragments(
                        st,
                        fs,
                        crate::import_visitor::Lexical::Function,
                    ).imports,
                    crate::import_visitor::Lexical::Function,
                );
            },
        }
    }
}

/// Walking a function definition's body records every import in function
/// context: the records already present are untouched, and each record the
/// body adds carries `Function` — nested definitions and class bodies
/// inside it as well.  The context is a value handed down per statement,
/// not shared state, so statements after the definition are walked in the
/// caller's own context unchanged.
pub proof fn law_function_body_context(
    st: crate::import_visitor::ImportStateV,
    body: Seq<crate::ast::StmtV>,
)
    ensures
        extends_with_context(
            st.imports,
            crate::import_visitor::imports_in_stmts(
                st,
                body,
                crate::import_visitor::Lexical::Function,
            ).imports,
            crate::import_visitor::Lexical::Function,
        ),
{
    lemma_fun_ctx_stmts(st, body);
}

/// Evaluation is repeatable: two evaluations of analyses over the same
/// source, against the same catalogs and configuration, append exactly the
/// same bulletins.  In particular, evaluating a clone of an analysis
/// yields the bulletin list the original's evaluation yields.
pub proof fn law_evaluation_idempotent(
    sets: Seq<RuleSetV>,
    canaries: Seq<(Seq<char>, CanaryInfoV)>,
    a1: SourceAnalysis,
    a2: SourceAnalysis,
    b1: Seq<BulletinV>,
    b2: Seq<BulletinV>,
    cfg: Config,
)
    requires
        a1.source == a2.source,
        bulletins_view(a1.bulletins@) == bulletins_view(a2.bulletins@),
        b1 == bulletins_view(a1.bulletins@) + finding_bulletins(
            findings_spec(sets, canaries, a1.source, cfg),
        ),
        b2 == bulletins_view(a2.bulletins@) + finding_bulletins(
            findings_spec(sets, canaries, a2.source, cfg),
        ),
    ensures
        b1 == b2,
{
}

/// The set of visible bulletins is a pure function of the bulletin list,
/// the hotspots, and the visibility settings: equal inputs give equal
/// visible bulletins, whatever produced them.  Together with the exact
/// evaluation contract this makes the whole decision pipeline
/// deterministic; only the density samples themselves are computed by the
/// caller, outside the library.
pub proof fn law_visibility_deterministic(
    bs1: Seq<BulletinV>,
    bs2: Seq<BulletinV>,
    hs1: Seq<Hotspot>,
    hs2: Seq<Hotspot>,
    show_all: bool,
    global: u64,
)
    requires
        bs1 == bs2,
        hs1 == hs2,
    ensures
        visible_spec(bs1, hs1, show_all, global) == visible_spec(bs2, hs2, show_all, global),
{
}

} // verus!
