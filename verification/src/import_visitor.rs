use vstd::prelude::*;

use crate::alist::{alist_get, alist_has, alist_set, alist_unique, lemma_alist_get_has,
    lemma_alist_set_absent, lemma_alist_set_found, lemma_alist_set_get, lemma_alist_set_unique};
use crate::ast::{Fragment, FragmentV, ImportSymbol, ImportSymbolV, Stmt, StmtKind, StmtKindV,
    StmtV};
use crate::ast::{lemma_fragments_view_index, lemma_fragments_view_len, lemma_stmts_view_index,
    lemma_stmts_view_len, fragments_view, stmt_view, stmts_view, symbol_view, symbols_view};
use crate::call_visitor::{CallEntry, CallEntryV, call_entries_view};
use crate::counts::{bump_spec, counts_view, sum_counts, table_wf};
use crate::location::Location;
use crate::strutil;
use crate::value::ValueV;

verus! {

/// Where an import statement stood: at module level, or inside some
/// function's body.
#[derive(Debug, Clone, Copy, PartialEq, Eq, Structural)]
pub enum Lexical {
    Global,
    Function,
}

/// One recorded import: the module, the imported symbol for `from` imports,
/// the statement's position, the `as` alias, the lexical context, and
/// whether the import was discovered through a reflective call.
#[derive(Debug)]
pub struct ImportEntry {
    pub module: String,
    pub symbol: Option<String>,
    pub location: Location,
    pub alias: Option<String>,
    pub context: Lexical,
    pub is_dynamic: bool,
}

/// The abstract value of an [`ImportEntry`].
#[verifier::ext_equal]
pub struct ImportEntryV {
    pub module: Seq<char>,
    pub symbol: Option<Seq<char>>,
    pub location: Location,
    pub alias: Option<Seq<char>>,
    pub context: Lexical,
    pub is_dynamic: bool,
}

/// The abstract value of one import record.
pub open spec fn import_entry_view(e: ImportEntry) -> ImportEntryV {
    ImportEntryV {
        module: e.module@,
        symbol: match e.symbol {
            Option::Some(s) => Option::Some(s@),
            Option::None => Option::None,
        },
        location: e.location,
        alias: match e.alias {
            Option::Some(a) => Option::Some(a@),
            Option::None => Option::None,
        },
        context: e.context,
        is_dynamic: e.is_dynamic,
    }
}

/// The abstract values of a list of import records.
pub open spec fn import_entries_view(s: Seq<ImportEntry>) -> Seq<ImportEntryV> {
    Seq::new(s.len(), |i: int| import_entry_view(s[i]))
}

/// The abstract value of a string-keyed string table.
pub open spec fn string_pairs_view(v: Seq<(String, String)>) -> Seq<(Seq<char>, Seq<char>)> {
    Seq::new(v.len(), |i: int| (v[i].0@, v[i].1@))
}

/// The evolving state of import extraction.
#[verifier::ext_equal]
pub struct ImportStateV {
    pub imports: Seq<ImportEntryV>,
    pub aliases: Seq<(Seq<char>, Seq<char>)>,
    pub counts: Seq<(Seq<char>, int)>,
}

/// The modules of the recorded imports, in order.
pub open spec fn import_modules(imports: Seq<ImportEntryV>) -> Seq<Seq<char>> {
    Seq::new(imports.len(), |i: int| imports[i].module)
}

/// Two records are the same import when module, row and column agree.
pub open spec fn same_import(a: ImportEntryV, b: ImportEntryV) -> bool {
    a.module == b.module && a.location.row == b.location.row && a.location.column
        == b.location.column
}

/// Is the record already present, by module, row and column?
pub open spec fn has_import_record(imports: Seq<ImportEntryV>, e: ImportEntryV) -> bool {
    exists|i: int| 0 <= i < imports.len() && same_import(imports[i], e)
}

/// What an alias names: `module` or `module.symbol`.
pub open spec fn alias_target(module: Seq<char>, symbol: Option<Seq<char>>) -> Seq<char> {
    match symbol {
        Option::Some(s) => module + seq!['.'] + s,
        Option::None => module,
    }
}

/// The state after recording one import: the alias map learns the alias,
/// and a record that is not yet present is appended and counted.
pub open spec fn add_import_spec(st: ImportStateV, e: ImportEntryV) -> ImportStateV {
    let aliases = match e.alias {
        Option::Some(a) => alist_set(st.aliases, a, alias_target(e.module, e.symbol)),
        Option::None => st.aliases,
    };
    if has_import_record(st.imports, e) {
        ImportStateV { imports: st.imports, aliases, counts: st.counts }
    } else {
        ImportStateV {
            imports: st.imports.push(e),
            aliases,
            counts: bump_spec(st.counts, e.module),
        }
    }
}

/// The import state is consistent: the count table matches the recorded
/// modules, no record repeats, alias keys are unique, and every record's
/// alias is in the alias map.
pub open spec fn import_state_wf(st: ImportStateV) -> bool {
    &&& table_wf(import_modules(st.imports), st.counts)
    &&& alist_unique(st.aliases)
    &&& forall|i: int, j: int| 0 <= i < j < st.imports.len() ==> !same_import(
        st.imports[i],
        st.imports[j],
    )
    &&& forall|i: int| 0 <= i < st.imports.len() ==> (match #[trigger] st.imports[i].alias {
        Option::Some(a) => alist_has(st.aliases, a),
        Option::None => true,
    })
}

/// Recording an import keeps the state consistent.
pub proof fn lemma_add_import_wf(st: ImportStateV, e: ImportEntryV)
    requires
        import_state_wf(st),
    ensures
        import_state_wf(add_import_spec(st, e)),
{
    let st2 = add_import_spec(st, e);
    match e.alias {
        Option::Some(a) => {
            lemma_alist_set_unique(st.aliases, a, alias_target(e.module, e.symbol));
            lemma_alist_set_get(st.aliases, a, alias_target(e.module, e.symbol), a);
            lemma_alist_get_has(st2.aliases, a);
            assert forall|i: int| 0 <= i < st2.imports.len() implies (
            match #[trigger] st2.imports[i].alias {
                Option::Some(q) => alist_has(st2.aliases, q),
                Option::None => true,
            }) by {
                if i < st.imports.len() {
                    match st.imports[i].alias {
                        Option::Some(q) => {
                            lemma_alist_set_get(
                                st.aliases,
                                a,
                                alias_target(e.module, e.symbol),
                                q,
                            );
                            lemma_alist_get_has(st.aliases, q);
                            lemma_alist_get_has(st2.aliases, q);
                        },
                        Option::None => {},
                    }
                }
            }
        },
        Option::None => {},
    }
    if !has_import_record(st.imports, e) {
        assert(import_modules(st.imports.push(e)) =~= import_modules(st.imports).push(e.module));
        crate::counts::lemma_table_wf_add(import_modules(st.imports), st.counts, e.module);
    }
}

/// Import extraction over the names of one `import` statement.
pub open spec fn fold_import_names(
    st: ImportStateV,
    loc: Location,
    names: Seq<ImportSymbolV>,
    ctx: Lexical,
) -> ImportStateV
    decreases names.len(),
{
    if names.len() == 0 {
        st
    } else {
        let prev = fold_import_names(st, loc, names.subrange(0, names.len() - 1), ctx);
        let n = names[names.len() - 1];
        add_import_spec(
            prev,
            ImportEntryV {
                module: n.symbol,
                symbol: Option::None,
                location: loc,
                alias: n.alias,
                context: ctx,
                is_dynamic: false,
            },
        )
    }
}

/// Import extraction over the names of one `from .. import` statement: the
/// stored module is the `from` module when given, else the name itself.
pub open spec fn fold_from_names(
    st: ImportStateV,
    loc: Location,
    module: Option<Seq<char>>,
    names: Seq<ImportSymbolV>,
    ctx: Lexical,
) -> ImportStateV
    decreases names.len(),
{
    if names.len() == 0 {
        st
    } else {
        let prev = fold_from_names(st, loc, module, names.subrange(0, names.len() - 1), ctx);
        let n = names[names.len() - 1];
        add_import_spec(
            prev,
            ImportEntryV {
                module: match module {
                    Option::Some(m) => m,
                    Option::None => n.symbol,
                },
                symbol: Option::Some(n.symbol),
                location: loc,
                alias: n.alias,
                context: ctx,
                is_dynamic: false,
            },
        )
    }
}

/// Import extraction over one statement.  A function body is walked in
/// `Function` context; a class body keeps the surrounding context.
pub open spec fn imports_in_stmt(st: ImportStateV, s: StmtV, ctx: Lexical) -> ImportStateV
    decreases s,
{
    match s.kind {
        StmtKindV::Import { names } => fold_import_names(st, s.location, names, ctx),
        StmtKindV::ImportFrom { module, level, names } => fold_from_names(
            st,
            s.location,
            module,
            names,
            ctx,
        ),
        StmtKindV::FunctionDef { name, body, rest } => imports_in_stmts(
            st,
            body,
            Lexical::Function,
        ),
        StmtKindV::ClassDef { name, body, rest } => imports_in_stmts(st, body, ctx),
        StmtKindV::Other { children } => imports_in_fragments(st, children, ctx),
        _ => st,
    }
}

/// Import extraction over a list of statements.
pub open spec fn imports_in_stmts(st: ImportStateV, ss: Seq<StmtV>, ctx: Lexical) -> ImportStateV
    decreases ss,
{
    if ss.len() == 0 {
        st
    } else {
        imports_in_stmt(imports_in_stmts(st, ss.subrange(0, ss.len() - 1), ctx), ss[ss.len() - 1], ctx)
    }
}

/// Import extraction over mixed fragments: only nested statements matter.
pub open spec fn imports_in_fragments(st: ImportStateV, fs: Seq<FragmentV>, ctx: Lexical)
    -> ImportStateV
    decreases fs,
{
    if fs.len() == 0 {
        st
    } else {
        let prev = imports_in_fragments(st, fs.subrange(0, fs.len() - 1), ctx);
        match fs[fs.len() - 1] {
            FragmentV::Expr(e) => prev,
            FragmentV::Stmt(t) => imports_in_stmt(prev, t, ctx),
        }
    }
}

/// Collects the import records of a syntax tree.
#[derive(Debug)]
pub struct ImportVisitor {
    pub imports: Vec<ImportEntry>,
    pub aliases: Vec<(String, String)>,
    pub count: Vec<(String, u64)>,
    pub tf_idf: Vec<(String, u64)>,
}

impl View for ImportVisitor {
    type V = ImportStateV;

    open spec fn view(&self) -> ImportStateV {
        ImportStateV {
            imports: import_entries_view(self.imports@),
            aliases: string_pairs_view(self.aliases@),
            counts: counts_view(self.count@),
        }
    }
}

impl ImportVisitor {
    /// The TF-IDF slots, as key/value pairs in millionths.
    pub open spec fn tfidf_view(&self) -> Seq<(Seq<char>, int)> {
        counts_view(self.tf_idf@)
    }

    pub fn new() -> (r: Self)
        ensures
            r@.imports.len() == 0,
            r@.aliases.len() == 0,
            r@.counts.len() == 0,
            r.tfidf_view().len() == 0,
            import_state_wf(r@),
    {
        let r = ImportVisitor {
            imports: Vec::new(),
            aliases: Vec::new(),
            count: Vec::new(),
            tf_idf: Vec::new(),
        };
        proof {
            assert(r@.imports =~= Seq::<ImportEntryV>::empty());
            assert(r@.aliases =~= Seq::<(Seq<char>, Seq<char>)>::empty());
            assert(r@.counts =~= Seq::<(Seq<char>, int)>::empty());
            assert(r.tfidf_view() =~= Seq::<(Seq<char>, int)>::empty());
            assert(import_modules(r@.imports) =~= Seq::<Seq<char>>::empty());
        }
        r
    }

    /// The recorded imports.
    pub fn get_imports(&self) -> (r: &Vec<ImportEntry>)
        ensures
            import_entries_view(r@) == self@.imports,
    {
        &self.imports
    }

    /// The alias map: alias name to `module[.symbol]`.
    pub fn get_aliases(&self) -> (r: &Vec<(String, String)>)
        ensures
            string_pairs_view(r@) == self@.aliases,
    {
        &self.aliases
    }

    /// The count of records per module.
    pub fn get_counts(&self) -> (r: &Vec<(String, u64)>)
        ensures
            counts_view(r@) == self@.counts,
    {
        &self.count
    }

    /// Was this module imported at all?
    pub fn has_import(&self, contains: &str) -> (r: bool)
        ensures
            r == alist_has(self@.counts, contains@),
    {
        crate::counts::contains_count(&self.count, contains)
    }

    /// The number of records for one module.
    pub fn get_count(&self, import: &str) -> (r: Option<u64>)
        ensures
            (match r {
                Option::Some(c) => Option::Some(c as int),
                Option::None => Option::<int>::None,
            }) == alist_get(self@.counts, import@),
    {
        crate::counts::lookup_count(&self.count, import)
    }

    /// The recorded TF-IDF weight of an import, in millionths.
    pub fn get_tfidf(&self, import: &str) -> (r: Option<u64>)
        ensures
            (match r {
                Option::Some(c) => Option::Some(c as int),
                Option::None => Option::<int>::None,
            }) == alist_get(self.tfidf_view(), import@),
    {
        crate::counts::lookup_count(&self.tf_idf, import)
    }

    /// Writes the TF-IDF weight for an import once.  A later write for the
    /// same module is ignored, and so is a module that was never imported:
    /// the slots exist exactly for the counted identifiers.
    pub fn set_tfidf(&mut self, import: &str, tfidf: u64)
        ensures
            final(self).imports@ == old(self).imports@,
            final(self).aliases@ == old(self).aliases@,
            final(self).count@ == old(self).count@,
            final(self).tfidf_view() == if alist_has(old(self).tfidf_view(), import@) || !alist_has(
                old(self)@.counts,
                import@,
            ) {
                old(self).tfidf_view()
            } else {
                old(self).tfidf_view().push((import@, tfidf as int))
            },
    {
        if !crate::counts::contains_count(&self.tf_idf, import) && crate::counts::contains_count(
            &self.count,
            import,
        ) {
            self.tf_idf.push((String::from_str(import), tfidf));
            proof {
                assert(self.tfidf_view() =~= old(self).tfidf_view().push((import@, tfidf as int)));
            }
        }
    }

    /// Records one import: the alias map learns its alias, and a record not
    /// yet present (by module, row and column) is appended and counted.
    pub fn add_import(&mut self, entry: ImportEntry)
        requires
            import_state_wf(old(self)@),
        ensures
            import_state_wf(final(self)@),
            final(self)@ == add_import_spec(old(self)@, import_entry_view(entry)),
            final(self).tf_idf@ == old(self).tf_idf@,
    {
        let ghost st0 = self@;
        let ghost ev = import_entry_view(entry);
        match &entry.alias {
            Some(a) => {
                let mut target = entry.module.clone();
                match &entry.symbol {
                    Some(sym) => {
                        target.append(".");
                        target.append(sym.as_str());
                        proof {
                            reveal_strlit(".");
                            assert("."@ =~= seq!['.']);
                            assert(target@ == alias_target(ev.module, ev.symbol));
                        }
                    },
                    None => {},
                }
                alias_put(&mut self.aliases, a, target);
            },
            None => {},
        }
        let dup = self.contains_record(&entry);
        if !dup {
            proof {
                crate::counts::lemma_table_wf_bound(
                    import_modules(st0.imports),
                    st0.counts,
                    ev.module,
                );
                crate::counts::lemma_count_key_bounds(import_modules(st0.imports), ev.module);
            }
            let module = entry.module.clone();
            self.imports.push(entry);
            let bound: usize = self.imports.len();
            crate::counts::bump_count(&mut self.count, module.as_str(), bound);
            proof {
                assert(import_entries_view(self.imports@) =~= st0.imports.push(ev));
            }
        }
        proof {
            lemma_add_import_wf(st0, ev);
            assert(self@ =~= add_import_spec(st0, ev));
        }
    }

    /// Records every import under one statement.
    #[verifier::loop_isolation(false)]
    pub fn visit_stmt(&mut self, s: &Stmt, ctx: Lexical)
        requires
            import_state_wf(old(self)@),
        ensures
            import_state_wf(final(self)@),
            final(self)@ == imports_in_stmt(old(self)@, stmt_view(*s), ctx),
            final(self).tf_idf@ == old(self).tf_idf@,
        decreases *s,
    {
        match &s.kind {
            StmtKind::Import { names } => {
                let ghost st0 = self@;
                let n: usize = names.len();
                let mut i: usize = 0;
                while i < n
                    invariant
                        import_state_wf(self@),
                        0 <= i <= n,
                        self@ == fold_import_names(
                            st0,
                            s.location,
                            symbols_view(names@).subrange(0, i as int),
                            ctx,
                        ),
                        self.tf_idf@ == old(self).tf_idf@,
                    decreases n - i,
                {
                    let name = &names[i];
                    let entry = ImportEntry {
                        module: name.symbol.clone(),
                        symbol: None,
                        location: s.location,
                        alias: match &name.alias {
                            Some(a) => Some(a.clone()),
                            None => None,
                        },
                        context: ctx,
                        is_dynamic: false,
                    };
                    proof {
                        assert(import_entry_view(entry) =~= (ImportEntryV {
                            module: symbol_view(names@[i as int]).symbol,
                            symbol: Option::None,
                            location: s.location,
                            alias: symbol_view(names@[i as int]).alias,
                            context: ctx,
                            is_dynamic: false,
                        }));
                    }
                    self.add_import(entry);
                    proof {
                        let sv = symbols_view(names@);
                        assert(sv.subrange(0, i + 1).subrange(0, i as int) =~= sv.subrange(
                            0,
                            i as int,
                        ));
                        assert(sv.subrange(0, i + 1)[i as int] == sv[i as int]);
                        assert(sv[i as int] == symbol_view(names@[i as int]));
                    }
                    i = i + 1;
                }
                proof {
                    assert(symbols_view(names@).subrange(0, n as int) =~= symbols_view(names@));
                }
            },
            StmtKind::ImportFrom { module, level, names } => {
                let ghost st0 = self@;
                let ghost mv = (match module {
                    Option::Some(m) => Option::Some(m@),
                    Option::None => Option::<Seq<char>>::None,
                });
                let n: usize = names.len();
                let mut i: usize = 0;
                while i < n
                    invariant
                        import_state_wf(self@),
                        0 <= i <= n,
                        self@ == fold_from_names(
                            st0,
                            s.location,
                            mv,
                            symbols_view(names@).subrange(0, i as int),
                            ctx,
                        ),
                        self.tf_idf@ == old(self).tf_idf@,
                    decreases n - i,
                {
                    let name = &names[i];
                    let full_name: String = match module {
                        Some(m) => m.clone(),
                        None => name.symbol.clone(),
                    };
                    let entry = ImportEntry {
                        module: full_name,
                        symbol: Some(name.symbol.clone()),
                        location: s.location,
                        alias: match &name.alias {
                            Some(a) => Some(a.clone()),
                            None => None,
                        },
                        context: ctx,
                        is_dynamic: false,
                    };
                    proof {
                        assert(import_entry_view(entry) =~= (ImportEntryV {
                            module: match mv {
                                Option::Some(m) => m,
                                Option::None => symbol_view(names@[i as int]).symbol,
                            },
                            symbol: Option::Some(symbol_view(names@[i as int]).symbol),
                            location: s.location,
                            alias: symbol_view(names@[i as int]).alias,
                            context: ctx,
                            is_dynamic: false,
                        }));
                    }
                    self.add_import(entry);
                    proof {
                        let sv = symbols_view(names@);
                        assert(sv.subrange(0, i + 1).subrange(0, i as int) =~= sv.subrange(
                            0,
                            i as int,
                        ));
                        assert(sv.subrange(0, i + 1)[i as int] == sv[i as int]);
                        assert(sv[i as int] == symbol_view(names@[i as int]));
                    }
                    i = i + 1;
                }
                proof {
                    assert(symbols_view(names@).subrange(0, n as int) =~= symbols_view(names@));
                }
            },
            StmtKind::FunctionDef { name, body, rest } => {
                proof {
                    assert(decreases_to!(*s => body@));
                }
                self.visit_body(s, body, Lexical::Function);
            },
            StmtKind::ClassDef { name, body, rest } => {
                proof {
                    assert(decreases_to!(*s => body@));
                }
                self.visit_body(s, body, ctx);
            },
            StmtKind::Other { children } => {
                let ghost st0 = self@;
                let n: usize = children.len();
                let mut i: usize = 0;
                while i < n
                    invariant
                        import_state_wf(self@),
                        0 <= i <= n,
                        self@ == imports_in_fragments(
                            st0,
                            fragments_view(children@).subrange(0, i as int),
                            ctx,
                        ),
                        self.tf_idf@ == old(self).tf_idf@,
                    decreases n - i,
                {
                    proof {
                        lemma_fragments_view_index(children@, i as int);
                    }
                    match &children[i] {
                        Fragment::Expr(_) => {},
                        Fragment::Stmt(t2) => {
                            proof {
                                assert(decreases_to!(*s => children@[i as int]));
                                assert(decreases_to!(children@[i as int] => children@[i as int]->Stmt_0));
                            }
                            self.visit_stmt(t2, ctx);
                        },
                    }
                    proof {
                        let fv = fragments_view(children@);
                        assert(fv.subrange(0, i + 1).subrange(0, i as int) =~= fv.subrange(
                            0,
                            i as int,
                        ));
                        assert(fv.subrange(0, i + 1)[i as int] == fv[i as int]);
                    }
                    i = i + 1;
                }
                proof {
                    lemma_fragments_view_len(children@);
                    assert(fragments_view(children@).subrange(0, n as int) =~= fragments_view(
                        children@,
                    ));
                }
            },
            StmtKind::Assign { .. } => {},
            StmtKind::AugAssign { .. } => {},
            StmtKind::Expr { .. } => {},
        }
    }

    /// Walks the body of a definition in the given context.
    #[verifier::loop_isolation(false)]
    fn visit_body(&mut self, parent: &Stmt, body: &Vec<Stmt>, ctx: Lexical)
        requires
            import_state_wf(old(self)@),
            decreases_to!(*parent => body@),
        ensures
            import_state_wf(final(self)@),
            final(self)@ == imports_in_stmts(old(self)@, stmts_view(body@), ctx),
            final(self).tf_idf@ == old(self).tf_idf@,
        decreases *parent, 0int,
    {
        let ghost st0 = self@;
        let n: usize = body.len();
        let mut i: usize = 0;
        while i < n
            invariant
                import_state_wf(self@),
                0 <= i <= n,
                self@ == imports_in_stmts(st0, stmts_view(body@).subrange(0, i as int), ctx),
                self.tf_idf@ == old(self).tf_idf@,
            decreases n - i,
        {
            proof {
                lemma_stmts_view_index(body@, i as int);
                assert(decreases_to!(body@ => body@[i as int]));
            }
            self.visit_stmt(&body[i], ctx);
            proof {
                let sv = stmts_view(body@);
                assert(sv.subrange(0, i + 1).subrange(0, i as int) =~= sv.subrange(0, i as int));
                assert(sv.subrange(0, i + 1)[i as int] == sv[i as int]);
            }
            i = i + 1;
        }
        proof {
            lemma_stmts_view_len(body@);
            assert(stmts_view(body@).subrange(0, n as int) =~= stmts_view(body@));
        }
    }

    /// Records every import in a module's statements, starting in global
    /// context.
    #[verifier::loop_isolation(false)]
    pub fn visit_stmts(&mut self, stmts: &Vec<Stmt>)
        requires
            import_state_wf(old(self)@),
        ensures
            import_state_wf(final(self)@),
            final(self)@ == imports_in_stmts(old(self)@, stmts_view(stmts@), Lexical::Global),
            final(self).tf_idf@ == old(self).tf_idf@,
    {
        let ghost st0 = self@;
        let n: usize = stmts.len();
        let mut i: usize = 0;
        while i < n
            invariant
                import_state_wf(self@),
                0 <= i <= n,
                self@ == imports_in_stmts(
                    st0,
                    stmts_view(stmts@).subrange(0, i as int),
                    Lexical::Global,
                ),
                self.tf_idf@ == old(self).tf_idf@,
            decreases n - i,
        {
            proof {
                lemma_stmts_view_index(stmts@, i as int);
            }
            self.visit_stmt(&stmts[i], Lexical::Global);
            proof {
                let sv = stmts_view(stmts@);
                assert(sv.subrange(0, i + 1).subrange(0, i as int) =~= sv.subrange(0, i as int));
                assert(sv.subrange(0, i + 1)[i as int] == sv[i as int]);
            }
            i = i + 1;
        }
        proof {
            lemma_stmts_view_len(stmts@);
            assert(stmts_view(stmts@).subrange(0, n as int) =~= stmts_view(stmts@));
        }
    }

    /// Is a record with the same module, row and column already present?
    fn contains_record(&self, entry: &ImportEntry) -> (r: bool)
        ensures
            r == has_import_record(self@.imports, import_entry_view(*entry)),
    {
        let n: usize = self.imports.len();
        let mut i: usize = 0;
        while i < n
            invariant
                n == self.imports@.len(),
                0 <= i <= n,
                forall|j: int| 0 <= j < i ==> !same_import(
                    #[trigger] import_entries_view(self.imports@)[j],
                    import_entry_view(*entry),
                ),
            decreases n - i,
        {
            let e = &self.imports[i];
            if strutil::str_eq(e.module.as_str(), entry.module.as_str()) && e.location.row
                == entry.location.row && e.location.column == entry.location.column {
                proof {
                    assert(same_import(
                        import_entries_view(self.imports@)[i as int],
                        import_entry_view(*entry),
                    ));
                }
                return true;
            }
            i = i + 1;
        }
        false
    }
}

/// Is this identifier a reflective import loader?
pub open spec fn is_reflective_import(ident: Seq<char>) -> bool {
    ident == "__import__"@ || ident == "importlib.import_module"@
}

/// The synthetic record a reflective call contributes: its first argument
/// must have resolved to a string, which becomes the module.
pub open spec fn dynamic_entry_of(c: CallEntryV) -> Option<ImportEntryV> {
    if is_reflective_import(c.full_identifier) && c.args.len() > 0 && c.args[0] is Some && c.args[0]->0 is Str {
        Option::Some(
            ImportEntryV {
                module: c.args[0]->0->Str_0,
                symbol: Option::None,
                location: c.location,
                alias: Option::None,
                context: Lexical::Global,
                is_dynamic: true,
            },
        )
    } else {
        Option::None
    }
}

/// The import state after discovering the dynamic imports among the call
/// records, in order.
pub open spec fn resolve_dynamic_spec(st: ImportStateV, entries: Seq<CallEntryV>) -> ImportStateV
    decreases entries.len(),
{
    if entries.len() == 0 {
        st
    } else {
        let prev = resolve_dynamic_spec(st, entries.subrange(0, entries.len() - 1));
        match dynamic_entry_of(entries[entries.len() - 1]) {
            Option::Some(e) => add_import_spec(prev, e),
            Option::None => prev,
        }
    }
}

impl ImportVisitor {
    /// Synthesizes an import record for every call of a reflective loader
    /// whose first argument resolved to a string.
    #[verifier::loop_isolation(false)]
    pub fn resolve_dynamic_imports(&mut self, entries: &Vec<CallEntry>)
        requires
            import_state_wf(old(self)@),
        ensures
            import_state_wf(final(self)@),
            final(self)@ == resolve_dynamic_spec(old(self)@, call_entries_view(entries@)),
            final(self).tf_idf@ == old(self).tf_idf@,
    {
        let ghost st0 = self@;
        let ghost ev = call_entries_view(entries@);
        let n: usize = entries.len();
        let mut i: usize = 0;
        while i < n
            invariant
                import_state_wf(self@),
                0 <= i <= n,
                self@ == resolve_dynamic_spec(st0, ev.subrange(0, i as int)),
                self.tf_idf@ == old(self).tf_idf@,
            decreases n - i,
        {
            let e = &entries[i];
            let ghost c = ev[i as int];
            proof {
                assert(c == crate::call_visitor::call_entry_view(entries@[i as int]));
            }
            if strutil::str_eq(e.full_identifier.as_str(), "__import__") || strutil::str_eq(
                e.full_identifier.as_str(),
                "importlib.import_module",
            ) {
                if e.args.len() > 0 {
                    proof {
                        crate::value::lemma_opt_slots_view_index(e.args@, 0);
                    }
                    match &e.args[0] {
                        Some(v) => {
                            match v.get_string() {
                                Some(m) => {
                                    let entry = ImportEntry {
                                        module: m.clone(),
                                        symbol: None,
                                        location: e.location,
                                        alias: None,
                                        context: Lexical::Global,
                                        is_dynamic: true,
                                    };
                                    proof {
                                        assert(c.args[0] == crate::value::opt_slot_view(
                                            e.args@[0],
                                        ));
                                        assert(dynamic_entry_of(c) == Option::Some(
                                            import_entry_view(entry),
                                        ));
                                    }
                                    self.add_import(entry);
                                },
                                None => {
                                    proof {
                                        assert(c.args[0] == crate::value::opt_slot_view(
                                            e.args@[0],
                                        ));
                                        assert(dynamic_entry_of(c) is None);
                                    }
                                },
                            }
                        },
                        None => {
                            proof {
                                assert(c.args[0] == crate::value::opt_slot_view(e.args@[0]));
                                assert(dynamic_entry_of(c) is None);
                            }
                        },
                    }
                }
            } else {
                proof {
                    assert(!is_reflective_import(c.full_identifier));
                }
            }
            proof {
                assert(ev.subrange(0, i + 1).subrange(0, i as int) =~= ev.subrange(0, i as int));
                assert(ev.subrange(0, i + 1)[i as int] == ev[i as int]);
            }
            i = i + 1;
        }
        proof {
            assert(ev.subrange(0, n as int) =~= ev);
        }
    }
}

/// Looks up the target of an alias.
pub fn alias_get<'a>(v: &'a Vec<(String, String)>, key: &str) -> (r: Option<&'a String>)
    ensures
        (match r {
            Option::Some(t) => Option::Some(t@),
            Option::None => Option::<Seq<char>>::None,
        }) == alist_get(string_pairs_view(v@), key@),
{
    let n: usize = v.len();
    let mut i: usize = 0;
    while i < n
        invariant
            n == v@.len(),
            0 <= i <= n,
            forall|j: int| 0 <= j < i ==> #[trigger] v@[j].0@ != key@,
        decreases n - i,
    {
        if strutil::str_eq(v[i].0.as_str(), key) {
            proof {
                crate::counts::lemma_alist_get_at_first(string_pairs_view(v@), key@, i as int);
            }
            return Some(&v[i].1);
        }
        i = i + 1;
    }
    proof {
        assert(!alist_has(string_pairs_view(v@), key@));
        lemma_alist_get_has(string_pairs_view(v@), key@);
    }
    None
}

/// Sets `key` to `val` in a string table, replacing an earlier entry for
/// the same key.
fn alias_put(v: &mut Vec<(String, String)>, key: &String, val: String)
    ensures
        string_pairs_view(final(v)@) == alist_set(string_pairs_view(old(v)@), key@, val@),
{
    let n: usize = v.len();
    let mut i: usize = 0;
    while i < n
        invariant
            n == v@.len(),
            0 <= i <= n,
            v@ == old(v)@,
            forall|j: int| 0 <= j < i ==> #[trigger] v@[j].0@ != key@,
        decreases n - i,
    {
        if strutil::str_eq(v[i].0.as_str(), key.as_str()) {
            let fresh_key = v[i].0.clone();
            v.set(i, (fresh_key, val));
            proof {
                lemma_alist_set_found(string_pairs_view(old(v)@), key@, val@, i as int);
                assert(string_pairs_view(v@) =~= string_pairs_view(old(v)@).update(
                    i as int,
                    (key@, val@),
                ));
            }
            return ;
        }
        i = i + 1;
    }
    proof {
        assert(!alist_has(string_pairs_view(v@), key@));
        lemma_alist_set_absent(string_pairs_view(old(v)@), key@, val@);
    }
    v.push((key.clone(), val));
    proof {
        assert(string_pairs_view(v@) =~= string_pairs_view(old(v)@).push((key@, val@)));
    }
}

} // verus!
