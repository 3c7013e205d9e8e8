use vstd::prelude::*;

use crate::source::SourceFile;
use crate::strutil;

verus! {

/// Does the word list contain this string?
pub open spec fn word_list_has(words: Seq<String>, w: Seq<char>) -> bool {
    exists|i: int| 0 <= i < words.len() && words[i]@ == w
}

fn word_list_contains(words: &Vec<String>, w: &str) -> (r: bool)
    ensures
        r == word_list_has(words@, w@),
{
    let n: usize = words.len();
    let mut i: usize = 0;
    while i < n
        invariant
            n == words@.len(),
            0 <= i <= n,
            forall|k: int| 0 <= k < i ==> #[trigger] words@[k]@ != w@,
        decreases n - i,
    {
        if strutil::str_eq(words[i].as_str(), w) {
            assert(words@[i as int]@ == w@);
            return true;
        }
        i = i + 1;
    }
    false
}

/// How many of the call identifiers stand in the word list.
pub open spec fn count_listed_calls(
    entries: Seq<crate::call_visitor::CallEntryV>,
    words: Seq<String>,
) -> int
    decreases entries.len(),
{
    if entries.len() == 0 {
        0
    } else {
        count_listed_calls(entries.subrange(0, entries.len() - 1), words) + if word_list_has(
            words,
            entries[entries.len() - 1].full_identifier,
        ) {
            1int
        } else {
            0int
        }
    }
}

/// How many of the import modules stand in the word list.
pub open spec fn count_listed_imports(
    imports: Seq<crate::import_visitor::ImportEntryV>,
    words: Seq<String>,
) -> int
    decreases imports.len(),
{
    if imports.len() == 0 {
        0
    } else {
        count_listed_imports(imports.subrange(0, imports.len() - 1), words) + if word_list_has(
            words,
            imports[imports.len() - 1].module,
        ) {
            1int
        } else {
            0int
        }
    }
}

/// A plain word-list screen: how many calls and imports of a source name a
/// listed function or module.
#[derive(Debug)]
pub struct Checker {
    pub suspicious_functions: Vec<String>,
    pub suspicious_imports: Vec<String>,
}

/// What the screen counted.
#[derive(Debug)]
pub struct CheckResult {
    pub suspicious_functions: usize,
    pub suspicious_imports: usize,
}

impl Checker {
    /// A checker over the given word lists.
    pub fn new(suspicious_functions: Vec<String>, suspicious_imports: Vec<String>) -> (r: Checker)
        ensures
            r.suspicious_functions@ == suspicious_functions@,
            r.suspicious_imports@ == suspicious_imports@,
    {
        Checker { suspicious_functions, suspicious_imports }
    }

    /// Counts the listed call identifiers and import modules of a source.
    #[verifier::loop_isolation(false)]
    pub fn check(&self, source_file: &SourceFile) -> (r: CheckResult)
        ensures
            r.suspicious_functions as int == count_listed_calls(
                source_file.call_visitor@.entries,
                self.suspicious_functions@,
            ),
            r.suspicious_imports as int == count_listed_imports(
                source_file.import_visitor@.imports,
                self.suspicious_imports@,
            ),
    {
        let ghost calls = source_file.call_visitor@.entries;
        let ghost imps = source_file.import_visitor@.imports;
        let mut sus_funcs: usize = 0;
        let entries = source_file.get_entries();
        let nc: usize = entries.len();
        let mut i: usize = 0;
        while i < nc
            invariant
                nc == entries@.len(),
                crate::call_visitor::call_entries_view(entries@) == calls,
                0 <= i <= nc,
                sus_funcs <= i,
                sus_funcs as int == count_listed_calls(
                    calls.subrange(0, i as int),
                    self.suspicious_functions@,
                ),
            decreases nc - i,
        {
            if word_list_contains(&self.suspicious_functions, entries[i].full_identifier.as_str())
            {
                sus_funcs = sus_funcs + 1;
            }
            proof {
                assert(calls.subrange(0, i + 1).subrange(0, i as int) =~= calls.subrange(
                    0,
                    i as int,
                ));
                assert(calls.subrange(0, i + 1)[i as int] == calls[i as int]);
                assert(calls[i as int].full_identifier == entries@[i as int].full_identifier@);
            }
            i = i + 1;
        }
        proof {
            assert(calls.subrange(0, nc as int) =~= calls);
        }
        let mut sus_mods: usize = 0;
        let imports = source_file.get_imports();
        let ni: usize = imports.len();
        let mut j: usize = 0;
        while j < ni
            invariant
                ni == imports@.len(),
                crate::import_visitor::import_entries_view(imports@) == imps,
                0 <= j <= ni,
                sus_mods <= j,
                sus_mods as int == count_listed_imports(
                    imps.subrange(0, j as int),
                    self.suspicious_imports@,
                ),
            decreases ni - j,
        {
            if word_list_contains(&self.suspicious_imports, imports[j].module.as_str()) {
                sus_mods = sus_mods + 1;
            }
            proof {
                assert(imps.subrange(0, j + 1).subrange(0, j as int) =~= imps.subrange(
                    0,
                    j as int,
                ));
                assert(imps.subrange(0, j + 1)[j as int] == imps[j as int]);
                assert(imps[j as int].module == imports@[j as int].module@);
            }
            j = j + 1;
        }
        proof {
            assert(imps.subrange(0, ni as int) =~= imps);
        }
        CheckResult { suspicious_functions: sus_funcs, suspicious_imports: sus_mods }
    }
}

} // verus!
