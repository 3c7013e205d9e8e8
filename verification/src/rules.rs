use vstd::prelude::*;

verus! {

/// The coarse behaviour category a rule tags its matches with.
#[derive(Debug, Clone, Copy, PartialEq, Eq, Structural, Hash)]
pub enum Functionality {
    Encryption,
    Encoding,
    Compression,
    FileSystem,
    Network,
    Process,
    System,
    NotSpecific,
}

impl Functionality {
    /// A fixed order on categories, used to sort summaries.
    pub fn rank(&self) -> (r: u8)
        ensures
            r == self.rank_spec(),
    {
        match self {
            Functionality::Encryption => 0,
            Functionality::Encoding => 1,
            Functionality::Compression => 2,
            Functionality::FileSystem => 3,
            Functionality::Network => 4,
            Functionality::Process => 5,
            Functionality::System => 6,
            Functionality::NotSpecific => 7,
        }
    }

    /// The rank of each category.
    pub open spec fn rank_spec(&self) -> u8 {
        match self {
            Functionality::Encryption => 0,
            Functionality::Encoding => 1,
            Functionality::Compression => 2,
            Functionality::FileSystem => 3,
            Functionality::Network => 4,
            Functionality::Process => 5,
            Functionality::System => 6,
            Functionality::NotSpecific => 7,
        }
    }
}

/// One rule of the catalog: a module name to flag among imports, or a
/// function name to flag among calls, with a category and an optional
/// display name and description.
#[derive(Debug)]
pub enum Rule {
    Module(Functionality, String, Option<String>, Option<String>),
    Function(Functionality, String, Option<String>, Option<String>),
}

/// The abstract value of a [`Rule`].
pub enum RuleV {
    Module(Functionality, Seq<char>, Option<Seq<char>>, Option<Seq<char>>),
    Function(Functionality, Seq<char>, Option<Seq<char>>, Option<Seq<char>>),
}

/// The abstract value of one rule.
pub open spec fn rule_view(r: Rule) -> RuleV {
    match r {
        Rule::Module(f, ident, name, desc) => RuleV::Module(
            f,
            ident@,
            opt_string_view(name),
            opt_string_view(desc),
        ),
        Rule::Function(f, ident, name, desc) => RuleV::Function(
            f,
            ident@,
            opt_string_view(name),
            opt_string_view(desc),
        ),
    }
}

/// The view of an optional string.
pub open spec fn opt_string_view(s: Option<String>) -> Option<Seq<char>> {
    match s {
        Option::Some(x) => Option::Some(x@),
        Option::None => Option::None,
    }
}

/// The abstract values of a list of rules.
pub open spec fn rules_view(s: Seq<Rule>) -> Seq<RuleV> {
    Seq::new(s.len(), |i: int| rule_view(s[i]))
}

impl Rule {
    /// The category the rule carries.
    pub fn functionality(&self) -> (r: Functionality)
        ensures
            r == (match rule_view(*self) {
                RuleV::Module(f, _, _, _) => f,
                RuleV::Function(f, _, _, _) => f,
            }),
    {
        match self {
            Rule::Module(functionality, _, _, _) => *functionality,
            Rule::Function(functionality, _, _, _) => *functionality,
        }
    }
}

/// A named rule set with its visibility threshold, in millionths.
#[derive(Debug)]
pub struct RuleSet {
    pub name: String,
    pub threshold: u64,
    pub rules: Vec<Rule>,
}

/// The abstract value of a [`RuleSet`].
pub struct RuleSetV {
    pub name: Seq<char>,
    pub threshold: u64,
    pub rules: Seq<RuleV>,
}

/// The abstract value of one rule set.
pub open spec fn rule_set_view(s: RuleSet) -> RuleSetV {
    RuleSetV { name: s.name@, threshold: s.threshold, rules: rules_view(s.rules@) }
}

/// The abstract values of a list of rule sets.
pub open spec fn rule_sets_view(s: Seq<RuleSet>) -> Seq<RuleSetV> {
    Seq::new(s.len(), |i: int| rule_set_view(s[i]))
}

/// Only the `Module` rules of a list, in order.
pub open spec fn module_rules_of(rules: Seq<RuleV>) -> Seq<RuleV>
    decreases rules.len(),
{
    if rules.len() == 0 {
        Seq::empty()
    } else {
        let pre = module_rules_of(rules.subrange(0, rules.len() - 1));
        if rules[rules.len() - 1] is Module {
            pre.push(rules[rules.len() - 1])
        } else {
            pre
        }
    }
}

/// Only the `Function` rules of a list, in order.
pub open spec fn function_rules_of(rules: Seq<RuleV>) -> Seq<RuleV>
    decreases rules.len(),
{
    if rules.len() == 0 {
        Seq::empty()
    } else {
        let pre = function_rules_of(rules.subrange(0, rules.len() - 1));
        if rules[rules.len() - 1] is Function {
            pre.push(rules[rules.len() - 1])
        } else {
            pre
        }
    }
}

impl RuleSet {
    /// The `Module` rules of this set.
    pub fn get_module_rules(&self) -> (r: Vec<&Rule>)
        ensures
            Seq::new(r@.len(), |i: int| rule_view(*r@[i])) == module_rules_of(
                rule_set_view(*self).rules,
            ),
    {
        let mut out: Vec<&Rule> = Vec::new();
        let n: usize = self.rules.len();
        let mut i: usize = 0;
        while i < n
            invariant
                n == self.rules@.len(),
                0 <= i <= n,
                Seq::new(out@.len(), |k: int| rule_view(*out@[k])) == module_rules_of(
                    rules_view(self.rules@).subrange(0, i as int),
                ),
            decreases n - i,
        {
            let ghost pre = out@;
            match &self.rules[i] {
                Rule::Module(..) => {
                    out.push(&self.rules[i]);
                },
                Rule::Function(..) => {},
            }
            proof {
                let rv = rules_view(self.rules@);
                assert(rv.subrange(0, i + 1).subrange(0, i as int) =~= rv.subrange(0, i as int));
                assert(rv.subrange(0, i + 1)[i as int] == rv[i as int]);
                assert(rv[i as int] == rule_view(self.rules@[i as int]));
                assert(Seq::new(out@.len(), |k: int| rule_view(*out@[k])) =~= module_rules_of(
                    rv.subrange(0, i + 1),
                ));
            }
            i = i + 1;
        }
        proof {
            assert(rules_view(self.rules@).subrange(0, n as int) =~= rules_view(self.rules@));
        }
        out
    }

    /// The `Function` rules of this set.
    pub fn get_function_rules(&self) -> (r: Vec<&Rule>)
        ensures
            Seq::new(r@.len(), |i: int| rule_view(*r@[i])) == function_rules_of(
                rule_set_view(*self).rules,
            ),
    {
        let mut out: Vec<&Rule> = Vec::new();
        let n: usize = self.rules.len();
        let mut i: usize = 0;
        while i < n
            invariant
                n == self.rules@.len(),
                0 <= i <= n,
                Seq::new(out@.len(), |k: int| rule_view(*out@[k])) == function_rules_of(
                    rules_view(self.rules@).subrange(0, i as int),
                ),
            decreases n - i,
        {
            match &self.rules[i] {
                Rule::Function(..) => {
                    out.push(&self.rules[i]);
                },
                Rule::Module(..) => {},
            }
            proof {
                let rv = rules_view(self.rules@);
                assert(rv.subrange(0, i + 1).subrange(0, i as int) =~= rv.subrange(0, i as int));
                assert(rv.subrange(0, i + 1)[i as int] == rv[i as int]);
                assert(rv[i as int] == rule_view(self.rules@[i as int]));
                assert(Seq::new(out@.len(), |k: int| rule_view(*out@[k])) =~= function_rules_of(
                    rv.subrange(0, i + 1),
                ));
            }
            i = i + 1;
        }
        proof {
            assert(rules_view(self.rules@).subrange(0, n as int) =~= rules_view(self.rules@));
        }
        out
    }
}

/// A whole catalog: a list of rule sets.
#[derive(Debug)]
pub struct Rules(pub Vec<RuleSet>);

/// Holds the catalog the evaluator runs against.  The catalog itself is
/// handed in as plain values; reading it from a file is the caller's
/// concern.
#[derive(Debug)]
pub struct RuleManager {
    pub rule_sets: Vec<RuleSet>,
}

impl RuleManager {
    pub fn new(rule_sets: Vec<RuleSet>) -> (r: Self)
        ensures
            r.rule_sets@ == rule_sets@,
    {
        RuleManager { rule_sets }
    }

    /// Hands the catalog out.
    pub fn get_rule_sets(self) -> (r: Vec<RuleSet>)
        ensures
            r@ == self.rule_sets@,
    {
        self.rule_sets
    }
}

} // verus!
