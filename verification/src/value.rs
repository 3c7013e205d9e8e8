use vstd::prelude::*;

verus! {

/// The mathematical shape of a shallow runtime value: strings and
/// identifiers by their character sequences, containers by the values of
/// their slots.
#[verifier::ext_equal]
pub enum ValueV {
    Identifier(Seq<char>),
    Str(Seq<char>),
    Dict(Seq<(Seq<char>, ValueV)>),
    List(Seq<Option<ValueV>>),
    Tuple(Seq<Option<ValueV>>),
}

/// A deliberately shallow model of a value in the analysed program: a string
/// literal, an identifier, or a container of such values.  A slot holds
/// `None` where the value could not be resolved.
#[derive(Debug)]
pub enum VariableType {
    Identifier(String),
    Str(String),
    Dict(Vec<(String, VariableType)>),
    List(Vec<Option<VariableType>>),
    Tuple(Vec<Option<VariableType>>),
}

/// The abstract value of a `VariableType`.
pub open spec fn value_view(v: VariableType) -> ValueV
    decreases v,
{
    match v {
        VariableType::Identifier(s) => ValueV::Identifier(s@),
        VariableType::Str(s) => ValueV::Str(s@),
        VariableType::Dict(vec) => ValueV::Dict(pair_slots_view(vec@)),
        VariableType::List(vec) => ValueV::List(opt_slots_view(vec@)),
        VariableType::Tuple(vec) => ValueV::Tuple(opt_slots_view(vec@)),
    }
}

/// The abstract values of a sequence of dictionary slots.
pub open spec fn pair_slots_view(s: Seq<(String, VariableType)>) -> Seq<(Seq<char>, ValueV)>
    decreases s,
{
    if s.len() == 0 {
        Seq::empty()
    } else {
        pair_slots_view(s.subrange(0, s.len() - 1)).push(
            (s[s.len() - 1].0@, value_view(s[s.len() - 1].1)),
        )
    }
}

/// The abstract values of a sequence of optional slots.
pub open spec fn opt_slots_view(s: Seq<Option<VariableType>>) -> Seq<Option<ValueV>>
    decreases s,
{
    if s.len() == 0 {
        Seq::empty()
    } else {
        opt_slots_view(s.subrange(0, s.len() - 1)).push(
            match s[s.len() - 1] {
                Option::Some(x) => Option::Some(value_view(x)),
                Option::None => Option::None,
            },
        )
    }
}

impl DeepView for VariableType {
    type V = ValueV;

    #[verifier::inline]
    open spec fn deep_view(&self) -> ValueV {
        value_view(*self)
    }
}

/// The abstract value of one optional slot.
pub open spec fn opt_slot_view(x: Option<VariableType>) -> Option<ValueV> {
    match x {
        Option::Some(v) => Option::Some(value_view(v)),
        Option::None => Option::None,
    }
}

/// Slot sequence views index pointwise.
pub broadcast proof fn lemma_opt_slots_view_index(s: Seq<Option<VariableType>>, i: int)
    requires
        0 <= i < s.len(),
    ensures
        opt_slots_view(s).len() == s.len(),
        #[trigger] opt_slots_view(s)[i] == opt_slot_view(s[i]),
    decreases s.len(),
{
    lemma_opt_slots_view_len(s);
    if s.len() > 0 && i < s.len() - 1 {
        lemma_opt_slots_view_index(s.subrange(0, s.len() - 1), i);
        assert(s.subrange(0, s.len() - 1)[i] == s[i]);
    }
}

/// The view of a slot sequence has the same length.
pub broadcast proof fn lemma_opt_slots_view_len(s: Seq<Option<VariableType>>)
    ensures
        #[trigger] opt_slots_view(s).len() == s.len(),
    decreases s.len(),
{
    if s.len() > 0 {
        lemma_opt_slots_view_len(s.subrange(0, s.len() - 1));
    }
}

/// The abstract value of one keyword slot.
pub open spec fn kw_slot_view(p: (Option<String>, Option<VariableType>)) -> (
    Option<Seq<char>>,
    Option<ValueV>,
) {
    (
        match p.0 {
            Option::Some(n) => Option::Some(n@),
            Option::None => Option::None,
        },
        opt_slot_view(p.1),
    )
}

/// The abstract values of a sequence of keyword slots.
pub open spec fn kw_slots_view(s: Seq<(Option<String>, Option<VariableType>)>) -> Seq<
    (Option<Seq<char>>, Option<ValueV>),
> {
    Seq::new(s.len(), |i: int| kw_slot_view(s[i]))
}

/// Slot sequences with equal abstract values have equal views.
proof fn lemma_opt_slots_view_congruence(a: Seq<Option<VariableType>>, b: Seq<Option<VariableType>>)
    requires
        a.len() == b.len(),
        forall|k: int| 0 <= k < a.len() ==> #[trigger] opt_slot_view(a[k]) == opt_slot_view(b[k]),
    ensures
        opt_slots_view(a) == opt_slots_view(b),
    decreases a.len(),
{
    if a.len() > 0 {
        lemma_opt_slots_view_congruence(
            a.subrange(0, a.len() - 1),
            b.subrange(0, b.len() - 1),
        );
        assert(opt_slot_view(a[a.len() - 1]) == opt_slot_view(b[b.len() - 1]));
        assert(opt_slots_view(a) =~= opt_slots_view(b));
    } else {
        assert(opt_slots_view(a) =~= opt_slots_view(b));
    }
}

/// Pair sequences with equal names and abstract values have equal views.
proof fn lemma_pair_slots_view_congruence(
    a: Seq<(String, VariableType)>,
    b: Seq<(String, VariableType)>,
)
    requires
        a.len() == b.len(),
        forall|k: int|
            0 <= k < a.len() ==> #[trigger] a[k].0@ == b[k].0@ && value_view(a[k].1) == value_view(
                b[k].1,
            ),
    ensures
        pair_slots_view(a) == pair_slots_view(b),
    decreases a.len(),
{
    if a.len() > 0 {
        lemma_pair_slots_view_congruence(
            a.subrange(0, a.len() - 1),
            b.subrange(0, b.len() - 1),
        );
        assert(pair_slots_view(a) =~= pair_slots_view(b));
    } else {
        assert(pair_slots_view(a) =~= pair_slots_view(b));
    }
}

impl VariableType {
    /// The string carried by a `Str` value.
    pub fn get_string(&self) -> (r: Option<&String>)
        ensures
            r == (match self {
                VariableType::Str(s) => Option::Some(s),
                _ => Option::<&String>::None,
            }),
    {
        match self {
            VariableType::Str(s) => Some(s),
            _ => None,
        }
    }

    /// The name carried by an `Identifier` value.
    pub fn get_identifier(&self) -> (r: Option<&String>)
        ensures
            r == (match self {
                VariableType::Identifier(s) => Option::Some(s),
                _ => Option::<&String>::None,
            }),
    {
        match self {
            VariableType::Identifier(s) => Some(s),
            _ => None,
        }
    }

    /// Is this value an identifier?
    pub fn is_identifier(&self) -> (r: bool)
        ensures
            r == (self.deep_view() is Identifier),
    {
        match self {
            VariableType::Identifier(..) => true,
            _ => false,
        }
    }

    /// Is this value a string?
    pub fn is_string(&self) -> (r: bool)
        ensures
            r == (self.deep_view() is Str),
    {
        match self {
            VariableType::Str(..) => true,
            _ => false,
        }
    }
}

impl Clone for VariableType {
    /// A clone carries the same abstract value.
    fn clone(&self) -> (r: Self)
        ensures
            r.deep_view() == self.deep_view(),
        decreases self,
    {
        match self {
            VariableType::Identifier(s) => VariableType::Identifier(s.clone()),
            VariableType::Str(s) => VariableType::Str(s.clone()),
            VariableType::Dict(v) => {
                let out = clone_pairs(v);
                proof {
                    lemma_pair_slots_view_congruence(out@, v@);
                }
                VariableType::Dict(out)
            },
            VariableType::List(v) => {
                let out = clone_opt_slots(v);
                proof {
                    lemma_opt_slots_view_congruence(out@, v@);
                }
                VariableType::List(out)
            },
            VariableType::Tuple(v) => {
                let out = clone_opt_slots(v);
                proof {
                    lemma_opt_slots_view_congruence(out@, v@);
                }
                VariableType::Tuple(out)
            },
        }
    }
}

fn clone_pairs(v: &Vec<(String, VariableType)>) -> (r: Vec<(String, VariableType)>)
    ensures
        r@.len() == v@.len(),
        forall|k: int|
            0 <= k < v@.len() ==> #[trigger] r@[k].0@ == v@[k].0@ && value_view(r@[k].1)
                == value_view(v@[k].1),
    decreases v,
{
    let mut out: Vec<(String, VariableType)> = Vec::new();
    let n: usize = v.len();
    let mut i: usize = 0;
    while i < n
        invariant
            n == v@.len(),
            0 <= i <= n,
            out@.len() == i,
            forall|k: int|
                0 <= k < i ==> #[trigger] out@[k].0@ == v@[k].0@ && value_view(out@[k].1)
                    == value_view(v@[k].1),
        decreases n - i,
    {
        proof {
            assert(decreases_to!(v => v@[i as int].1));
        }
        let pair = &v[i];
        out.push((pair.0.clone(), pair.1.clone()));
        i = i + 1;
    }
    out
}

fn clone_opt_slots(v: &Vec<Option<VariableType>>) -> (r: Vec<Option<VariableType>>)
    ensures
        r@.len() == v@.len(),
        forall|k: int| 0 <= k < v@.len() ==> #[trigger] opt_slot_view(r@[k]) == opt_slot_view(
            v@[k],
        ),
    decreases v,
{
    let mut out: Vec<Option<VariableType>> = Vec::new();
    let n: usize = v.len();
    let mut i: usize = 0;
    while i < n
        invariant
            n == v@.len(),
            0 <= i <= n,
            out@.len() == i,
            forall|k: int| 0 <= k < i ==> #[trigger] opt_slot_view(out@[k]) == opt_slot_view(
                v@[k],
            ),
        decreases n - i,
    {
        proof {
            assert(decreases_to!(v => v@[i as int]));
        }
        let slot: Option<VariableType> = match &v[i] {
            Some(x) => Some(x.clone()),
            None => None,
        };
        out.push(slot);
        i = i + 1;
    }
    out
}

} // verus!
