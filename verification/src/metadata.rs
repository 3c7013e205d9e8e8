use vstd::prelude::*;

use crate::strutil;

verus! {

/// ASCII whitespace, as the token splitting of package metadata uses it.
pub open spec fn is_ws(c: char) -> bool {
    c == ' ' || c == '\t' || c == '\n' || c == '\r' || c == '\u{c}'
}

/// How many whitespace characters lead the string.
pub open spec fn leading_ws(s: Seq<char>) -> int
    decreases s.len(),
{
    if s.len() == 0 || !is_ws(s[0]) {
        0
    } else {
        1 + leading_ws(s.subrange(1, s.len() as int))
    }
}

/// How many whitespace characters trail the string.
pub open spec fn trailing_ws(s: Seq<char>) -> int
    decreases s.len(),
{
    if s.len() == 0 || !is_ws(s[s.len() - 1]) {
        0
    } else {
        1 + trailing_ws(s.subrange(0, s.len() - 1))
    }
}

/// The string without leading and trailing whitespace.
pub open spec fn trim_spec(s: Seq<char>) -> Seq<char> {
    if leading_ws(s) == s.len() {
        Seq::empty()
    } else {
        s.subrange(leading_ws(s), s.len() - trailing_ws(s))
    }
}

fn is_ws_exec(c: char) -> (r: bool)
    ensures
        r == is_ws(c),
{
    c == ' ' || c == '\t' || c == '\n' || c == '\r' || c == '\u{c}'
}

/// Leading whitespace stops at the first non-whitespace character.
proof fn lemma_leading_ws_at(s: Seq<char>, i: int)
    requires
        0 <= i <= s.len(),
        forall|k: int| 0 <= k < i ==> is_ws(#[trigger] s[k]),
        i < s.len() ==> !is_ws(s[i]),
    ensures
        leading_ws(s) == i,
    decreases s.len(),
{
    if s.len() == 0 {
    } else if i == 0 {
    } else {
        let rest = s.subrange(1, s.len() as int);
        assert(forall|k: int| 0 <= k < i - 1 ==> rest[k] == s[k + 1]);
        assert(i - 1 < rest.len() ==> rest[i - 1] == s[i]);
        lemma_leading_ws_at(rest, i - 1);
    }
}

/// Trailing whitespace stops at the last non-whitespace character.
proof fn lemma_trailing_ws_at(s: Seq<char>, j: int)
    requires
        0 <= j <= s.len(),
        forall|k: int| j <= k < s.len() ==> is_ws(#[trigger] s[k]),
        j > 0 ==> !is_ws(s[j - 1]),
    ensures
        trailing_ws(s) == s.len() - j,
    decreases s.len(),
{
    if s.len() == 0 {
    } else if j == s.len() {
    } else {
        let rest = s.subrange(0, s.len() - 1);
        assert(forall|k: int| j <= k < rest.len() ==> rest[k] == s[k]);
        lemma_trailing_ws_at(rest, j);
    }
}

/// Removes leading and trailing ASCII whitespace.
#[verifier::loop_isolation(false)]
pub fn trim(s: &str) -> (r: String)
    ensures
        r@ == trim_spec(s@),
{
    let n: usize = s.unicode_len();
    let mut a: usize = 0;
    while a < n && is_ws_exec(s.get_char(a))
        invariant
            0 <= a <= n,
            forall|k: int| 0 <= k < a ==> is_ws(#[trigger] s@[k]),
        decreases n - a,
    {
        a = a + 1;
    }
    if a == n {
        proof {
            lemma_leading_ws_at(s@, n as int);
        }
        return String::new();
    }
    let mut b: usize = n;
    while b > a && is_ws_exec(s.get_char(b - 1))
        invariant
            a <= b <= n,
            forall|k: int| b <= k < n ==> is_ws(#[trigger] s@[k]),
        decreases b,
    {
        b = b - 1;
    }
    proof {
        lemma_leading_ws_at(s@, a as int);
        lemma_trailing_ws_at(s@, b as int);
    }
    String::from_str(s.substring_char(a, b))
}

/// The first whitespace-separated token: leading whitespace skipped, then
/// everything up to the next whitespace, if anything is left.
pub open spec fn first_token_spec(s: Seq<char>) -> Option<Seq<char>> {
    if leading_ws(s) == s.len() {
        Option::None
    } else {
        let rest = s.subrange(leading_ws(s), s.len() as int);
        Option::Some(rest.subrange(0, token_len(rest)))
    }
}

/// The length of the maximal non-whitespace prefix.
pub open spec fn token_len(s: Seq<char>) -> int
    decreases s.len(),
{
    if s.len() == 0 || is_ws(s[0]) {
        0
    } else {
        1 + token_len(s.subrange(1, s.len() as int))
    }
}

/// The token prefix stops at the first whitespace character.
proof fn lemma_token_len_at(s: Seq<char>, i: int)
    requires
        0 <= i <= s.len(),
        forall|k: int| 0 <= k < i ==> !is_ws(#[trigger] s[k]),
        i < s.len() ==> is_ws(s[i]),
    ensures
        token_len(s) == i,
    decreases s.len(),
{
    if s.len() == 0 {
    } else if i == 0 {
    } else {
        let rest = s.subrange(1, s.len() as int);
        assert(forall|k: int| 0 <= k < i - 1 ==> rest[k] == s[k + 1]);
        assert(i - 1 < rest.len() ==> rest[i - 1] == s[i]);
        lemma_token_len_at(rest, i - 1);
    }
}

/// Extracts the first whitespace-separated token.
#[verifier::loop_isolation(false)]
pub fn first_token(s: &str) -> (r: Option<String>)
    ensures
        (match r {
            Option::Some(t) => Option::Some(t@),
            Option::None => Option::None,
        }) == first_token_spec(s@),
{
    let n: usize = s.unicode_len();
    let mut a: usize = 0;
    while a < n && is_ws_exec(s.get_char(a))
        invariant
            0 <= a <= n,
            forall|k: int| 0 <= k < a ==> is_ws(#[trigger] s@[k]),
        decreases n - a,
    {
        a = a + 1;
    }
    if a == n {
        proof {
            lemma_leading_ws_at(s@, n as int);
        }
        return None;
    }
    let mut b: usize = a;
    while b < n && !is_ws_exec(s.get_char(b))
        invariant
            a <= b <= n,
            forall|k: int| a <= k < b ==> !is_ws(#[trigger] s@[k]),
        decreases n - b,
    {
        b = b + 1;
    }
    proof {
        lemma_leading_ws_at(s@, a as int);
        let rest = s@.subrange(a as int, n as int);
        assert(forall|k: int| 0 <= k < b - a ==> rest[k] == s@[a + k]);
        assert(b < n ==> rest[b - a] == s@[b as int]);
        lemma_token_len_at(rest, b - a);
        assert(rest.subrange(0, b - a) =~= s@.subrange(a as int, b as int));
    }
    Some(String::from_str(s.substring_char(a, b)))
}

/// A package's name and dependency list, as read from its metadata lines.
#[derive(Debug)]
pub struct Metadata {
    pub name: String,
    pub deps: Vec<String>,
}

impl Metadata {
    /// The dependency names.
    pub fn get_deps(&self) -> (r: &Vec<String>)
        ensures
            r == &self.deps,
    {
        &self.deps
    }
}

/// The text after the first `':'`, if the line starts with the given
/// prefix.
pub open spec fn field_value_spec(line: Seq<char>, prefix: Seq<char>) -> Option<Seq<char>> {
    if strutil::is_prefix_of(prefix, line) {
        match strutil::first_index_of(line, ':') {
            Option::Some(i) => Option::Some(line.subrange(i + 1, line.len() as int)),
            Option::None => Option::None,
        }
    } else {
        Option::None
    }
}

fn field_value(line: &str, prefix: &str) -> (r: Option<String>)
    ensures
        (match r {
            Option::Some(t) => Option::Some(t@),
            Option::None => Option::None,
        }) == field_value_spec(line@, prefix@),
{
    if strutil::starts_with(line, prefix) {
        match strutil::find_first(line, ':') {
            Some(i) => {
                let n: usize = line.unicode_len();
                Some(String::from_str(line.substring_char(i + 1, n)))
            },
            None => None,
        }
    } else {
        None
    }
}

/// The name a metadata file's lines declare: the trimmed value of the last
/// `Name:` line, the empty string when none occurs.
pub open spec fn metadata_name_spec(lines: Seq<Seq<char>>) -> Seq<char>
    decreases lines.len(),
{
    if lines.len() == 0 {
        Seq::empty()
    } else {
        match field_value_spec(lines.last(), "Name:"@) {
            Option::Some(v) => trim_spec(v),
            Option::None => metadata_name_spec(lines.subrange(0, lines.len() - 1)),
        }
    }
}

/// The dependencies a metadata file's lines declare: the first token of
/// each `Requires-Dist:` value, in order.
pub open spec fn metadata_deps_spec(lines: Seq<Seq<char>>) -> Seq<Seq<char>>
    decreases lines.len(),
{
    if lines.len() == 0 {
        Seq::empty()
    } else {
        let pre = metadata_deps_spec(lines.subrange(0, lines.len() - 1));
        match field_value_spec(lines.last(), "Requires-Dist:"@) {
            Option::Some(v) => match first_token_spec(v) {
                Option::Some(t) => pre.push(t),
                Option::None => pre,
            },
            Option::None => pre,
        }
    }
}

/// Reads a wheel metadata file's lines: the `Name:` field names the
/// package, each `Requires-Dist:` line contributes its first token as a
/// dependency.
#[verifier::loop_isolation(false)]
pub fn parse_metadata_file(lines: &Vec<String>) -> (r: Metadata)
    ensures
        r.name@ == metadata_name_spec(strutil::lines_view(lines@)),
        strutil::lines_view(r.deps@) == metadata_deps_spec(strutil::lines_view(lines@)),
{
    let ghost lv = strutil::lines_view(lines@);
    let mut name: String = String::new();
    let mut deps: Vec<String> = Vec::new();
    let n: usize = lines.len();
    let mut i: usize = 0;
    while i < n
        invariant
            n == lines@.len(),
            0 <= i <= n,
            name@ == metadata_name_spec(lv.subrange(0, i as int)),
            strutil::lines_view(deps@) == metadata_deps_spec(lv.subrange(0, i as int)),
        decreases n - i,
    {
        let line = lines[i].as_str();
        match field_value(line, "Name:") {
            Some(right) => {
                name = trim(right.as_str());
            },
            None => {},
        }
        match field_value(line, "Requires-Dist:") {
            Some(right) => {
                match first_token(right.as_str()) {
                    Some(dep) => {
                        deps.push(dep);
                    },
                    None => {},
                }
            },
            None => {},
        }
        proof {
            assert(lv.subrange(0, i + 1).subrange(0, i as int) =~= lv.subrange(0, i as int));
            assert(lv.subrange(0, i + 1).last() == lv[i as int]);
            assert(strutil::lines_view(deps@) =~= metadata_deps_spec(lv.subrange(0, i + 1)));
        }
        i = i + 1;
    }
    proof {
        assert(lv.subrange(0, n as int) =~= lv);
    }
    Metadata { name, deps }
}

/// Reads a `PKG-INFO` file's lines: only the `Name:` field is taken.
pub fn parse_name_from_pkg(lines: &Vec<String>) -> (r: String)
    ensures
        r@ == metadata_name_spec(strutil::lines_view(lines@)),
{
    let parsed = parse_metadata_file(lines);
    parsed.name
}

} // verus!
