use vstd::prelude::*;

use crate::strutil;

verus! {

/// The part of a dotted identifier after its last `'.'`; the whole
/// identifier when it holds no dot.
pub open spec fn last_attr_of(s: Seq<char>) -> Seq<char> {
    match strutil::last_index_of(s, '.') {
        Option::None => s,
        Option::Some(i) => s.subrange(i + 1, s.len() as int),
    }
}

/// Returns the last attribute of a dotted identifier: for
/// `"a.b.c"` this is `"c"`; for a plain `"name"` it is `"name"` itself.
pub fn get_last_attr(full_identifier: &str) -> (r: &str)
    ensures
        r@ == last_attr_of(full_identifier@),
{
    match strutil::find_last(full_identifier, '.') {
        Option::Some(i) => {
            let n: usize = full_identifier.unicode_len();
            full_identifier.substring_char(i + 1, n)
        },
        Option::None => full_identifier,
    }
}

/// The part of a dotted identifier before its first `'.'`; the whole
/// identifier when it holds no dot.
pub open spec fn base_identifier_of(s: Seq<char>) -> Seq<char> {
    match strutil::first_index_of(s, '.') {
        Option::None => s,
        Option::Some(i) => s.subrange(0, i),
    }
}

/// The placeholder used for a call argument or identifier that could not be
/// resolved to a value.
pub open spec fn empty_arg_spec(opt: Option<Seq<char>>) -> Seq<char> {
    match opt {
        Option::Some(s) => s,
        Option::None => seq!['*'],
    }
}

/// Unwraps an optional string, substituting the `"*"` placeholder.
pub fn format_empty_arg(opt: &Option<String>) -> (r: String)
    ensures
        r@ == empty_arg_spec(match opt {
            Option::Some(s) => Option::Some(s@),
            Option::None => Option::None,
        }),
{
    match opt {
        Option::Some(s) => s.clone(),
        Option::None => {
            proof {
                reveal_strlit("*");
            }
            String::from_str("*")
        },
    }
}

/// Prefixes every string in `strings` with `pad`.
pub fn indent(strings: &Vec<String>, pad: String) -> (r: Vec<String>)
    ensures
        r@.len() == strings@.len(),
        forall|i: int| 0 <= i < r@.len() ==> #[trigger] r@[i]@ == pad@ + strings@[i]@,
{
    let mut res: Vec<String> = Vec::new();
    let n: usize = strings.len();
    let mut i: usize = 0;
    while i < n
        invariant
            n == strings@.len(),
            0 <= i <= n,
            res@.len() == i,
            forall|k: int| 0 <= k < i ==> #[trigger] res@[k]@ == pad@ + strings@[k]@,
        decreases n - i,
    {
        let mut line = pad.clone();
        line.append(strings[i].as_str());
        res.push(line);
        i = i + 1;
    }
    res
}

/// Prefixes every string in the slice with `pad`.
pub fn _indent(strings: &[String], pad: String) -> (r: Vec<String>)
    ensures
        r@.len() == strings@.len(),
        forall|i: int| 0 <= i < r@.len() ==> #[trigger] r@[i]@ == pad@ + strings@[i]@,
{
    let mut res: Vec<String> = Vec::new();
    let n: usize = strings.len();
    let mut i: usize = 0;
    while i < n
        invariant
            n == strings@.len(),
            0 <= i <= n,
            res@.len() == i,
            forall|k: int| 0 <= k < i ==> #[trigger] res@[k]@ == pad@ + strings@[k]@,
        decreases n - i,
    {
        let mut line = pad.clone();
        line.append(strings[i].as_str());
        res.push(line);
        i = i + 1;
    }
    res
}

/// How an unpacked package directory presents itself on disk.
#[derive(Debug, Clone, Copy, PartialEq, Eq, Structural)]
pub enum PackageType {
    Wheel,
    Zip,
}

/// What a single directory entry name says about the package type, if
/// anything: a `.dist-info` entry marks a wheel, a `setup.py` a zip.
pub open spec fn entry_package_type(name: Seq<char>) -> Option<PackageType> {
    if strutil::is_suffix_of(".dist-info"@, name) {
        Option::Some(PackageType::Wheel)
    } else if strutil::is_suffix_of("setup.py"@, name) {
        Option::Some(PackageType::Zip)
    } else {
        Option::None
    }
}

/// The package type decided by a list of entry names: the last entry that
/// says anything wins, as it does when a directory listing is folded.
pub open spec fn package_type_of(names: Seq<Seq<char>>) -> Option<PackageType>
    decreases names.len(),
{
    if names.len() == 0 {
        Option::None
    } else {
        match entry_package_type(names.last()) {
            Option::Some(t) => Option::Some(t),
            Option::None => package_type_of(names.drop_last()),
        }
    }
}

/// Classifies a package directory from the names of its entries.
pub fn detect_package_type(names: &Vec<String>) -> (r: Option<PackageType>)
    ensures
        r == package_type_of(strutil::lines_view(names@)),
{
    let mut found: Option<PackageType> = None;
    let n: usize = names.len();
    let mut i: usize = 0;
    while i < n
        invariant
            n == names@.len(),
            0 <= i <= n,
            found == package_type_of(strutil::lines_view(names@).subrange(0, i as int)),
        decreases n - i,
    {
        let name = names[i].as_str();
        if strutil::ends_with(name, ".dist-info") {
            found = Some(PackageType::Wheel);
        } else if strutil::ends_with(name, "setup.py") {
            found = Some(PackageType::Zip);
        }
        proof {
            let full = strutil::lines_view(names@);
            let pre = full.subrange(0, i + 1 as int);
            assert(pre.drop_last() =~= full.subrange(0, i as int));
            assert(pre.last() == names@[i as int]@);
        }
        i = i + 1;
    }
    proof {
        assert(strutil::lines_view(names@).subrange(0, n as int) =~= strutil::lines_view(names@));
    }
    found
}

} // verus!
