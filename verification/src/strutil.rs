use vstd::prelude::*;

verus! {

/// True when `c` occurs nowhere in `s[lo..hi]`.
pub open spec fn no_char_in_range(s: Seq<char>, c: char, lo: int, hi: int) -> bool {
    forall|k: int| lo <= k < hi ==> s[k] != c
}

/// The first index of `c` in `s`, if any.
pub open spec fn first_index_of(s: Seq<char>, c: char) -> Option<int> {
    if exists|i: int| 0 <= i < s.len() && s[i] == c {
        let i = choose|i: int| 0 <= i < s.len() && s[i] == c && no_char_in_range(s, c, 0, i);
        Some(i)
    } else {
        None
    }
}

/// The last index of `c` in `s`, if any.
pub open spec fn last_index_of(s: Seq<char>, c: char) -> Option<int> {
    if exists|i: int| 0 <= i < s.len() && s[i] == c {
        let i = choose|i: int|
            0 <= i < s.len() && s[i] == c && no_char_in_range(s, c, i + 1, s.len() as int);
        Some(i)
    } else {
        None
    }
}

/// Scans `s` from the left; returns the index of the first occurrence of `c`.
pub fn find_first(s: &str, c: char) -> (r: Option<usize>)
    ensures
        match r {
            Some(i) => {
                &&& 0 <= i < s@.len()
                &&& s@[i as int] == c
                &&& no_char_in_range(s@, c, 0, i as int)
                &&& first_index_of(s@, c) == Some(i as int)
            },
            None => {
                &&& no_char_in_range(s@, c, 0, s@.len() as int)
                &&& first_index_of(s@, c) is None
            },
        },
{
    let n: usize = s.unicode_len();
    let mut i: usize = 0;
    while i < n
        invariant
            n == s@.len(),
            0 <= i <= n,
            no_char_in_range(s@, c, 0, i as int),
        decreases n - i,
    {
        if s.get_char(i) == c {
            return Some(i);
        }
        i = i + 1;
    }
    None
}

/// Scans `s` from the right; returns the index of the last occurrence of `c`.
pub fn find_last(s: &str, c: char) -> (r: Option<usize>)
    ensures
        match r {
            Some(i) => {
                &&& 0 <= i < s@.len()
                &&& s@[i as int] == c
                &&& no_char_in_range(s@, c, i + 1, s@.len() as int)
                &&& last_index_of(s@, c) == Some(i as int)
            },
            None => {
                &&& no_char_in_range(s@, c, 0, s@.len() as int)
                &&& last_index_of(s@, c) is None
            },
        },
{
    let n: usize = s.unicode_len();
    let mut i: usize = n;
    while i > 0
        invariant
            n == s@.len(),
            0 <= i <= n,
            no_char_in_range(s@, c, i as int, n as int),
        decreases i,
    {
        i = i - 1;
        if s.get_char(i) == c {
            return Some(i);
        }
    }
    None
}

/// Character-by-character equality of two string slices.
pub fn str_eq(a: &str, b: &str) -> (r: bool)
    ensures
        r == (a@ == b@),
{
    let na: usize = a.unicode_len();
    let nb: usize = b.unicode_len();
    if na != nb {
        return false;
    }
    let mut i: usize = 0;
    while i < na
        invariant
            na == a@.len(),
            na == b@.len(),
            0 <= i <= na,
            forall|k: int| 0 <= k < i ==> a@[k] == b@[k],
        decreases na - i,
    {
        if a.get_char(i) != b.get_char(i) {
            return false;
        }
        i = i + 1;
    }
    proof {
        assert(a@ =~= b@);
    }
    true
}

/// True when `p` is a prefix of `s`.
pub open spec fn is_prefix_of(p: Seq<char>, s: Seq<char>) -> bool {
    p.len() <= s.len() && s.subrange(0, p.len() as int) == p
}

/// Does `s` start with `p`?
pub fn starts_with(s: &str, p: &str) -> (r: bool)
    ensures
        r == is_prefix_of(p@, s@),
{
    let ns: usize = s.unicode_len();
    let np: usize = p.unicode_len();
    if np > ns {
        assert(!is_prefix_of(p@, s@));
        return false;
    }
    let mut i: usize = 0;
    while i < np
        invariant
            ns == s@.len(),
            np == p@.len(),
            np <= ns,
            0 <= i <= np,
            forall|k: int| 0 <= k < i ==> s@[k] == p@[k],
        decreases np - i,
    {
        if s.get_char(i) != p.get_char(i) {
            assert(s@.subrange(0, p@.len() as int)[i as int] != p@[i as int]);
            return false;
        }
        i = i + 1;
    }
    proof {
        assert(s@.subrange(0, p@.len() as int) =~= p@);
    }
    true
}

/// True when `p` is a suffix of `s`.
pub open spec fn is_suffix_of(p: Seq<char>, s: Seq<char>) -> bool {
    p.len() <= s.len() && s.subrange(s.len() - p.len(), s.len() as int) == p
}

/// Does `s` end with `p`?
pub fn ends_with(s: &str, p: &str) -> (r: bool)
    ensures
        r == is_suffix_of(p@, s@),
{
    let ns: usize = s.unicode_len();
    let np: usize = p.unicode_len();
    if np > ns {
        assert(!is_suffix_of(p@, s@));
        return false;
    }
    let off: usize = ns - np;
    let mut i: usize = 0;
    while i < np
        invariant
            ns == s@.len(),
            np == p@.len(),
            np <= ns,
            off == ns - np,
            0 <= i <= np,
            forall|k: int| 0 <= k < i ==> s@[off + k] == p@[k],
        decreases np - i,
    {
        if s.get_char(off + i) != p.get_char(i) {
            assert(s@.subrange(s@.len() - p@.len(), s@.len() as int)[i as int] != p@[i as int]);
            return false;
        }
        i = i + 1;
    }
    proof {
        assert(s@.subrange(s@.len() - p@.len(), s@.len() as int) =~= p@);
    }
    true
}

/// Does `pat` occur in `s` starting at index `i`?
pub open spec fn is_match_at(s: Seq<char>, pat: Seq<char>, i: int) -> bool {
    0 <= i && i + pat.len() <= s.len() && s.subrange(i, i + pat.len()) == pat
}

/// The smallest index at which `pat` occurs in `s`, if any.
pub open spec fn first_match_index(s: Seq<char>, pat: Seq<char>) -> Option<int> {
    if exists|i: int| is_match_at(s, pat, i) {
        let i = choose|i: int|
            is_match_at(s, pat, i) && forall|j: int| 0 <= j < i ==> !is_match_at(s, pat, j);
        Some(i)
    } else {
        None
    }
}

/// Does `pat` occur at index `i` of `s`?  Checked character by character.
fn match_at(s: &str, pat: &str, i: usize) -> (r: bool)
    requires
        i + pat@.len() <= s@.len(),
    ensures
        r == is_match_at(s@, pat@, i as int),
{
    let ns: usize = s.unicode_len();
    let np: usize = pat.unicode_len();
    let mut k: usize = 0;
    while k < np
        invariant
            ns == s@.len(),
            np == pat@.len(),
            i + np <= ns,
            0 <= k <= np,
            forall|j: int| 0 <= j < k ==> s@[i + j] == pat@[j],
        decreases np - k,
    {
        if s.get_char(i + k) != pat.get_char(k) {
            assert(s@.subrange(i as int, i + pat@.len())[k as int] != pat@[k as int]);
            return false;
        }
        k = k + 1;
    }
    proof {
        assert(s@.subrange(i as int, i + pat@.len()) =~= pat@);
    }
    true
}

/// Finds the leftmost occurrence of `pat` in `s`.
pub fn find_sub(s: &str, pat: &str) -> (r: Option<usize>)
    ensures
        match r {
            Some(i) => {
                &&& is_match_at(s@, pat@, i as int)
                &&& forall|j: int| 0 <= j < i ==> !is_match_at(s@, pat@, j)
                &&& first_match_index(s@, pat@) == Some(i as int)
            },
            None => {
                &&& forall|j: int| !is_match_at(s@, pat@, j)
                &&& first_match_index(s@, pat@) is None
            },
        },
{
    let ns: usize = s.unicode_len();
    let np: usize = pat.unicode_len();
    if np > ns {
        return None;
    }
    if np == 0 {
        proof {
            assert(is_match_at(s@, pat@, 0)) by {
                assert(s@.subrange(0, 0) =~= pat@);
            }
        }
        return Some(0);
    }
    let mut i: usize = 0;
    while i <= ns - np
        invariant
            ns == s@.len(),
            np == pat@.len(),
            1 <= np <= ns,
            0 <= i <= ns - np + 1,
            forall|j: int| 0 <= j < i ==> !is_match_at(s@, pat@, j),
        decreases ns + 1 - np - i,
    {
        if match_at(s, pat, i) {
            return Some(i);
        }
        i = i + 1;
    }
    None
}

/// `s` with every occurrence of `pat` (leftmost-first, non-overlapping)
/// replaced by `rep`.
pub open spec fn replace_all_spec(s: Seq<char>, pat: Seq<char>, rep: Seq<char>) -> Seq<char>
    decreases s.len(),
{
    if pat.len() == 0 {
        s
    } else {
        match first_match_index(s, pat) {
            Option::None => s,
            Option::Some(i) => if 0 <= i && i + pat.len() <= s.len() {
                s.subrange(0, i) + rep + replace_all_spec(
                    s.subrange(i + pat.len(), s.len() as int),
                    pat,
                    rep,
                )
            } else {
                s
            },
        }
    }
}

/// Replaces every occurrence of `pat` in `s` by `rep`, scanning left to right.
#[verifier::rlimit(50)]
pub fn replace_all(s: &str, pat: &str, rep: &str) -> (r: String)
    requires
        pat@.len() > 0,
    ensures
        r@ == replace_all_spec(s@, pat@, rep@),
{
    let mut out: String = String::new();
    let mut rem: &str = s;
    loop
        invariant
            pat@.len() > 0,
            replace_all_spec(s@, pat@, rep@) == out@ + replace_all_spec(rem@, pat@, rep@),
        decreases rem@.len(),
    {
        match find_sub(rem, pat) {
            Option::None => {
                out.append(rem);
                proof {
                    assert(replace_all_spec(rem@, pat@, rep@) == rem@);
                }
                return out;
            },
            Option::Some(i) => {
                let np: usize = pat.unicode_len();
                let nr: usize = rem.unicode_len();
                let ghost out0 = out@;
                let ghost rem0 = rem@;
                out.append(rem.substring_char(0, i));
                out.append(rep);
                let next = rem.substring_char(i + np, nr);
                proof {
                    assert(replace_all_spec(rem0, pat@, rep@) == rem0.subrange(0, i as int) + rep@
                        + replace_all_spec(next@, pat@, rep@));
                    assert(out0 + (rem0.subrange(0, i as int) + rep@ + replace_all_spec(
                        next@,
                        pat@,
                        rep@,
                    )) =~= (out0 + rem0.subrange(0, i as int) + rep@) + replace_all_spec(
                        next@,
                        pat@,
                        rep@,
                    ));
                    assert(out@ == out0 + rem0.subrange(0, i as int) + rep@);
                }
                rem = next;
            },
        }
    }
}

/// Drops a single trailing carriage return, as the line splitter does.
pub open spec fn strip_cr_spec(l: Seq<char>) -> Seq<char> {
    if l.len() > 0 && l[l.len() - 1] == '\r' {
        l.subrange(0, l.len() - 1)
    } else {
        l
    }
}

/// The lines of `s`: split on `'\n'`, each line stripped of one trailing
/// `'\r'`; a trailing newline produces no empty final line.
pub open spec fn split_lines_spec(s: Seq<char>) -> Seq<Seq<char>>
    decreases s.len(),
{
    if s.len() == 0 {
        Seq::empty()
    } else {
        match first_index_of(s, '\n') {
            Option::None => seq![strip_cr_spec(s)],
            Option::Some(i) => if 0 <= i < s.len() {
                seq![strip_cr_spec(s.subrange(0, i))] + split_lines_spec(
                    s.subrange(i + 1, s.len() as int),
                )
            } else {
                Seq::empty()
            },
        }
    }
}

fn strip_cr(l: &str) -> (r: String)
    ensures
        r@ == strip_cr_spec(l@),
{
    let n: usize = l.unicode_len();
    if n > 0 && l.get_char(n - 1) == '\r' {
        String::from_str(l.substring_char(0, n - 1))
    } else {
        String::from_str(l)
    }
}

proof fn lemma_string_vec_push(old_v: Seq<String>, new_v: Seq<String>, x: String)
    requires
        new_v == old_v.push(x),
    ensures
        new_v.map_values(|t: String| t@) =~= old_v.map_values(|t: String| t@).push(x@),
{
}

/// The view of each line in `v`, in order.
pub open spec fn lines_view(v: Seq<String>) -> Seq<Seq<char>> {
    v.map_values(|t: String| t@)
}

/// Splits `s` into its lines.
pub fn split_lines(s: &str) -> (r: Vec<String>)
    ensures
        lines_view(r@) == split_lines_spec(s@),
{
    let mut out: Vec<String> = Vec::new();
    let mut rem: &str = s;
    proof {
        assert(lines_view(out@) =~= Seq::<Seq<char>>::empty());
    }
    loop
        invariant
            split_lines_spec(s@) == lines_view(out@) + split_lines_spec(rem@),
        decreases rem@.len(),
    {
        if rem.unicode_len() == 0 {
            proof {
                assert(split_lines_spec(s@) =~= lines_view(out@));
            }
            return out;
        }
        match find_first(rem, '\n') {
            Option::None => {
                let line = strip_cr(rem);
                proof {
                    let prev = out@;
                    assert(split_lines_spec(rem@) =~= seq![strip_cr_spec(rem@)]);
                    lemma_string_vec_push(prev, prev.push(line), line);
                }
                out.push(line);
                proof {
                    assert(split_lines_spec(s@) =~= lines_view(out@));
                }
                return out;
            },
            Option::Some(i) => {
                let nr: usize = rem.unicode_len();
                let line = strip_cr(rem.substring_char(0, i));
                let next = rem.substring_char(i + 1, nr);
                proof {
                    let prev = out@;
                    assert(split_lines_spec(rem@) =~= seq![strip_cr_spec(rem@.subrange(0, i as int))]
                        + split_lines_spec(next@));
                    lemma_string_vec_push(prev, prev.push(line), line);
                    assert(lines_view(prev.push(line)) + split_lines_spec(next@)
                        =~= lines_view(prev) + split_lines_spec(rem@));
                }
                out.push(line);
                rem = next;
            },
        }
    }
}

/// The lines joined with `'\n'`, no trailing newline.
pub open spec fn join_lines_spec(ls: Seq<Seq<char>>) -> Seq<char>
    decreases ls.len(),
{
    if ls.len() == 0 {
        Seq::empty()
    } else if ls.len() == 1 {
        ls[0]
    } else {
        ls[0] + seq!['\n'] + join_lines_spec(ls.drop_first())
    }
}

proof fn lemma_join_lines_push(ls: Seq<Seq<char>>, x: Seq<char>)
    ensures
        join_lines_spec(ls.push(x)) == if ls.len() == 0 {
            x
        } else {
            join_lines_spec(ls) + seq!['\n'] + x
        },
    decreases ls.len(),
{
    if ls.len() == 0 {
        assert(ls.push(x).len() == 1);
        assert(join_lines_spec(ls.push(x)) == ls.push(x)[0]);
    } else if ls.len() == 1 {
        assert(ls.push(x).drop_first() =~= seq![x]);
        assert(join_lines_spec(seq![x]) == x);
        assert(ls.push(x)[0] == ls[0]);
        assert(join_lines_spec(ls.push(x)) == ls[0] + seq!['\n'] + x);
        assert(join_lines_spec(ls) == ls[0]);
    } else {
        assert(ls.push(x).drop_first() =~= ls.drop_first().push(x));
        lemma_join_lines_push(ls.drop_first(), x);
        assert(join_lines_spec(ls.push(x)) == ls[0] + seq!['\n'] + (join_lines_spec(
            ls.drop_first(),
        ) + seq!['\n'] + x));
        assert(ls[0] + seq!['\n'] + (join_lines_spec(ls.drop_first()) + seq!['\n'] + x) =~= (ls[0]
            + seq!['\n'] + join_lines_spec(ls.drop_first())) + seq!['\n'] + x);
    }
}

/// Joins lines with `'\n'`.
pub fn join_lines(v: &Vec<String>) -> (r: String)
    ensures
        r@ == join_lines_spec(lines_view(v@)),
{
    let mut out: String = String::new();
    let n: usize = v.len();
    let mut i: usize = 0;
    while i < n
        invariant
            n == v@.len(),
            0 <= i <= n,
            out@ == join_lines_spec(lines_view(v@).subrange(0, i as int)),
        decreases n - i,
    {
        if i > 0 {
            out.append("\n");
            proof {
                reveal_strlit("\n");
            }
        }
        out.append(v[i].as_str());
        proof {
            let full = lines_view(v@);
            assert(full.subrange(0, i as int).push(full[i as int]) =~= full.subrange(
                0,
                i + 1 as int,
            ));
            lemma_join_lines_push(full.subrange(0, i as int), full[i as int]);
            if i > 0 {
                assert("\n"@ =~= seq!['\n']);
            }
        }
        i = i + 1;
    }
    proof {
        assert(lines_view(v@).subrange(0, n as int) =~= lines_view(v@));
    }
    out
}

/// The strings joined with a separator, no trailing separator.
pub open spec fn join_with_spec(sep: Seq<char>, ls: Seq<Seq<char>>) -> Seq<char>
    decreases ls.len(),
{
    if ls.len() == 0 {
        Seq::empty()
    } else if ls.len() == 1 {
        ls[0]
    } else {
        ls[0] + sep + join_with_spec(sep, ls.drop_first())
    }
}

proof fn lemma_join_with_push(sep: Seq<char>, ls: Seq<Seq<char>>, x: Seq<char>)
    ensures
        join_with_spec(sep, ls.push(x)) == if ls.len() == 0 {
            x
        } else {
            join_with_spec(sep, ls) + sep + x
        },
    decreases ls.len(),
{
    if ls.len() == 0 {
        assert(ls.push(x).len() == 1);
        assert(join_with_spec(sep, ls.push(x)) == ls.push(x)[0]);
    } else if ls.len() == 1 {
        assert(ls.push(x).drop_first() =~= seq![x]);
        assert(join_with_spec(sep, seq![x]) == x);
        assert(ls.push(x)[0] == ls[0]);
        assert(join_with_spec(sep, ls.push(x)) == ls[0] + sep + x);
        assert(join_with_spec(sep, ls) == ls[0]);
    } else {
        assert(ls.push(x).drop_first() =~= ls.drop_first().push(x));
        lemma_join_with_push(sep, ls.drop_first(), x);
        assert(join_with_spec(sep, ls.push(x)) == ls[0] + sep + (join_with_spec(
            sep,
            ls.drop_first(),
        ) + sep + x));
        assert(ls[0] + sep + (join_with_spec(sep, ls.drop_first()) + sep + x) =~= (ls[0] + sep
            + join_with_spec(sep, ls.drop_first())) + sep + x);
    }
}

/// Joins strings with a separator.
pub fn join_with(v: &Vec<String>, sep: &str) -> (r: String)
    ensures
        r@ == join_with_spec(sep@, lines_view(v@)),
{
    let mut out: String = String::new();
    let n: usize = v.len();
    let mut i: usize = 0;
    while i < n
        invariant
            n == v@.len(),
            0 <= i <= n,
            out@ == join_with_spec(sep@, lines_view(v@).subrange(0, i as int)),
        decreases n - i,
    {
        if i > 0 {
            out.append(sep);
        }
        out.append(v[i].as_str());
        proof {
            let full = lines_view(v@);
            assert(full.subrange(0, i as int).push(full[i as int]) =~= full.subrange(
                0,
                i + 1 as int,
            ));
            lemma_join_with_push(sep@, full.subrange(0, i as int), full[i as int]);
        }
        i = i + 1;
    }
    proof {
        assert(lines_view(v@).subrange(0, n as int) =~= lines_view(v@));
    }
    out
}

/// Joining with a newline separator is joining lines.
pub proof fn lemma_join_with_newline(ls: Seq<Seq<char>>)
    ensures
        join_with_spec(seq!['\n'], ls) == join_lines_spec(ls),
    decreases ls.len(),
{
    if ls.len() > 1 {
        lemma_join_with_newline(ls.drop_first());
    }
}

/// `s` with every `'0'` removed.
pub open spec fn strip_zeros_spec(s: Seq<char>) -> Seq<char>
    decreases s.len(),
{
    if s.len() == 0 {
        Seq::empty()
    } else if s.last() == '0' {
        strip_zeros_spec(s.drop_last())
    } else {
        strip_zeros_spec(s.drop_last()).push(s.last())
    }
}

/// Removes every `'0'` character from `s`.
pub fn strip_zeros(s: &str) -> (r: String)
    ensures
        r@ == strip_zeros_spec(s@),
{
    let n: usize = s.unicode_len();
    let mut out: String = String::new();
    let mut i: usize = 0;
    while i < n
        invariant
            n == s@.len(),
            0 <= i <= n,
            out@ == strip_zeros_spec(s@.subrange(0, i as int)),
        decreases n - i,
    {
        let c = s.get_char(i);
        if c != '0' {
            out.append(s.substring_char(i, i + 1));
            proof {
                assert(s@.subrange(i as int, i + 1 as int) =~= seq![s@[i as int]]);
            }
        }
        proof {
            let pre = s@.subrange(0, i + 1 as int);
            assert(pre.drop_last() =~= s@.subrange(0, i as int));
            assert(pre.last() == s@[i as int]);
            if c != '0' {
                assert(out@ =~= strip_zeros_spec(s@.subrange(0, i as int)).push(s@[i as int]));
            }
        }
        i = i + 1;
    }
    proof {
        assert(s@.subrange(0, n as int) =~= s@);
    }
    out
}

} // verus!
