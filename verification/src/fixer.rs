use vstd::prelude::*;

use crate::strutil::{join_lines, join_lines_spec, lines_view, replace_all, replace_all_spec,
    split_lines, split_lines_spec, strip_zeros, strip_zeros_spec};

verus! {

/// What the leading-zero pattern (one or more zeros followed by a digit)
/// first matches in a line, as the matched text.  The match depends on the
/// line alone.
pub uninterp spec fn leading_zero_match(line: Seq<char>) -> Option<Seq<char>>;

/// Whether a line carries the legacy two-argument `except` clause.  The
/// answer depends on the line alone.
pub uninterp spec fn py2except_matches(line: Seq<char>) -> bool;

/// Relies on `regex::Regex::find` with the fixed pattern `[0]+\d`: the
/// first match in the line, as its text.  A match of this pattern is never
/// empty.
#[verifier::external_body]
fn find_leading_zero(line: &str) -> (r: Option<String>)
    ensures
        (match r {
            Option::Some(m) => Option::Some(m@),
            Option::None => Option::None,
        }) == leading_zero_match(line@),
        (match r {
            Option::Some(m) => m@.len() >= 1,
            Option::None => true,
        }),
{
    match regex::Regex::new(r"[0]+\d") {
        Ok(re) => re.find(line).map(|m| m.as_str().to_owned()),
        Err(_) => None,
    }
}

/// Relies on `regex::Regex::is_match` with the fixed pattern
/// `except\s[\w]+[\s]*[,][\s]*[\w+]:`.
#[verifier::external_body]
fn find_py2except(line: &str) -> (r: bool)
    ensures
        r == py2except_matches(line@),
{
    match regex::Regex::new(r"except\s[\w]+[\s]*[,][\s]*[\w+]:") {
        Ok(re) => re.is_match(line),
        Err(_) => false,
    }
}

/// One line after the common fixes: the first leading-zero match loses its
/// zeros everywhere in the line, and a line with the legacy `except`
/// syntax has every comma rewritten to ` as `.
pub open spec fn common_fix_line_spec(l: Seq<char>) -> Seq<char> {
    let l1 = match leading_zero_match(l) {
        Option::Some(m) => if m.len() > 0 {
            replace_all_spec(l, m, strip_zeros_spec(m))
        } else {
            l
        },
        Option::None => l,
    };
    if py2except_matches(l1) {
        replace_all_spec(l1, ","@, " as "@)
    } else {
        l1
    }
}

/// Applies the common fixes to one line.
fn common_fix_line(line: &str) -> (r: String)
    ensures
        r@ == common_fix_line_spec(line@),
{
    let l1: String = match find_leading_zero(line) {
        Some(m) => {
            if m.unicode_len() > 0 {
                let stripped = strip_zeros(m.as_str());
                replace_all(line, m.as_str(), stripped.as_str())
            } else {
                String::from_str(line)
            }
        },
        None => String::from_str(line),
    };
    if find_py2except(l1.as_str()) {
        proof {
            reveal_strlit(",");
        }
        let r = replace_all(l1.as_str(), ",", " as ");
        r
    } else {
        l1
    }
}

/// A source after one recovery attempt: the first attempt applies the
/// common fixes to every line; each later attempt blanks the line the
/// parse error pointed at.
pub open spec fn attempt_fix_spec(tried_common: bool, err_row: int, src: Seq<char>) -> Seq<char> {
    let lines = split_lines_spec(src);
    let fixed = if !tried_common {
        Seq::new(lines.len(), |i: int| common_fix_line_spec(lines[i]))
    } else {
        Seq::new(
            lines.len(),
            |i: int|
                if i == err_row - 1 {
                    Seq::<char>::empty()
                } else {
                    lines[i]
                },
        )
    };
    join_lines_spec(fixed)
}

/// Retries a failed parse with patched source text: first the common
/// syntax fixes, then blanking the offending line, up to a fixed number of
/// attempts.  The caller runs the parser and hands back the error row.
#[derive(Debug)]
pub struct ParseErrorFixer {
    pub attempts: u32,
    pub current_attempts: u32,
    pub tried_common_fixes: bool,
}

impl ParseErrorFixer {
    pub fn new(attempts: u32) -> (r: Self)
        ensures
            r.attempts == attempts,
            r.current_attempts == 0,
            !r.tried_common_fixes,
    {
        Self { attempts, current_attempts: 0, tried_common_fixes: false }
    }

    /// May another recovery be attempted?
    pub fn attempts_left(&self) -> (r: bool)
        ensures
            r == (self.current_attempts < self.attempts),
    {
        self.current_attempts < self.attempts
    }

    /// Produces the next patched source for a parse error at `err_row`
    /// (1-based).
    #[verifier::loop_isolation(false)]
    pub fn attempt_fix(&mut self, err_row: usize, source: &str) -> (r: String)
        requires
            err_row >= 1,
            old(self).current_attempts < u32::MAX,
        ensures
            final(self).attempts == old(self).attempts,
            final(self).current_attempts == old(self).current_attempts + 1,
            final(self).tried_common_fixes,
            r@ == attempt_fix_spec(old(self).tried_common_fixes, err_row as int, source@),
    {
        self.current_attempts = self.current_attempts + 1;
        let line: usize = err_row - 1;
        let lines = split_lines(source);
        let ghost lv = split_lines_spec(source@);
        let n: usize = lines.len();
        let mut fixed: Vec<String> = Vec::new();
        let tried = self.tried_common_fixes;
        let mut i: usize = 0;
        while i < n
            invariant
                n == lines@.len(),
                lines_view(lines@) == lv,
                tried == old(self).tried_common_fixes,
                0 <= i <= n,
                fixed@.len() == i,
                forall|k: int|
                    0 <= k < i ==> #[trigger] fixed@[k]@ == (if !tried {
                        common_fix_line_spec(lv[k])
                    } else {
                        if k == err_row - 1 {
                            Seq::<char>::empty()
                        } else {
                            lv[k]
                        }
                    }),
            decreases n - i,
        {
            if !tried {
                fixed.push(common_fix_line(lines[i].as_str()));
            } else {
                if i == line {
                    fixed.push(String::new());
                } else {
                    fixed.push(lines[i].clone());
                }
            }
            i = i + 1;
        }
        self.tried_common_fixes = true;
        let r = join_lines(&fixed);
        proof {
            if !tried {
                assert(lines_view(fixed@) =~= Seq::new(
                    lv.len(),
                    |k: int| common_fix_line_spec(lv[k]),
                ));
            } else {
                assert(lines_view(fixed@) =~= Seq::new(
                    lv.len(),
                    |k: int|
                        if k == err_row - 1 {
                            Seq::<char>::empty()
                        } else {
                            lv[k]
                        },
                ));
            }
        }
        r
    }
}

} // verus!
