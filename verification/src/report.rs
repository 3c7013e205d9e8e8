use vstd::prelude::*;

use crate::analysis::{display_check_spec, group_of, groups_spec, HOTSPOT_THRESHOLD,
    SourceAnalysis, groups_of_refs, range_hotspot, refs_view};
use crate::bulletin::{Bulletin, BulletinV, bulletin_view, bulletins_view, reason_message_spec,
    reason_view};
use crate::density::{hotspot_ranges, Hotspot, sample_line};
use crate::source::SourceFile;
use crate::strutil::{join_lines_spec, lines_view, split_lines, split_lines_spec};

verus! {

/// The decimal digit characters.
pub open spec fn digit_char(d: int) -> char {
    if d == 0 {
        '0'
    } else if d == 1 {
        '1'
    } else if d == 2 {
        '2'
    } else if d == 3 {
        '3'
    } else if d == 4 {
        '4'
    } else if d == 5 {
        '5'
    } else if d == 6 {
        '6'
    } else if d == 7 {
        '7'
    } else if d == 8 {
        '8'
    } else {
        '9'
    }
}

/// The decimal rendering of a non-negative number.
pub open spec fn dec_spec(n: int) -> Seq<char>
    decreases n,
{
    if n < 10 {
        seq![digit_char(n)]
    } else {
        dec_spec(n / 10).push(digit_char(n % 10))
    }
}

fn digit_str(d: usize) -> (r: &'static str)
    requires
        d < 10,
    ensures
        r@ == seq![digit_char(d as int)],
{
    proof {
        reveal_strlit("0");
        reveal_strlit("1");
        reveal_strlit("2");
        reveal_strlit("3");
        reveal_strlit("4");
        reveal_strlit("5");
        reveal_strlit("6");
        reveal_strlit("7");
        reveal_strlit("8");
        reveal_strlit("9");
    }
    if d == 0 {
        "0"
    } else if d == 1 {
        "1"
    } else if d == 2 {
        "2"
    } else if d == 3 {
        "3"
    } else if d == 4 {
        "4"
    } else if d == 5 {
        "5"
    } else if d == 6 {
        "6"
    } else if d == 7 {
        "7"
    } else if d == 8 {
        "8"
    } else {
        "9"
    }
}

/// Renders a number in decimal.
pub fn usize_to_string(n: usize) -> (r: String)
    ensures
        r@ == dec_spec(n as int),
    decreases n,
{
    if n < 10 {
        String::from_str(digit_str(n))
    } else {
        let mut s = usize_to_string(n / 10);
        s.append(digit_str(n % 10));
        s
    }
}

/// A run of spaces.
pub open spec fn spaces_spec(n: int) -> Seq<char>
    decreases n,
{
    if n <= 0 {
        Seq::empty()
    } else {
        spaces_spec(n - 1).push(' ')
    }
}

/// Builds a run of spaces.
#[verifier::loop_isolation(false)]
pub fn spaces(n: usize) -> (r: String)
    ensures
        r@ == spaces_spec(n as int),
{
    proof {
        reveal_strlit(" ");
    }
    let mut out = String::new();
    let mut i: usize = 0;
    while i < n
        invariant
            0 <= i <= n,
            out@ == spaces_spec(i as int),
        decreases n - i,
    {
        out.append(" ");
        i = i + 1;
    }
    out
}

/// A line number right-aligned to at least three columns.
pub open spec fn line_label_spec(line: int) -> Seq<char> {
    if dec_spec(line).len() >= 3 {
        dec_spec(line)
    } else {
        spaces_spec(3 - dec_spec(line).len()) + dec_spec(line)
    }
}

fn line_label(line: usize) -> (r: String)
    ensures
        r@ == line_label_spec(line as int),
{
    let d = usize_to_string(line);
    let dl: usize = d.as_str().unicode_len();
    if dl >= 3 {
        d
    } else {
        let mut s = spaces(3 - dl);
        s.append(d.as_str());
        s
    }
}

/// One rendered code line: the aligned line number, a bar, and the text.
pub open spec fn code_line_spec(line: int, text: Seq<char>) -> Seq<char> {
    line_label_spec(line) + "| "@ + text
}

/// The caret line under a bulletin: padding past the line-number gutter and
/// the bulletin's column, a caret, and the reason sentence.  The padding is
/// capped at the machine limit.
pub open spec fn caret_line_spec(b: BulletinV) -> Seq<char> {
    let lw = if dec_spec(b.line as int).len() < 3 {
        4int
    } else {
        dec_spec(b.line as int).len() + 1int
    };
    let pad = if b.col as int <= usize::MAX - 22 && dec_spec(b.line as int).len() <= 19 {
        lw + b.col as int + 1
    } else {
        b.col as int
    };
    spaces_spec(pad) + "^"@ + reason_message_spec(b.reason, b.identifier)
}

fn caret_line(b: &Bulletin) -> (r: String)
    ensures
        r@ == caret_line_spec(bulletin_view(*b)),
{
    let d = usize_to_string(b.line());
    let dl: usize = d.as_str().unicode_len();
    let col = b.col();
    let pad_n: usize = if col <= usize::MAX - 22 && dl <= 19 {
        let lw: usize = if dl < 3 {
            4
        } else {
            dl + 1
        };
        lw + col + 1
    } else {
        col
    };
    let mut s = spaces(pad_n);
    s.append("^");
    let reason = b.reason();
    s.append(reason.as_str());
    proof {
        reveal_strlit("^");
        assert("^"@ =~= seq!['^']);
        assert(s@ =~= caret_line_spec(bulletin_view(*b)));
    }
    s
}

/// The caret lines of a group's bulletins sitting on one line, in group
/// order.
pub open spec fn carets_of(group: Seq<BulletinV>, line: int) -> Seq<Seq<char>>
    decreases group.len(),
{
    if group.len() == 0 {
        Seq::empty()
    } else {
        let pre = carets_of(group.subrange(0, group.len() - 1), line);
        if group[group.len() - 1].line as int == line {
            pre.push(caret_line_spec(group[group.len() - 1]))
        } else {
            pre
        }
    }
}

/// The rendered lines of one group over the 0-based line range `[lo, hi)`:
/// each code line followed by the carets of the bulletins on it.
pub open spec fn group_out_spec(group: Seq<BulletinV>, lines: Seq<Seq<char>>, lo: int, hi: int)
    -> Seq<Seq<char>>
    decreases hi - lo,
{
    if hi <= lo || hi > lines.len() || lo < 0 {
        Seq::empty()
    } else {
        group_out_spec(group, lines, lo, hi - 1) + seq![code_line_spec(hi, lines[hi - 1])]
            + carets_of(group, hi)
    }
}

/// Does any bulletin of the group sit on a printed line of the range?
pub open spec fn group_display_spec(group: Seq<BulletinV>, lo: int, hi: int) -> bool {
    exists|i: int| 0 <= i < group.len() && lo + 1 <= #[trigger] group[i].line as int <= hi
}

/// The rendered groups, joined, with the end line of the last displayed
/// group carried along: a `...` separator stands only before a displayed
/// group that does not directly continue the lines of the previous one.
pub open spec fn render_groups_spec(
    groups: Seq<(Seq<BulletinV>, Hotspot)>,
    lines: Seq<Seq<char>>,
) -> (Seq<char>, Option<int>)
    decreases groups.len(),
{
    if groups.len() == 0 {
        (Seq::empty(), Option::None)
    } else {
        let (pre, prev_hi) = render_groups_spec(groups.subrange(0, groups.len() - 1), lines);
        let g = groups[groups.len() - 1];
        let lo = if sample_line(g.1.start_index as int) <= lines.len() {
            sample_line(g.1.start_index as int)
        } else {
            lines.len() as int
        };
        let hi = if sample_line(g.1.end_index as int) <= lines.len() {
            sample_line(g.1.end_index as int)
        } else {
            lines.len() as int
        };
        if group_display_spec(g.0, lo, hi) {
            (
                pre + (match prev_hi {
                    Option::Some(h) => if lo > h {
                        "...\n"@
                    } else {
                        Seq::empty()
                    },
                    Option::None => Seq::empty(),
                }) + join_lines_spec(group_out_spec(g.0, lines, lo, hi)),
                Option::Some(hi),
            )
        } else {
            (pre, prev_hi)
        }
    }
}

/// The whole report for one analysis: the source path header and the
/// rendered groups.
pub open spec fn report_spec(a: SourceAnalysis) -> Seq<char> {
    "Location: "@ + a.source.source_path@ + "\n"@ + render_groups_spec(
        groups_spec(
            bulletins_view(a.bulletins@),
            hotspot_ranges(a.combined_density@, HOTSPOT_THRESHOLD).map_values(
                |rng: (int, int)| range_hotspot(a.combined_density@, rng),
            ),
            a.show_all,
            a.global_threshold,
        ),
        split_lines_spec(a.source.source@),
    ).0
}

/// Should a report be produced at all?  Everything is reported when all
/// bulletins are shown; otherwise only when something was found and some
/// bulletin passes the thresholds.
pub open spec fn report_emitted_spec(a: SourceAnalysis) -> bool {
    a.show_all || (((a.alerts_functions > 0 && a.alerts_imports > 0) || a.bulletins@.len() > 0) && (
    if a.bulletins@.len() == 0 {
        false
    } else if a.show_all {
        true
    } else {
        crate::analysis::visible_spec(
            bulletins_view(a.bulletins@),
            hotspot_ranges(a.combined_density@, HOTSPOT_THRESHOLD).map_values(
                |rng: (int, int)| range_hotspot(a.combined_density@, rng),
            ),
            a.show_all,
            a.global_threshold,
        ).len() > 0
    }))
}

/// What `get_code` hands back: the covered line range, clipped to the
/// text, each line with its 0-based index.
pub open spec fn code_slice_post(h: Hotspot, src: SourceFile, r: Seq<(usize, String)>) -> bool {
    let lines = split_lines_spec(src.source@);
    let lo = if sample_line(h.start_index as int) <= lines.len() {
        sample_line(h.start_index as int)
    } else {
        lines.len() as int
    };
    let hi = if sample_line(h.end_index as int) <= lines.len() {
        sample_line(h.end_index as int)
    } else {
        lines.len() as int
    };
    &&& (hi >= lo ==> r.len() == hi - lo)
    &&& (hi < lo ==> r.len() == 0)
    &&& forall|k: int| 0 <= k < r.len() ==> #[trigger] r[k].0 == lo + k && r[k].1@ == lines[lo + k]
}

impl Hotspot {
    /// The lines of the source the hotspot covers, each with its 0-based
    /// index; a range reaching past the end of the text is cut off there.
    #[verifier::loop_isolation(false)]
    #[verifier::rlimit(50)]
    pub fn get_code(&self, source: &SourceFile) -> (r: Vec<(usize, String)>)
        ensures
            code_slice_post(*self, *source, r@),
    {
        let lines = split_lines(source.get_source().as_str());
        let n: usize = lines.len();
        proof {
            assert(lines_view(lines@).len() == lines@.len());
        }
        let low_raw = self.line_low();
        let high_raw = self.line_high();
        let lo: usize = if low_raw <= n {
            low_raw
        } else {
            n
        };
        let hi: usize = if high_raw <= n {
            high_raw
        } else {
            n
        };
        let mut out: Vec<(usize, String)> = Vec::new();
        let mut i: usize = lo;
        while i < hi
            invariant
                lo <= i <= if hi >= lo {
                    hi
                } else {
                    lo
                },
                hi <= n,
                n == lines@.len(),
                out@.len() == i - lo,
                forall|k: int|
                    0 <= k < out@.len() ==> #[trigger] out@[k].0 == lo + k && out@[k].1@
                        == lines_view(lines@)[lo + k],
            decreases hi - i,
        {
            out.push((i, lines[i].clone()));
            proof {
                assert(out@[out@.len() - 1].0 == lo + (out@.len() - 1));
                assert(out@[out@.len() - 1].1@ == lines@[i as int]@);
                assert(lines_view(lines@)[i as int] == lines@[i as int]@);
            }
            i = i + 1;
        }
        proof {
            assert(lines_view(lines@) == split_lines_spec(source.source@));
            assert(split_lines_spec(source.source@).len() == n as int);
            assert(lo as int == (if sample_line(self.start_index as int) <= split_lines_spec(
                source.source@,
            ).len() {
                sample_line(self.start_index as int)
            } else {
                split_lines_spec(source.source@).len() as int
            }));
            assert(hi as int == (if sample_line(self.end_index as int) <= split_lines_spec(
                source.source@,
            ).len() {
                sample_line(self.end_index as int)
            } else {
                split_lines_spec(source.source@).len() as int
            }));
            assert(hi >= lo ==> out@.len() == hi - lo);
            assert(hi < lo ==> out@.len() == 0);
            assert forall|k: int| 0 <= k < out@.len() implies #[trigger] out@[k].0 == lo + k
                && out@[k].1@ == split_lines_spec(source.source@)[lo + k] by {
                assert(out@[k].0 == lo + k && out@[k].1@ == lines_view(lines@)[lo + k]);
            }
            assert(code_slice_post(*self, *source, out@));
        }
        out
    }
}

/// Renders the human-readable report for one analysis: the path header and,
/// for each hotspot with a bulletin on a printed line, the hotspot's code
/// lines with caret-marked reasons; non-adjacent listings are separated by
/// `...`.
#[verifier::loop_isolation(false)]
#[verifier::rlimit(100)]
pub fn create_evaluation_report(analysis: &SourceAnalysis) -> (r: Option<String>)
    ensures
        r is Some <==> report_emitted_spec(*analysis),
        (match r {
            Option::Some(m) => m@ == report_spec(*analysis),
            Option::None => true,
        }),
{
    let emit: bool = if analysis.show_all {
        true
    } else {
        analysis.found_anything() && analysis.any_bulletins_over_threshold()
    };
    if !emit {
        return None;
    }
    let lines = split_lines(analysis.source.source.as_str());
    let ghost lv = split_lines_spec(analysis.source.source@);
    let n: usize = lines.len();
    proof {
        assert(lines_view(lines@).len() == lines@.len());
    }
    let groups = analysis.bulletins_by_hotspot();
    let ghost gv = groups_spec(
        bulletins_view(analysis.bulletins@),
        hotspot_ranges(analysis.combined_density@, HOTSPOT_THRESHOLD).map_values(
            |rng: (int, int)| range_hotspot(analysis.combined_density@, rng),
        ),
        analysis.show_all,
        analysis.global_threshold,
    );
    proof {
        assert(groups_of_refs(groups@) == gv);
    }
    let mut message = String::from_str("Location: ");
    message.append(analysis.source.get_path());
    message.append("\n");
    let ghost header = message@;
    let mut prev_hi: Option<usize> = None;
    let ng: usize = groups.len();
    let mut gi: usize = 0;
    while gi < ng
        invariant
            ng == groups@.len(),
            0 <= gi <= ng,
            n == lines@.len(),
            lines_view(lines@) == lv,
            groups_of_refs(groups@) == gv,
            message@ == header + render_groups_spec(gv.subrange(0, gi as int), lv).0,
            (match prev_hi {
                Option::Some(h) => Option::Some(h as int),
                Option::None => Option::<int>::None,
            }) == render_groups_spec(gv.subrange(0, gi as int), lv).1,
            (match prev_hi {
                Option::Some(h) => h <= n,
                Option::None => true,
            }),
        decreases ng - gi,
    {
        let group = &groups[gi].0;
        let hotspot = groups[gi].1;
        let ghost gvv = refs_view(group@);
        proof {
            assert(gv[gi as int] == (gvv, hotspot));
        }
        let low_raw = hotspot.line_low();
        let high_raw = hotspot.line_high();
        let lo: usize = if low_raw <= n {
            low_raw
        } else {
            n
        };
        let hi: usize = if high_raw <= n {
            high_raw
        } else {
            n
        };
        let ghost lo_s = (if sample_line(hotspot.start_index as int) <= lv.len() {
            sample_line(hotspot.start_index as int)
        } else {
            lv.len() as int
        });
        let ghost hi_s = (if sample_line(hotspot.end_index as int) <= lv.len() {
            sample_line(hotspot.end_index as int)
        } else {
            lv.len() as int
        });
        proof {
            assert(lo as int == lo_s);
            assert(hi as int == hi_s);
        }
        // Render the group's lines and carets, tracking whether any caret
        // was placed.
        let mut output: Vec<String> = Vec::new();
        let mut display: bool = false;
        let mut li: usize = lo;
        while li < hi
            invariant
                lo <= li <= if hi >= lo {
                    hi
                } else {
                    lo
                },
                hi <= n,
                n == lines@.len(),
                lines_view(lines@) == lv,
                lines_view(output@) == group_out_spec(gvv, lv, lo as int, li as int),
                display == group_display_spec(gvv, lo as int, li as int),
            decreases hi - li,
        {
            let line_no: usize = li + 1;
            let mut code = line_label(line_no);
            code.append("| ");
            code.append(lines[li].as_str());
            proof {
                assert(code@ == code_line_spec(line_no as int, lv[li as int]));
            }
            let ghost out_pre = lines_view(output@);
            output.push(code);
            let nb: usize = group.len();
            let mut bi: usize = 0;
            while bi < nb
                invariant
                    nb == group@.len(),
                    refs_view(group@) == gvv,
                    0 <= bi <= nb,
                    li < hi <= n,
                    n == lines@.len(),
                    lines_view(lines@) == lv,
                    lines_view(output@) == out_pre + seq![
                        code_line_spec(li + 1 as int, lv[li as int]),
                    ] + carets_of(gvv.subrange(0, bi as int), li + 1 as int),
                    display == (group_display_spec(gvv, lo as int, li as int) || exists|k: int|
                        0 <= k < bi && #[trigger] gvv[k].line as int == li + 1),
                decreases nb - bi,
            {
                let ghost cpre = carets_of(gvv.subrange(0, bi as int), li + 1 as int);
                let ghost before = lines_view(output@);
                let b: &Bulletin = group[bi];
                if b.line() == li + 1 {
                    let caret = caret_line(b);
                    let ghost cview = caret@;
                    output.push(caret);
                    display = true;
                    proof {
                        assert(gvv[bi as int].line as int == li + 1);
                        assert(gvv[bi as int] == bulletin_view(*group@[bi as int]));
                        assert(cview == caret_line_spec(gvv[bi as int]));
                        assert(lines_view(output@) =~= before.push(cview));
                    }
                }
                proof {
                    let c1 = carets_of(gvv.subrange(0, bi + 1), li + 1 as int);
                    assert(gvv.subrange(0, bi + 1).subrange(0, bi as int) =~= gvv.subrange(
                        0,
                        bi as int,
                    ));
                    assert(gvv.subrange(0, bi + 1)[bi as int] == gvv[bi as int]);
                    if gvv[bi as int].line as int == li + 1 {
                        assert(c1 == cpre.push(caret_line_spec(gvv[bi as int])));
                        assert((out_pre + seq![code_line_spec(li + 1 as int, lv[li as int])]
                            + cpre).push(caret_line_spec(gvv[bi as int])) =~= out_pre + seq![
                            code_line_spec(li + 1 as int, lv[li as int]),
                        ] + c1);
                        assert(lines_view(output@) =~= out_pre + seq![
                            code_line_spec(li + 1 as int, lv[li as int]),
                        ] + c1);
                    } else {
                        assert(c1 == cpre);
                    }
                }
                bi = bi + 1;
            }
            proof {
                assert(gvv.subrange(0, nb as int) =~= gvv);
                assert(group_out_spec(gvv, lv, lo as int, li + 1 as int) == group_out_spec(
                    gvv,
                    lv,
                    lo as int,
                    li as int,
                ) + seq![code_line_spec(li + 1 as int, lv[li as int])] + carets_of(
                    gvv,
                    li + 1 as int,
                ));
                assert(lines_view(output@) =~= group_out_spec(gvv, lv, lo as int, li + 1 as int));
                assert(display == group_display_spec(gvv, lo as int, li + 1 as int)) by {
                    if display {
                        if !group_display_spec(gvv, lo as int, li as int) {
                            let k = choose|k: int|
                                0 <= k < gvv.len() && #[trigger] gvv[k].line as int == li + 1;
                            assert(lo + 1 <= gvv[k].line as int <= li + 1);
                        }
                    } else {
                        if group_display_spec(gvv, lo as int, li + 1 as int) {
                            let k = choose|k: int|
                                0 <= k < gvv.len() && lo + 1 <= #[trigger] gvv[k].line as int <= li
                                    + 1;
                            if gvv[k].line as int <= li {
                                assert(group_display_spec(gvv, lo as int, li as int));
                            } else {
                                assert(gvv[k].line as int == li + 1);
                            }
                        }
                    }
                }
            }
            li = li + 1;
        }
        if display {
            match prev_hi {
                Some(h) => {
                    if lo > h {
                        message.append("...\n");
                    }
                },
                None => {},
            }
            let joined = crate::strutil::join_with(&output, "\n");
            message.append(joined.as_str());
            prev_hi = Some(hi);
            proof {
                assert("\n"@ =~= seq!['\n']) by {
                    reveal_strlit("\n");
                }
                crate::strutil::lemma_join_with_newline(lines_view(output@));
                assert(joined@ == join_lines_spec(lines_view(output@)));
            }
        }
        proof {
            assert(gv.subrange(0, gi + 1).subrange(0, gi as int) =~= gv.subrange(0, gi as int));
            assert(gv.subrange(0, gi + 1)[gi as int] == gv[gi as int]);
            assert(message@ =~= header + render_groups_spec(gv.subrange(0, gi + 1), lv).0);
            assert((match prev_hi {
                Option::Some(h) => Option::Some(h as int),
                Option::None => Option::<int>::None,
            }) == render_groups_spec(gv.subrange(0, gi + 1), lv).1);
        }
        gi = gi + 1;
    }
    proof {
        assert(gv.subrange(0, ng as int) =~= gv);
    }
    Some(message)
}

} // verus!
