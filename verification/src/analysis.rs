use vstd::prelude::*;

use crate::bulletin::{Bulletin, BulletinV, bulletin_view, bulletins_view};
use crate::density::{DensityEvent, Hotspot, find_hotspots, hotspot_ranges, max_in, sample_line};
use crate::rules::Functionality;
use crate::source::SourceFile;

verus! {

/// The combined density must exceed this many millionths for a sample to
/// belong to a hotspot.
pub const HOTSPOT_THRESHOLD: u64 = 10_000;

/// Everything known about one source after evaluation: the emitted
/// bulletins, the density contributions, the combined field's samples as
/// the caller computed them, and the visibility settings.
#[derive(Debug)]
pub struct SourceAnalysis {
    pub alerts_functions: usize,
    pub alerts_imports: usize,
    pub density_events: Vec<DensityEvent>,
    pub combined_density: Vec<u64>,
    pub bulletins: Vec<Bulletin>,
    pub source: SourceFile,
    pub message: Option<String>,
    pub show_all: bool,
    pub global_threshold: u64,
}

/// The alert counters never exceed the number of bulletins.
pub open spec fn analysis_wf(a: SourceAnalysis) -> bool {
    a.alerts_functions + a.alerts_imports <= a.bulletins@.len()
}

/// Is the bulletin shown for this hotspot?  Either everything is shown, or
/// the bulletin's row lies in the hotspot's line range and the hotspot's
/// peak reaches both the bulletin's own threshold and the global one.
pub open spec fn display_check_spec(b: BulletinV, h: Hotspot, show_all: bool, global: u64) -> bool {
    (sample_line(h.start_index as int) <= b.line as int && b.line as int <= sample_line(
        h.end_index as int,
    ) && h.peak >= b.threshold && h.peak >= global) || show_all
}

/// The bulletins of `bs` shown for hotspot `h`, in order.
pub open spec fn group_of(bs: Seq<BulletinV>, h: Hotspot, show_all: bool, global: u64) -> Seq<
    BulletinV,
>
    decreases bs.len(),
{
    if bs.len() == 0 {
        Seq::empty()
    } else {
        let pre = group_of(bs.subrange(0, bs.len() - 1), h, show_all, global);
        if display_check_spec(bs[bs.len() - 1], h, show_all, global) {
            pre.push(bs[bs.len() - 1])
        } else {
            pre
        }
    }
}

/// The non-empty bulletin groups, one per hotspot, in scan order.
pub open spec fn groups_spec(
    bs: Seq<BulletinV>,
    hs: Seq<Hotspot>,
    show_all: bool,
    global: u64,
) -> Seq<(Seq<BulletinV>, Hotspot)>
    decreases hs.len(),
{
    if hs.len() == 0 {
        Seq::empty()
    } else {
        let pre = groups_spec(bs, hs.subrange(0, hs.len() - 1), show_all, global);
        let g = group_of(bs, hs[hs.len() - 1], show_all, global);
        if g.len() > 0 {
            pre.push((g, hs[hs.len() - 1]))
        } else {
            pre
        }
    }
}

/// The visible bulletins: each hotspot contributes the bulletins it shows,
/// in hotspot order.
pub open spec fn visible_spec(bs: Seq<BulletinV>, hs: Seq<Hotspot>, show_all: bool, global: u64)
    -> Seq<BulletinV>
    decreases hs.len(),
{
    if hs.len() == 0 {
        Seq::empty()
    } else {
        visible_spec(bs, hs.subrange(0, hs.len() - 1), show_all, global) + group_of(
            bs,
            hs[hs.len() - 1],
            show_all,
            global,
        )
    }
}

/// A bulletin is visible exactly when some hotspot shows it.
pub open spec fn is_visible(b: BulletinV, hs: Seq<Hotspot>, show_all: bool, global: u64) -> bool {
    exists|i: int| 0 <= i < hs.len() && display_check_spec(b, hs[i], show_all, global)
}

/// Membership in a hotspot's group is membership in the list under the
/// display check.
proof fn lemma_group_membership(bs: Seq<BulletinV>, h: Hotspot, show_all: bool, global: u64)
    ensures
        forall|b: BulletinV| #[trigger] group_of(bs, h, show_all, global).contains(b) <==> (
        bs.contains(b) && display_check_spec(b, h, show_all, global)),
    decreases bs.len(),
{
    if bs.len() > 0 {
        let pre = bs.subrange(0, bs.len() - 1);
        lemma_group_membership(pre, h, show_all, global);
        let g = group_of(bs, h, show_all, global);
        let gp = group_of(pre, h, show_all, global);
        assert forall|b: BulletinV| #[trigger] g.contains(b) implies (bs.contains(b)
            && display_check_spec(b, h, show_all, global)) by {
            if display_check_spec(bs[bs.len() - 1], h, show_all, global) {
                assert(g == gp.push(bs[bs.len() - 1]));
                if b == bs[bs.len() - 1] {
                    assert(bs.contains(b)) by {
                        assert(bs[bs.len() - 1] == b);
                    }
                } else {
                    let i = choose|i: int| 0 <= i < g.len() && g[i] == b;
                    if i < gp.len() {
                        assert(gp.contains(b));
                        assert(pre.contains(b));
                        let j = choose|j: int| 0 <= j < pre.len() && pre[j] == b;
                        assert(bs[j] == b);
                    }
                }
            } else {
                assert(g == gp);
                assert(gp.contains(b));
                assert(pre.contains(b));
                let j = choose|j: int| 0 <= j < pre.len() && pre[j] == b;
                assert(bs[j] == b);
            }
        }
        assert forall|b: BulletinV| (bs.contains(b) && display_check_spec(
            b,
            h,
            show_all,
            global,
        )) implies #[trigger] g.contains(b) by {
            let i = choose|i: int| 0 <= i < bs.len() && bs[i] == b;
            if i < bs.len() - 1 {
                assert(pre[i] == b);
                assert(pre.contains(b));
                assert(gp.contains(b));
                let j = choose|j: int| 0 <= j < gp.len() && gp[j] == b;
                if display_check_spec(bs[bs.len() - 1], h, show_all, global) {
                    assert(g[j] == b);
                } else {
                    assert(g[j] == b);
                }
            } else {
                assert(bs[bs.len() - 1] == b);
                assert(g[g.len() - 1] == b);
            }
        }
    }
}

/// A bulletin stands in the visible list exactly when it is in the bulletin
/// list and some hotspot shows it.
pub proof fn lemma_visible_membership(
    bs: Seq<BulletinV>,
    hs: Seq<Hotspot>,
    show_all: bool,
    global: u64,
)
    ensures
        forall|b: BulletinV| #[trigger] visible_spec(bs, hs, show_all, global).contains(b) <==> (
        bs.contains(b) && is_visible(b, hs, show_all, global)),
    decreases hs.len(),
{
    if hs.len() == 0 {
    } else {
        let hpre = hs.subrange(0, hs.len() - 1);
        lemma_visible_membership(bs, hpre, show_all, global);
        lemma_group_membership(bs, hs[hs.len() - 1], show_all, global);
        let v = visible_spec(bs, hs, show_all, global);
        let vp = visible_spec(bs, hpre, show_all, global);
        let g = group_of(bs, hs[hs.len() - 1], show_all, global);
        assert forall|b: BulletinV| #[trigger] v.contains(b) implies (bs.contains(b) && is_visible(
            b,
            hs,
            show_all,
            global,
        )) by {
            let i = choose|i: int| 0 <= i < v.len() && v[i] == b;
            if i < vp.len() {
                assert(vp[i] == b);
                assert(vp.contains(b));
                let j = choose|j: int| 0 <= j < hpre.len() && display_check_spec(
                    b,
                    hpre[j],
                    show_all,
                    global,
                );
                assert(hs[j] == hpre[j]);
            } else {
                assert(g[i - vp.len()] == b);
                assert(g.contains(b));
                assert(display_check_spec(b, hs[hs.len() - 1], show_all, global));
            }
        }
        assert forall|b: BulletinV| (bs.contains(b) && is_visible(b, hs, show_all, global)) implies
            #[trigger] v.contains(b) by {
            let j = choose|j: int| 0 <= j < hs.len() && display_check_spec(
                b,
                hs[j],
                show_all,
                global,
            );
            if j < hs.len() - 1 {
                assert(hpre[j] == hs[j]);
                assert(is_visible(b, hpre, show_all, global));
                assert(vp.contains(b));
                let i = choose|i: int| 0 <= i < vp.len() && vp[i] == b;
                assert(v[i] == b);
            } else {
                assert(g.contains(b));
                let i = choose|i: int| 0 <= i < g.len() && g[i] == b;
                assert(v[vp.len() + i] == b);
            }
        }
    }
}

/// Raising the global threshold only hides bulletins: with `show_all`
/// off, every bulletin visible under the higher threshold is visible under
/// the lower one.
pub proof fn law_threshold_monotonicity(
    bs: Seq<BulletinV>,
    hs: Seq<Hotspot>,
    low: u64,
    high: u64,
)
    requires
        low <= high,
    ensures
        forall|b: BulletinV| #[trigger] visible_spec(bs, hs, false, high).contains(b)
            ==> visible_spec(bs, hs, false, low).contains(b),
{
    lemma_visible_membership(bs, hs, false, high);
    lemma_visible_membership(bs, hs, false, low);
    assert forall|b: BulletinV| #[trigger] visible_spec(bs, hs, false, high).contains(b) implies
        visible_spec(bs, hs, false, low).contains(b) by {
        let i = choose|i: int| 0 <= i < hs.len() && display_check_spec(b, hs[i], false, high);
        assert(display_check_spec(b, hs[i], false, low));
    }
}

/// Does this hotspot cover the bulletin, ignoring `show_all`?
pub open spec fn covers(b: BulletinV, h: Hotspot, global: u64) -> bool {
    sample_line(h.start_index as int) <= b.line as int && b.line as int <= sample_line(
        h.end_index as int,
    ) && h.peak >= b.threshold && h.peak >= global
}

/// Every visible bulletin is covered by exactly one hotspot, provided the
/// hotspots' line ranges do not touch.  (Two adjacent hotspots whose
/// half-line boundaries round to the same line can both cover a bulletin
/// on that shared line; such inputs are excluded here.)
pub proof fn law_hotspot_coverage(
    b: BulletinV,
    bs: Seq<BulletinV>,
    hs: Seq<Hotspot>,
    global: u64,
) -> (w: int)
    requires
        visible_spec(bs, hs, false, global).contains(b),
        forall|k: int, m: int|
            0 <= k < m < hs.len() ==> sample_line(#[trigger] hs[k].end_index as int) < sample_line(
                #[trigger] hs[m].start_index as int,
            ),
        forall|k: int, m: int|
            0 <= k < m < hs.len() ==> #[trigger] hs[k].start_index <= #[trigger] hs[m].start_index,
    ensures
        0 <= w < hs.len(),
        covers(b, hs[w], global),
        forall|j: int| 0 <= j < hs.len() && covers(b, #[trigger] hs[j], global) ==> j == w,
{
    lemma_visible_membership(bs, hs, false, global);
    let w = choose|i: int| 0 <= i < hs.len() && display_check_spec(b, hs[i], false, global);
    assert(covers(b, hs[w], global));
    assert forall|j: int| 0 <= j < hs.len() && covers(b, #[trigger] hs[j], global) implies j
        == w by {
        if j < w {
            assert(sample_line(hs[j].end_index as int) < sample_line(hs[w].start_index as int));
        } else if j > w {
            assert(sample_line(hs[w].end_index as int) < sample_line(hs[j].start_index as int));
        }
    }
    w
}

impl SourceAnalysis {
    /// A fresh analysis for one source: no bulletins, no density yet.
    pub fn new(source: SourceFile, show_all_override: bool, global_threshold: u64) -> (r: Self)
        ensures
            r.alerts_functions == 0,
            r.alerts_imports == 0,
            r.density_events@.len() == 0,
            r.combined_density@.len() == 0,
            r.bulletins@.len() == 0,
            r.source == source,
            r.message is None,
            r.show_all == show_all_override,
            r.global_threshold == global_threshold,
            analysis_wf(r),
    {
        SourceAnalysis {
            alerts_functions: 0,
            alerts_imports: 0,
            density_events: Vec::new(),
            combined_density: Vec::new(),
            bulletins: Vec::new(),
            source,
            message: None,
            show_all: show_all_override,
            global_threshold,
        }
    }

    /// Did the evaluation flag anything at all?  Kept exactly as observed:
    /// the alert counters are joined with a conjunction, masked by the
    /// bulletin check.
    pub fn found_anything(&self) -> (r: bool)
        ensures
            r == ((self.alerts_functions > 0 && self.alerts_imports > 0) || self.bulletins@.len()
                > 0),
    {
        (self.alerts_functions > 0 && self.alerts_imports > 0) || self.bulletins.len() > 0
    }

    /// The source under analysis.
    pub fn get_source(&self) -> (r: &SourceFile)
        ensures
            r == &self.source,
    {
        &self.source
    }

    /// The hotspots of the combined density field.
    pub fn get_hotspots(&self) -> (r: Vec<Hotspot>)
        ensures
            r@.len() == hotspot_ranges(self.combined_density@, HOTSPOT_THRESHOLD).len(),
            forall|k: int|
                0 <= k < r@.len() ==> {
                    let rng = #[trigger] hotspot_ranges(
                        self.combined_density@,
                        HOTSPOT_THRESHOLD,
                    )[k];
                    r@[k].start_index == rng.0 && r@[k].end_index == rng.1 && r@[k].peak as int
                        == max_in(self.combined_density@, rng.0, rng.1)
                },
    {
        find_hotspots(&self.combined_density, HOTSPOT_THRESHOLD)
    }

    /// Is the bulletin shown for this hotspot?
    pub fn bulletin_display_check(&self, bulletin: &Bulletin, hotspot: &Hotspot) -> (r: bool)
        ensures
            r == display_check_spec(
                bulletin_view(*bulletin),
                *hotspot,
                self.show_all,
                self.global_threshold,
            ),
    {
        (bulletin.line() >= hotspot.line_low() && bulletin.line() <= hotspot.line_high()
            && hotspot.peak() >= bulletin.threshold && hotspot.peak() >= self.global_threshold)
            || self.show_all
    }

    /// Every bulletin, before any filtering.
    pub fn get_all_bulletins(&self) -> (r: Vec<&Bulletin>)
        ensures
            r@.len() == self.bulletins@.len(),
            forall|i: int| 0 <= i < r@.len() ==> #[trigger] r@[i] == &self.bulletins@[i],
    {
        let mut out: Vec<&Bulletin> = Vec::new();
        let n: usize = self.bulletins.len();
        let mut i: usize = 0;
        while i < n
            invariant
                n == self.bulletins@.len(),
                0 <= i <= n,
                out@.len() == i,
                forall|k: int| 0 <= k < i ==> #[trigger] out@[k] == &self.bulletins@[k],
            decreases n - i,
        {
            out.push(&self.bulletins[i]);
            i = i + 1;
        }
        out
    }

    /// The bulletins some hotspot shows, grouped by hotspot; empty groups
    /// are skipped.
    #[verifier::loop_isolation(false)]
    pub fn bulletins_by_hotspot(&self) -> (r: Vec<(Vec<&Bulletin>, Hotspot)>)
        ensures
            groups_of_refs(r@) == groups_spec(
                bulletins_view(self.bulletins@),
                hotspot_ranges(self.combined_density@, HOTSPOT_THRESHOLD).map_values(
                    |rng: (int, int)| range_hotspot(self.combined_density@, rng),
                ),
                self.show_all,
                self.global_threshold,
            ),
    {
        let hotspots = self.get_hotspots();
        let ghost hsv = hotspot_ranges(self.combined_density@, HOTSPOT_THRESHOLD).map_values(
            |rng: (int, int)| range_hotspot(self.combined_density@, rng),
        );
        proof {
            assert(hotspots@ =~= hsv);
        }
        let mut groups: Vec<(Vec<&Bulletin>, Hotspot)> = Vec::new();
        let nh: usize = hotspots.len();
        let mut i: usize = 0;
        while i < nh
            invariant
                nh == hotspots@.len(),
                hotspots@ == hsv,
                0 <= i <= nh,
                groups_of_refs(groups@) == groups_spec(
                    bulletins_view(self.bulletins@),
                    hsv.subrange(0, i as int),
                    self.show_all,
                    self.global_threshold,
                ),
            decreases nh - i,
        {
            let hotspot = hotspots[i];
            let mut group: Vec<&Bulletin> = Vec::new();
            let nb: usize = self.bulletins.len();
            let mut j: usize = 0;
            while j < nb
                invariant
                    nb == self.bulletins@.len(),
                    0 <= j <= nb,
                    refs_view(group@) == group_of(
                        bulletins_view(self.bulletins@).subrange(0, j as int),
                        hotspot,
                        self.show_all,
                        self.global_threshold,
                    ),
                decreases nb - j,
            {
                if self.bulletin_display_check(&self.bulletins[j], &hotspot) {
                    group.push(&self.bulletins[j]);
                }
                proof {
                    let bv = bulletins_view(self.bulletins@);
                    assert(bv.subrange(0, j + 1).subrange(0, j as int) =~= bv.subrange(
                        0,
                        j as int,
                    ));
                    assert(bv.subrange(0, j + 1)[j as int] == bv[j as int]);
                    assert(refs_view(group@) =~= group_of(
                        bv.subrange(0, j + 1),
                        hotspot,
                        self.show_all,
                        self.global_threshold,
                    ));
                }
                j = j + 1;
            }
            proof {
                assert(bulletins_view(self.bulletins@).subrange(0, nb as int) =~= bulletins_view(
                    self.bulletins@,
                ));
            }
            if group.len() > 0 {
                groups.push((group, hotspot));
            }
            proof {
                assert(hsv.subrange(0, i + 1).subrange(0, i as int) =~= hsv.subrange(0, i as int));
                assert(hsv.subrange(0, i + 1)[i as int] == hsv[i as int]);
                assert(groups_of_refs(groups@) =~= groups_spec(
                    bulletins_view(self.bulletins@),
                    hsv.subrange(0, i + 1),
                    self.show_all,
                    self.global_threshold,
                ));
            }
            i = i + 1;
        }
        proof {
            assert(hsv.subrange(0, nh as int) =~= hsv);
        }
        groups
    }

    /// The bulletins shown by some hotspot, in hotspot order.
    #[verifier::loop_isolation(false)]
    pub fn get_visible_bulletins(&self) -> (r: Vec<&Bulletin>)
        ensures
            refs_view(r@) == visible_spec(
                bulletins_view(self.bulletins@),
                hotspot_ranges(self.combined_density@, HOTSPOT_THRESHOLD).map_values(
                    |rng: (int, int)| range_hotspot(self.combined_density@, rng),
                ),
                self.show_all,
                self.global_threshold,
            ),
    {
        let hotspots = self.get_hotspots();
        let ghost hsv = hotspot_ranges(self.combined_density@, HOTSPOT_THRESHOLD).map_values(
            |rng: (int, int)| range_hotspot(self.combined_density@, rng),
        );
        proof {
            assert(hotspots@ =~= hsv);
        }
        let mut out: Vec<&Bulletin> = Vec::new();
        let nh: usize = hotspots.len();
        let mut i: usize = 0;
        while i < nh
            invariant
                nh == hotspots@.len(),
                hotspots@ == hsv,
                0 <= i <= nh,
                refs_view(out@) == visible_spec(
                    bulletins_view(self.bulletins@),
                    hsv.subrange(0, i as int),
                    self.show_all,
                    self.global_threshold,
                ),
            decreases nh - i,
        {
            let hotspot = hotspots[i];
            let ghost out0 = refs_view(out@);
            let nb: usize = self.bulletins.len();
            let mut j: usize = 0;
            while j < nb
                invariant
                    nb == self.bulletins@.len(),
                    0 <= j <= nb,
                    refs_view(out@) == out0 + group_of(
                        bulletins_view(self.bulletins@).subrange(0, j as int),
                        hotspot,
                        self.show_all,
                        self.global_threshold,
                    ),
                decreases nb - j,
            {
                let ghost out_pre = out@;
                let checked = self.bulletin_display_check(&self.bulletins[j], &hotspot);
                if checked {
                    out.push(&self.bulletins[j]);
                }
                proof {
                    let bv = bulletins_view(self.bulletins@);
                    let gpre = group_of(
                        bv.subrange(0, j as int),
                        hotspot,
                        self.show_all,
                        self.global_threshold,
                    );
                    assert(bv.subrange(0, j + 1).subrange(0, j as int) =~= bv.subrange(
                        0,
                        j as int,
                    ));
                    assert(bv.subrange(0, j + 1)[j as int] == bv[j as int]);
                    if checked {
                        assert(refs_view(out@) =~= refs_view(out_pre).push(
                            bulletin_view(self.bulletins@[j as int]),
                        ));
                        assert(out0 + gpre.push(bv[j as int]) =~= (out0 + gpre).push(
                            bv[j as int],
                        ));
                        assert(group_of(
                            bv.subrange(0, j + 1),
                            hotspot,
                            self.show_all,
                            self.global_threshold,
                        ) == gpre.push(bv[j as int]));
                    }
                    assert(refs_view(out@) =~= out0 + group_of(
                        bv.subrange(0, j + 1),
                        hotspot,
                        self.show_all,
                        self.global_threshold,
                    ));
                }
                j = j + 1;
            }
            proof {
                assert(bulletins_view(self.bulletins@).subrange(0, nb as int) =~= bulletins_view(
                    self.bulletins@,
                ));
                assert(hsv.subrange(0, i + 1).subrange(0, i as int) =~= hsv.subrange(0, i as int));
                assert(hsv.subrange(0, i + 1)[i as int] == hsv[i as int]);
            }
            i = i + 1;
        }
        proof {
            assert(hsv.subrange(0, nh as int) =~= hsv);
        }
        out
    }

    /// Is any bulletin worth showing?  True when everything is shown, and
    /// otherwise when the visible list is non-empty.
    pub fn any_bulletins_over_threshold(&self) -> (r: bool)
        ensures
            r == if self.bulletins@.len() == 0 {
                false
            } else if self.show_all {
                true
            } else {
                visible_spec(
                    bulletins_view(self.bulletins@),
                    hotspot_ranges(self.combined_density@, HOTSPOT_THRESHOLD).map_values(
                        |rng: (int, int)| range_hotspot(self.combined_density@, rng),
                    ),
                    self.show_all,
                    self.global_threshold,
                ).len() > 0
            },
    {
        if self.bulletins.len() == 0 {
            return false;
        }
        if self.show_all {
            return true;
        }
        let visible = self.get_visible_bulletins();
        visible.len() > 0
    }

    /// The distinct categories among the given bulletins, in rank order.
    #[verifier::loop_isolation(false)]
    pub fn get_uniq_functionality(&self, bulletins: &Vec<&Bulletin>) -> (r: Vec<Functionality>)
        ensures
            forall|x: int, y: int|
                0 <= x < y < r@.len() ==> #[trigger] r@[x].rank_spec() < #[trigger] r@[
                    y
                ].rank_spec(),
            forall|f: Functionality| #[trigger] r@.contains(f) <==> exists|i: int|
                0 <= i < bulletins@.len() && #[trigger] bulletins@[i].functionality == Some(f),
    {
        let mut out: Vec<Functionality> = Vec::new();
        let n: usize = bulletins.len();
        let mut i: usize = 0;
        while i < n
            invariant
                n == bulletins@.len(),
                0 <= i <= n,
                forall|x: int, y: int|
                    0 <= x < y < out@.len() ==> #[trigger] out@[x].rank_spec() < #[trigger] out@[
                        y
                    ].rank_spec(),
                forall|f: Functionality| #[trigger] out@.contains(f) <==> exists|k: int|
                    0 <= k < i && #[trigger] bulletins@[k].functionality == Some(f),
            decreases n - i,
        {
            match bulletins[i].functionality {
                Some(f) => {
                    insert_functionality(&mut out, f);
                    proof {
                        assert forall|q: Functionality| #[trigger] out@.contains(q) implies exists|
                            k: int,
                        | 0 <= k < i + 1 && #[trigger] bulletins@[k].functionality == Some(q) by {
                            if q == f {
                                assert(bulletins@[i as int].functionality == Some(q));
                            } else {
                                let k = choose|k: int|
                                    0 <= k < i && #[trigger] bulletins@[k].functionality == Some(
                                        q,
                                    );
                                assert(bulletins@[k].functionality == Some(q));
                            }
                        }
                    }
                },
                None => {},
            }
            i = i + 1;
        }
        out
    }
}

/// The bulletin views behind a list of references.
pub open spec fn refs_view(s: Seq<&Bulletin>) -> Seq<BulletinV> {
    Seq::new(s.len(), |i: int| bulletin_view(*s[i]))
}

/// The spec-level shape of a grouped result.
pub open spec fn groups_of_refs(s: Seq<(Vec<&Bulletin>, Hotspot)>) -> Seq<(Seq<BulletinV>, Hotspot)> {
    Seq::new(s.len(), |i: int| (refs_view(s[i].0@), s[i].1))
}

/// The hotspot a closed scan range denotes.
pub open spec fn range_hotspot(y: Seq<u64>, rng: (int, int)) -> Hotspot {
    Hotspot {
        start_index: rng.0 as usize,
        end_index: rng.1 as usize,
        peak: max_in(y, rng.0, rng.1) as u64,
    }
}

/// Inserts a category into a rank-sorted list if it is not yet there.
#[verifier::loop_isolation(false)]
fn insert_functionality(out: &mut Vec<Functionality>, f: Functionality)
    requires
        forall|x: int, y: int|
            0 <= x < y < old(out)@.len() ==> #[trigger] old(out)@[x].rank_spec() < #[trigger] old(
                out,
            )@[y].rank_spec(),
    ensures
        forall|x: int, y: int|
            0 <= x < y < final(out)@.len() ==> #[trigger] final(out)@[x].rank_spec()
                < #[trigger] final(out)@[y].rank_spec(),
        forall|q: Functionality| #[trigger] final(out)@.contains(q) <==> (old(out)@.contains(q) || q
            == f),
{
    let n: usize = out.len();
    let mut i: usize = 0;
    while i < n
        invariant
            n == out@.len(),
            out@ == old(out)@,
            0 <= i <= n,
            forall|k: int| 0 <= k < i ==> #[trigger] out@[k].rank_spec() < f.rank_spec(),
        decreases n - i,
    {
        let r = out[i].rank();
        let fr = f.rank();
        if r == fr {
            proof {
                assert(rank_injective(out@[i as int], f));
                assert(out@.contains(f)) by {
                    assert(out@[i as int] == f);
                }
            }
            return ;
        }
        if r > fr {
            let ghost pre = out@;
            out.insert(i, f);
            proof {
                assert forall|x: int, y: int| 0 <= x < y < out@.len() implies #[trigger] out@[
                    x
                ].rank_spec() < #[trigger] out@[y].rank_spec() by {
                    if y < i {
                        assert(out@[x] == pre[x] && out@[y] == pre[y]);
                    } else if y == i {
                        assert(out@[y] == f && out@[x] == pre[x]);
                    } else if x == i {
                        assert(out@[x] == f && out@[y] == pre[y - 1]);
                        assert(pre[i as int].rank_spec() <= pre[y - 1].rank_spec());
                    } else if x < i {
                        assert(out@[x] == pre[x] && out@[y] == pre[y - 1]);
                        assert(pre[x].rank_spec() < f.rank_spec());
                        assert(f.rank_spec() < pre[i as int].rank_spec());
                        assert(pre[i as int].rank_spec() <= pre[y - 1].rank_spec());
                    } else {
                        assert(out@[x] == pre[x - 1] && out@[y] == pre[y - 1]);
                    }
                }
                assert forall|q: Functionality| #[trigger] out@.contains(q) implies (pre.contains(
                    q,
                ) || q == f) by {
                    let k = choose|k: int| 0 <= k < out@.len() && out@[k] == q;
                    if k < i {
                        assert(pre[k] == q);
                    } else if k > i {
                        assert(pre[k - 1] == q);
                    }
                }
                assert forall|q: Functionality| (pre.contains(q) || q == f) implies #[trigger]
                    out@.contains(q) by {
                    if q == f {
                        assert(out@[i as int] == q);
                    } else {
                        let k = choose|k: int| 0 <= k < pre.len() && pre[k] == q;
                        if k < i {
                            assert(out@[k] == q);
                        } else {
                            assert(out@[k + 1] == q);
                        }
                    }
                }
            }
            return ;
        }
        i = i + 1;
    }
    let ghost pre = out@;
    out.push(f);
    proof {
        assert forall|x: int, y: int| 0 <= x < y < out@.len() implies #[trigger] out@[
            x
        ].rank_spec() < #[trigger] out@[y].rank_spec() by {
            if y == out@.len() - 1 {
                assert(out@[y] == f && out@[x] == pre[x]);
            } else {
                assert(out@[x] == pre[x] && out@[y] == pre[y]);
            }
        }
        assert forall|q: Functionality| #[trigger] out@.contains(q) implies (pre.contains(q) || q
            == f) by {
            let k = choose|k: int| 0 <= k < out@.len() && out@[k] == q;
            if k < out@.len() - 1 {
                assert(pre[k] == q);
            }
        }
        assert forall|q: Functionality| (pre.contains(q) || q == f) implies #[trigger]
            out@.contains(q) by {
            if q == f {
                assert(out@[out@.len() - 1] == q);
            } else {
                let k = choose|k: int| 0 <= k < pre.len() && pre[k] == q;
                assert(out@[k] == q);
            }
        }
    }
}

/// Categories with the same rank are the same category.
pub open spec fn rank_injective(a: Functionality, b: Functionality) -> bool {
    a.rank_spec() == b.rank_spec() ==> a == b
}

} // verus!
