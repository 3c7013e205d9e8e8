use vstd::prelude::*;

verus! {

/// The four independent signal channels of a source's density field.
#[derive(Debug, Clone, Copy, PartialEq, Eq, Structural, Hash)]
pub enum FieldType {
    Functions,
    Imports,
    Behavior,
    Strings,
}

/// One contribution to a density channel: the row it centres on and the
/// per-event weight pair, in millionths.
#[derive(Debug, Clone, Copy, PartialEq, Eq, Structural)]
pub struct DensityEvent {
    pub field: FieldType,
    pub row: usize,
    pub multiplier: u64,
    pub tfidf_weight: u64,
}

/// The sample spacing of a density field is half a line, so sample `i`
/// sits at line `i / 2` rounded half up.
pub open spec fn sample_line(i: int) -> int {
    if i % 2 == 0 {
        i / 2
    } else {
        i / 2 + 1
    }
}

/// A maximal run of samples above the hotspot threshold: the sample index
/// where the run entered, the first sample at or below the threshold (or
/// the last sample when the scan ended inside the run), and the largest
/// sample value over that inclusive range, in millionths.
#[derive(Debug, Clone, Copy, PartialEq, Eq, Structural)]
pub struct Hotspot {
    pub start_index: usize,
    pub end_index: usize,
    pub peak: u64,
}

impl Hotspot {
    pub fn new() -> (r: Self)
        ensures
            r.start_index == 0,
            r.end_index == 0,
            r.peak == 0,
    {
        Self { start_index: 0, end_index: 0, peak: 0 }
    }

    /// The peak sample of the hotspot, in millionths.
    pub fn peak(&self) -> (r: u64)
        ensures
            r == self.peak,
    {
        self.peak
    }

    /// The first line the hotspot covers.
    pub fn line_low(&self) -> (r: usize)
        ensures
            r == sample_line(self.start_index as int),
    {
        self.start_index / 2 + self.start_index % 2
    }

    /// The last line the hotspot covers.
    pub fn line_high(&self) -> (r: usize)
        ensures
            r == sample_line(self.end_index as int),
    {
        self.end_index / 2 + self.end_index % 2
    }
}

/// The largest sample over the inclusive index range `[lo, hi]`.
pub open spec fn max_in(y: Seq<u64>, lo: int, hi: int) -> int
    decreases hi - lo,
{
    if lo > hi || hi < 0 || lo < 0 || hi >= y.len() {
        0
    } else if lo == hi {
        y[lo] as int
    } else if y[lo] as int >= max_in(y, lo + 1, hi) {
        y[lo] as int
    } else {
        max_in(y, lo + 1, hi)
    }
}

/// The open ranges of the left-to-right hotspot scan over the first `n`
/// samples: the closed runs found so far, and the start of a still-open
/// run, if the scan stands inside one.
pub open spec fn scan_runs(y: Seq<u64>, threshold: u64, n: int) -> (Seq<(int, int)>, Option<int>)
    decreases n,
{
    if n <= 0 {
        (Seq::empty(), Option::None)
    } else {
        let (sp, open) = scan_runs(y, threshold, n - 1);
        match open {
            Option::None => if y[n - 1] > threshold {
                (sp, Option::Some(n - 1))
            } else {
                (sp, Option::None)
            },
            Option::Some(s) => if y[n - 1] <= threshold {
                (sp.push((s, n - 1)), Option::None)
            } else {
                (sp, Option::Some(s))
            },
        }
    }
}

/// The closed hotspot ranges of a sample sequence: every run is closed at
/// the first sample back at or below the threshold, and a run still open
/// at the end closes at the last sample.
pub open spec fn hotspot_ranges(y: Seq<u64>, threshold: u64) -> Seq<(int, int)> {
    let (sp, open) = scan_runs(y, threshold, y.len() as int);
    match open {
        Option::Some(s) => if y.len() > 0 {
            sp.push((s, y.len() - 1))
        } else {
            sp
        },
        Option::None => sp,
    }
}

/// Every scanned run lies inside the samples, in scan order.
pub proof fn lemma_scan_runs_ordered(y: Seq<u64>, threshold: u64, n: int)
    requires
        n <= y.len(),
    ensures
        (forall|k: int|
            0 <= k < scan_runs(y, threshold, n).0.len() ==> {
                let r = #[trigger] scan_runs(y, threshold, n).0[k];
                0 <= r.0 <= r.1 < n
            }),
        (forall|k: int, m: int|
            0 <= k < m < scan_runs(y, threshold, n).0.len() ==> #[trigger] scan_runs(
                y,
                threshold,
                n,
            ).0[k].1 < #[trigger] scan_runs(y, threshold, n).0[m].0),
        (match scan_runs(y, threshold, n).1 {
            Option::Some(s) => 0 <= s < n && (forall|k: int|
                0 <= k < scan_runs(y, threshold, n).0.len() ==> #[trigger] scan_runs(
                    y,
                    threshold,
                    n,
                ).0[k].1 < s),
            Option::None => true,
        }),
    decreases n,
{
    if n > 0 {
        lemma_scan_runs_ordered(y, threshold, n - 1);
    }
}

/// Hotspot ranges lie inside the samples, in scan order, without overlap.
pub proof fn lemma_hotspot_ranges_ordered(y: Seq<u64>, threshold: u64)
    ensures
        (forall|k: int|
            0 <= k < hotspot_ranges(y, threshold).len() ==> {
                let r = #[trigger] hotspot_ranges(y, threshold)[k];
                0 <= r.0 <= r.1 < y.len()
            }),
        (forall|k: int, m: int|
            0 <= k < m < hotspot_ranges(y, threshold).len() ==> #[trigger] hotspot_ranges(
                y,
                threshold,
            )[k].1 < #[trigger] hotspot_ranges(y, threshold)[m].0),
{
    lemma_scan_runs_ordered(y, threshold, y.len() as int);
}

/// The largest sample over `[lo, hi]`, as a value.
#[verifier::loop_isolation(false)]
pub fn get_max_y(y: &Vec<u64>, lo: usize, hi: usize) -> (r: u64)
    requires
        lo <= hi < y@.len(),
    ensures
        r as int == max_in(y@, lo as int, hi as int),
{
    let mut best: u64 = y[hi];
    let mut i: usize = hi;
    while i > lo
        invariant
            lo <= i <= hi,
            best as int == max_in(y@, i as int, hi as int),
        decreases i,
    {
        i = i - 1;
        if y[i] > best {
            best = y[i];
        }
    }
    best
}

/// Scans the samples left to right and returns the hotspots: each is a
/// maximal run of samples above the threshold, carrying the largest sample
/// of its closed range.
#[verifier::loop_isolation(false)]
pub fn find_hotspots(y: &Vec<u64>, threshold: u64) -> (r: Vec<Hotspot>)
    ensures
        r@.len() == hotspot_ranges(y@, threshold).len(),
        forall|k: int|
            0 <= k < r@.len() ==> {
                let rng = #[trigger] hotspot_ranges(y@, threshold)[k];
                r@[k].start_index == rng.0 && r@[k].end_index == rng.1 && r@[k].peak as int
                    == max_in(y@, rng.0, rng.1)
            },
{
    let mut spots: Vec<Hotspot> = Vec::new();
    let mut open_start: Option<usize> = None;
    let n: usize = y.len();
    let mut i: usize = 0;
    while i < n
        invariant
            0 <= i <= n,
            n == y@.len(),
            (match open_start {
                Option::Some(s) => scan_runs(y@, threshold, i as int).1 == Option::Some(s as int)
                    && s < i,
                Option::None => scan_runs(y@, threshold, i as int).1 is None,
            }),
            spots@.len() == scan_runs(y@, threshold, i as int).0.len(),
            forall|k: int|
                0 <= k < spots@.len() ==> {
                    let rng = #[trigger] scan_runs(y@, threshold, i as int).0[k];
                    spots@[k].start_index == rng.0 && spots@[k].end_index == rng.1
                        && spots@[k].peak as int == max_in(y@, rng.0, rng.1)
                },
        decreases n - i,
    {
        proof {
            lemma_scan_runs_ordered(y@, threshold, i as int);
        }
        match open_start {
            None => {
                if y[i] > threshold {
                    open_start = Some(i);
                }
            },
            Some(s) => {
                if y[i] <= threshold {
                    let peak = get_max_y(y, s, i);
                    spots.push(Hotspot { start_index: s, end_index: i, peak });
                    open_start = None;
                    proof {
                        let pre = scan_runs(y@, threshold, i as int).0;
                        assert(scan_runs(y@, threshold, i + 1).0 == pre.push((s as int, i as int)));
                    }
                }
            },
        }
        i = i + 1;
    }
    match open_start {
        Some(s) => {
            proof {
                lemma_scan_runs_ordered(y@, threshold, n as int);
            }
            let peak = get_max_y(y, s, n - 1);
            spots.push(Hotspot { start_index: s, end_index: n - 1, peak });
        },
        None => {},
    }
    spots
}

} // verus!
