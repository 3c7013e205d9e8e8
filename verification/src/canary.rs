use vstd::prelude::*;

verus! {

/// What a canary prefix identifies: a known malicious payload and the
/// transform it was seen under.
#[derive(Debug)]
pub struct CanaryInfo {
    pub identifier: String,
    pub transform: String,
}

/// The abstract value of a [`CanaryInfo`].
pub struct CanaryInfoV {
    pub identifier: Seq<char>,
    pub transform: Seq<char>,
}

/// The abstract value of one canary entry.
pub open spec fn canary_info_view(c: CanaryInfo) -> CanaryInfoV {
    CanaryInfoV { identifier: c.identifier@, transform: c.transform@ }
}

/// The abstract value of a canary catalog: prefix to information.
pub open spec fn canaries_view(v: Seq<(String, CanaryInfo)>) -> Seq<(Seq<char>, CanaryInfoV)> {
    Seq::new(v.len(), |i: int| (v[i].0@, canary_info_view(v[i].1)))
}

/// The canary catalog: sentinel string prefixes mapped to what they
/// identify.  The catalog is handed in as plain values; reading it from a
/// file is the caller's concern.
#[derive(Debug)]
pub struct Canaries {
    pub canaries: Vec<(String, CanaryInfo)>,
}

impl Canaries {
    pub fn new(canaries: Vec<(String, CanaryInfo)>) -> (r: Self)
        ensures
            r.canaries@ == canaries@,
    {
        Canaries { canaries }
    }

    /// The catalog's entries.
    pub fn get_canaries(&self) -> (r: &Vec<(String, CanaryInfo)>)
        ensures
            r == &self.canaries,
    {
        &self.canaries
    }
}

} // verus!
