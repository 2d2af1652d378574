//! The entities that flow through the pipeline.
//!
//! A `StartupRecord` is one parsed input row, never mutated. A
//! `NormalizedStartup` is the same record with its tagline replaced by the
//! normalized one. A `PositionedStartup` is one output row: record metadata
//! merged with a final position in the unit square.

use vstd::prelude::*;
use crate::coords::UnitPoint;

verus! {

/// One immutable input row, in input order.
#[derive(Debug)]
pub struct StartupRecord {
    pub company_link: String,
    pub name: String,
    pub tagline: String,
    pub logo_url: String,
    pub founded: Option<u32>,
    pub team_size: Option<u32>,
    pub long_description: String,
}

/// An input record whose tagline has been replaced by its normalized form.
#[derive(Debug)]
pub struct NormalizedStartup {
    pub company_link: String,
    pub name: String,
    pub tagline: String,
    pub logo_url: String,
    pub founded: Option<u32>,
    pub team_size: Option<u32>,
    pub long_description: String,
}

/// One output row: record metadata merged with its final position.
#[derive(Debug)]
pub struct PositionedStartup {
    pub link: String,
    pub name: String,
    pub tagline: String,
    pub pos: UnitPoint,
    pub team_size: u32,
    pub logo_url: String,
}

/// The normalized record keeps every field of the input record but carries
/// the given tagline.
pub open spec fn replaces_tagline(r: StartupRecord, tagline: Seq<char>, n: NormalizedStartup) -> bool {
    &&& n.company_link@ == r.company_link@
    &&& n.name@ == r.name@
    &&& n.tagline@ == tagline
    &&& n.logo_url@ == r.logo_url@
    &&& n.founded == r.founded
    &&& n.team_size == r.team_size
    &&& n.long_description@ == r.long_description@
}

/// Replaces the record's raw tagline with its normalized form, keeping every
/// other field.
pub fn apply_tagline(r: StartupRecord, tagline: String) -> (n: NormalizedStartup)
    ensures
        replaces_tagline(r, tagline@, n),
{
    NormalizedStartup {
        company_link: r.company_link,
        name: r.name,
        tagline,
        logo_url: r.logo_url,
        founded: r.founded,
        team_size: r.team_size,
        long_description: r.long_description,
    }
}

/// Replaces every record's tagline with the normalized one at the same
/// position, keeping order and length.
pub fn apply_taglines(records: Vec<StartupRecord>, taglines: Vec<String>) -> (out: Vec<
    NormalizedStartup,
>)
    requires
        records@.len() == taglines@.len(),
    ensures
        out@.len() == records@.len(),
        forall|i: int|
            0 <= i < out@.len() ==> replaces_tagline(records@[i], taglines@[i]@, #[trigger] out@[i]),
{
    let mut out: Vec<NormalizedStartup> = Vec::new();
    let mut records = records;
    let mut taglines = taglines;
    let n = records.len();
    let mut i: usize = 0;
    // Consume both vectors front to back without cloning field strings.
    let ghost records0 = records@;
    let ghost taglines0 = taglines@;
    while i < n
        invariant
            0 <= i <= n,
            records0.len() == n,
            taglines0.len() == n,
            records@ =~= records0.skip(i as int),
            taglines@ =~= taglines0.skip(i as int),
            out@.len() == i,
            forall|k: int|
                0 <= k < i ==> replaces_tagline(records0[k], taglines0[k]@, #[trigger] out@[k]),
        decreases n - i,
    {
        let r = records.remove(0);
        let t = taglines.remove(0);
        assert(r == records0[i as int]);
        assert(t == taglines0[i as int]);
        let nrm = apply_tagline(r, t);
        out.push(nrm);
        proof {
            assert(records@ =~= records0.skip(i + 1));
            assert(taglines@ =~= taglines0.skip(i + 1));
        }
        i += 1;
    }
    out
}

} // verus!
