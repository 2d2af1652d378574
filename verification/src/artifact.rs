//! The artifact writer's verified half: merging normalized records with
//! their final positions into output rows, one per input record, in input
//! order, with the logo reference stripped of any query-string suffix and an
//! absent team size defaulted to zero.

use vstd::prelude::*;
use crate::coords::UnitPoint;
use crate::record::{NormalizedStartup, PositionedStartup};
use crate::text::{find_from, first_pos, lemma_first_pos};
use vstd::string::StrSliceExecFns;
use vstd::string::StringExecFns;

verus! {

/// The prefix of `s` before its first `'?'`: the whole of `s` when it has
/// none.
pub open spec fn before_query(s: Seq<char>) -> Seq<char> {
    s.take(first_pos(s, '?'))
}

/// Strips any query-string suffix from a URL: returns the prefix before the
/// first `'?'`, or the whole string when there is none.
pub fn strip_query(url: &str) -> (r: String)
    ensures
        r@ == before_query(url@),
{
    proof {
        assert(url@.skip(0) =~= url@);
        lemma_first_pos(url@, '?');
    }
    let i = find_from(url, 0, '?');
    let prefix = url.substring_char(0, i);
    String::from_str(prefix)
}

/// The team size of the output row: the record's where present, else zero.
pub open spec fn team_size_or_zero(t: Option<u32>) -> u32 {
    match t {
        Some(v) => v,
        None => 0,
    }
}

/// One output row carries the record's link, name and tagline, the point at
/// the same position, the defaulted team size, and the logo reference with
/// any query-string suffix stripped.
pub open spec fn row_matches(s: NormalizedStartup, p: UnitPoint, r: PositionedStartup) -> bool {
    &&& r.link@ == s.company_link@
    &&& r.name@ == s.name@
    &&& r.tagline@ == s.tagline@
    &&& r.pos == p
    &&& r.team_size == team_size_or_zero(s.team_size)
    &&& r.logo_url@ == before_query(s.logo_url@)
}

/// Zips normalized records with their positions into output rows: exactly
/// one row per record, in input order, each built from the record and the
/// point at the same position.
pub fn position_startups(startups: Vec<NormalizedStartup>, points: &Vec<UnitPoint>) -> (rows: Vec<
    PositionedStartup,
>)
    requires
        points@.len() == startups@.len(),
    ensures
        rows@.len() == startups@.len(),
        forall|i: int|
            0 <= i < rows@.len() ==> row_matches(startups@[i], points@[i], #[trigger] rows@[i]),
{
    let mut rows: Vec<PositionedStartup> = Vec::new();
    let mut startups = startups;
    let n = startups.len();
    let mut i: usize = 0;
    let ghost startups0 = startups@;
    while i < n
        invariant
            0 <= i <= n,
            startups0.len() == n,
            points@.len() == n,
            startups@ =~= startups0.skip(i as int),
            rows@.len() == i,
            forall|k: int|
                0 <= k < i ==> row_matches(startups0[k], points@[k], #[trigger] rows@[k]),
        decreases n - i,
    {
        let s = startups.remove(0);
        assert(s == startups0[i as int]);
        let logo = strip_query(s.logo_url.as_str());
        let team_size = match s.team_size {
            Some(v) => v,
            None => 0,
        };
        rows.push(
            PositionedStartup {
                link: s.company_link,
                name: s.name,
                tagline: s.tagline,
                pos: points[i],
                team_size,
                logo_url: logo,
            },
        );
        proof {
            assert(startups@ =~= startups0.skip(i + 1));
        }
        i += 1;
    }
    rows
}

/// Alignment invariant: the zip of records and positions yields as many rows
/// as records, and the row at each position is built from the record and
/// point at that same position — no row is dropped, added or reordered.
pub proof fn lemma_artifact_alignment(
    startups: Seq<NormalizedStartup>,
    points: Seq<UnitPoint>,
    rows: Seq<PositionedStartup>,
)
    requires
        points.len() == startups.len(),
        rows.len() == startups.len(),
        forall|i: int|
            0 <= i < rows.len() ==> row_matches(startups[i], points[i], #[trigger] rows[i]),
    ensures
        rows.len() == startups.len(),
        forall|i: int| 0 <= i < rows.len() ==> #[trigger] rows[i].name@ == startups[i].name@,
        forall|i: int| 0 <= i < rows.len() ==> #[trigger] rows[i].pos == points[i],
{
}

} // verus!
