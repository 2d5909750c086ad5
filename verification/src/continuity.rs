use vstd::prelude::*;
use crate::graph::run::{keys_sorted, sort_by_run_key, RunKeyed};
use crate::text::str_eq;

verus! {

broadcast use vstd::seq_lib::group_seq_properties;

/// What the continuity review reads of a shot. `state_in` and `state_out` are compact
/// JSON text; `screen_direction` is the compact JSON text of the continuity notes'
/// `screen_direction`, where they have one.
#[derive(Debug)]
pub struct ContinuityShot {
    pub shot_id: String,
    pub order: u32,
    pub state_in: String,
    pub state_out: String,
    pub location_variant_id: Option<String>,
    pub screen_direction: Option<String>,
}

impl RunKeyed for ContinuityShot {
    open spec fn key_batch(&self) -> u32 {
        self.order
    }

    open spec fn key_name(&self) -> Seq<char> {
        seq![]
    }

    fn batch_of(&self) -> (b: u32) {
        self.order
    }

    fn name_of(&self) -> (n: &str) {
        proof {
            reveal_strlit("");
        }
        ""
    }
}

/// What the review found between two consecutive shots, or that it found nothing.
#[derive(Clone, Copy, Debug, PartialEq, Eq, Structural)]
pub enum ContinuityCode {
    StateHandoffMismatch,
    LocationVariantChanged,
    ScreenDirectionChanged,
    NotVisuallyInspected,
}

/// One finding of the review, with the shots it is between.
#[derive(Debug)]
pub struct ContinuityFinding {
    pub code: ContinuityCode,
    pub from_shot: Option<String>,
    pub to_shot: Option<String>,
}

pub type FindingView = (ContinuityCode, Option<Seq<char>>, Option<Seq<char>>);

pub open spec fn finding_view(f: ContinuityFinding) -> FindingView {
    (f.code, match f.from_shot { Some(s) => Some(s@), None => None }, match f.to_shot { Some(s) => Some(s@), None => None })
}

pub open spec fn opt_seq(v: Option<String>) -> Option<Seq<char>> {
    match v { Some(s) => Some(s@), None => None }
}

/// The findings between shot `a` and the next shot `b`, in order: a state handed over
/// that differs from the one taken up (neither `null`), a change of location variant in
/// a scene with a location, and a change of screen direction where both give one.
pub open spec fn pair_findings(a: ContinuityShot, b: ContinuityShot, has_location: bool) -> Seq<FindingView> {
    let from = Some(a.shot_id@);
    let to = Some(b.shot_id@);
    let handoff: Seq<FindingView> = if a.state_out@ != "null"@ && b.state_in@ != "null"@ && a.state_out@ != b.state_in@ {
        seq![(ContinuityCode::StateHandoffMismatch, from, to)]
    } else {
        seq![]
    };
    let variant: Seq<FindingView> = if opt_seq(a.location_variant_id) != opt_seq(b.location_variant_id) && has_location {
        seq![(ContinuityCode::LocationVariantChanged, from, to)]
    } else {
        seq![]
    };
    let direction: Seq<FindingView> = if a.screen_direction is Some && b.screen_direction is Some
        && opt_seq(a.screen_direction) != opt_seq(b.screen_direction) {
        seq![(ContinuityCode::ScreenDirectionChanged, from, to)]
    } else {
        seq![]
    };
    handoff + variant + direction
}

/// The findings between the consecutive shots among the first `n`.
pub open spec fn pairs_findings(s: Seq<ContinuityShot>, n: int, has_location: bool) -> Seq<FindingView>
    decreases n,
{
    if n < 2 {
        seq![]
    } else {
        pairs_findings(s, n - 1, has_location) + pair_findings(s[n - 2], s[n - 1], has_location)
    }
}

/// What the review reports of shots `s` in order: the findings between consecutive
/// shots, or that nothing was visually inspected where there are none.
pub open spec fn continuity_of(s: Seq<ContinuityShot>, has_location: bool) -> Seq<FindingView> {
    let found = pairs_findings(s, s.len() as int, has_location);
    if found.len() == 0 { seq![(ContinuityCode::NotVisuallyInspected, None, None)] } else { found }
}

fn opt_eq(a: &Option<String>, b: &Option<String>) -> (r: bool)
    ensures
        r == (opt_seq(*a) == opt_seq(*b)),
{
    match (a, b) {
        (Some(x), Some(y)) => str_eq(x.as_str(), y.as_str()),
        (None, None) => true,
        _ => false,
    }
}

fn push_finding(out: &mut Vec<ContinuityFinding>, code: ContinuityCode, from: &String, to: &String)
    ensures
        final(out)@.len() == old(out)@.len() + 1,
        final(out)@.drop_last() == old(out)@,
        finding_view(final(out)@.last()) == (code, Some(from@), Some(to@)),
{
    out.push(ContinuityFinding { code, from_shot: Some(from.clone()), to_shot: Some(to.clone()) });
}

pub open spec fn finding_views(fs: Seq<ContinuityFinding>) -> Seq<FindingView> {
    fs.map_values(|f: ContinuityFinding| finding_view(f))
}

/// Reviews the continuity of a scene's shots, taken in order of their place; a scene
/// with a location also watches its variants.
pub fn continuity_findings(shots: Vec<ContinuityShot>, has_location: bool) -> (r: Vec<ContinuityFinding>)
    ensures
        exists|s: Seq<ContinuityShot>| s.to_multiset() == shots@.to_multiset() && keys_sorted(s)
            && finding_views(r@) == continuity_of(s, has_location),
{
    let ghost orig = shots@;
    let sorted = sort_by_run_key(shots);
    let ghost s = sorted@;
    let mut out: Vec<ContinuityFinding> = Vec::new();
    let mut k: usize = 1;
    assert(finding_views(out@) =~= pairs_findings(s, 1, has_location));
    while k < sorted.len()
        invariant
            1 <= k,
            k <= sorted.len() || k == 1,
            sorted@ == s,
            finding_views(out@) == pairs_findings(s, k as int, has_location),
        decreases sorted.len() - k,
    {
        let a = &sorted[k - 1];
        let b = &sorted[k];
        let ghost before = finding_views(out@);
        proof {
            reveal_strlit("null");
        }
        if !str_eq(a.state_out.as_str(), "null") && !str_eq(b.state_in.as_str(), "null")
            && !str_eq(a.state_out.as_str(), b.state_in.as_str()) {
            push_finding(&mut out, ContinuityCode::StateHandoffMismatch, &a.shot_id, &b.shot_id);
        }
        if !opt_eq(&a.location_variant_id, &b.location_variant_id) && has_location {
            push_finding(&mut out, ContinuityCode::LocationVariantChanged, &a.shot_id, &b.shot_id);
        }
        if a.screen_direction.is_some() && b.screen_direction.is_some()
            && !opt_eq(&a.screen_direction, &b.screen_direction) {
            push_finding(&mut out, ContinuityCode::ScreenDirectionChanged, &a.shot_id, &b.shot_id);
        }
        proof {
            assert(finding_views(out@) =~= before + pair_findings(s[k - 1], s[k as int], has_location));
        }
        k += 1;
    }
    if out.len() == 0 {
        out.push(ContinuityFinding { code: ContinuityCode::NotVisuallyInspected, from_shot: None, to_shot: None });
        proof {
            assert(finding_views(out@) =~= seq![(ContinuityCode::NotVisuallyInspected, None::<Seq<char>>, None::<Seq<char>>)]);
        }
    }
    proof {
        assert(sorted@.len() == sorted.len());
        if s.len() >= 1 {
            assert(k == s.len());
        } else {
            assert(pairs_findings(s, 0, has_location) =~= seq![]);
            assert(pairs_findings(s, 1, has_location) =~= seq![]);
        }
        assert(pairs_findings(s, s.len() as int, has_location) == pairs_findings(s, k as int, has_location));
        assert(s.to_multiset() == orig.to_multiset() && keys_sorted(s)
            && finding_views(out@) == continuity_of(s, has_location));
    }
    out
}

} // verus!
