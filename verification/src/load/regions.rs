//! Game regions and the region set a facility is available in.

use vstd::prelude::*;

verus! {

/// A game region a machine can be listed for.
#[derive(Debug, Clone, Copy, PartialEq, Eq, Structural)]
pub enum Region {
    FourthValley,
    Wuling,
}

/// The regions a facility is available in.
#[derive(Debug, Clone, Copy, PartialEq, Eq, Structural)]
pub enum FacilityRegions {
    All,
    FourthValleyOnly,
    WulingOnly,
}

/// The region set for a machine listed for `regions`: one region alone restricts it
/// to that region; both, or none listed, make it available everywhere.
pub open spec fn regions_of(regions: Seq<Region>) -> FacilityRegions {
    let fourth_valley = regions.contains(Region::FourthValley);
    let wuling = regions.contains(Region::Wuling);
    if fourth_valley && !wuling {
        FacilityRegions::FourthValleyOnly
    } else if wuling && !fourth_valley {
        FacilityRegions::WulingOnly
    } else {
        FacilityRegions::All
    }
}

/// Folds a machine's listed regions into the region set it is available in.
pub fn facility_regions_from_machine_regions(regions: &[Region]) -> (r: FacilityRegions)
    ensures
        r == regions_of(regions@),
{
    let mut has_fourth_valley = false;
    let mut has_wuling = false;
    let mut i: usize = 0;
    while i < regions.len()
        invariant
            i <= regions@.len(),
            has_fourth_valley == regions@.take(i as int).contains(Region::FourthValley),
            has_wuling == regions@.take(i as int).contains(Region::Wuling),
        decreases regions@.len() - i,
    {
        let ghost t1 = regions@.take(i + 1);
        let ghost t0 = regions@.take(i as int);
        match regions[i] {
            Region::FourthValley => has_fourth_valley = true,
            Region::Wuling => has_wuling = true,
        }
        proof {
            assert(t1 =~= t0.push(regions@[i as int]));
            if t1.contains(Region::FourthValley) && !t0.contains(Region::FourthValley) {
                let k = choose|k: int| 0 <= k < t1.len() && t1[k] == Region::FourthValley;
                assert(k == i);
            }
            if t1.contains(Region::Wuling) && !t0.contains(Region::Wuling) {
                let k = choose|k: int| 0 <= k < t1.len() && t1[k] == Region::Wuling;
                assert(k == i);
            }
            if t0.contains(Region::FourthValley) {
                let k = choose|k: int| 0 <= k < t0.len() && t0[k] == Region::FourthValley;
                assert(t1[k] == Region::FourthValley);
            }
            if t0.contains(Region::Wuling) {
                let k = choose|k: int| 0 <= k < t0.len() && t0[k] == Region::Wuling;
                assert(t1[k] == Region::Wuling);
            }
            if regions@[i as int] == Region::FourthValley {
                assert(t1[i as int] == Region::FourthValley);
            } else {
                assert(t1[i as int] == Region::Wuling);
            }
        }
        i = i + 1;
    }
    assert(regions@.take(regions@.len() as int) =~= regions@);
    match (has_fourth_valley, has_wuling) {
        (true, true) | (false, false) => FacilityRegions::All,
        (true, false) => FacilityRegions::FourthValleyOnly,
        (false, true) => FacilityRegions::WulingOnly,
    }
}

/// Which regions a machine is available in follows from which regions are listed:
/// both or none give every region, one alone gives only that region.
pub proof fn law_regions_follow_listed_regions(regions: Seq<Region>)
    ensures
        regions.contains(Region::FourthValley) && regions.contains(Region::Wuling)
            ==> regions_of(regions) == FacilityRegions::All,
        regions.contains(Region::FourthValley) && !regions.contains(Region::Wuling)
            ==> regions_of(regions) == FacilityRegions::FourthValleyOnly,
        !regions.contains(Region::FourthValley) && regions.contains(Region::Wuling)
            ==> regions_of(regions) == FacilityRegions::WulingOnly,
        !regions.contains(Region::FourthValley) && !regions.contains(Region::Wuling)
            ==> regions_of(regions) == FacilityRegions::All,
{
}

/// The order and repetition of listed regions do not matter: two lists that name the
/// same regions give the same result.
pub proof fn law_regions_ignore_order(a: Seq<Region>, b: Seq<Region>)
    requires
        forall|r: Region| a.contains(r) <==> b.contains(r),
    ensures
        regions_of(a) == regions_of(b),
{
    assert(a.contains(Region::FourthValley) <==> b.contains(Region::FourthValley));
    assert(a.contains(Region::Wuling) <==> b.contains(Region::Wuling));
}

/// Listing a region again, anywhere in the list, changes nothing.
pub proof fn law_regions_listing_again_changes_nothing(a: Seq<Region>, r: Region, k: int)
    requires
        a.contains(r),
        0 <= k <= a.len(),
    ensures
        regions_of(a.insert(k, r)) == regions_of(a),
{
    let b = a.insert(k, r);
    assert forall|x: Region| b.contains(x) <==> a.contains(x) by {
        if b.contains(x) {
            let i = choose|i: int| 0 <= i < b.len() && b[i] == x;
            if i < k {
                assert(a[i] == x);
            } else if i > k {
                assert(a[i - 1] == x);
            }
        }
        if a.contains(x) {
            let i = choose|i: int| 0 <= i < a.len() && a[i] == x;
            if i < k {
                assert(b[i] == x);
            } else {
                assert(b[i + 1] == x);
            }
        }
    }
    law_regions_ignore_order(b, a);
}

/// Reversing the list changes nothing.
pub proof fn law_regions_ignore_reversal(a: Seq<Region>)
    ensures
        regions_of(a.reverse()) == regions_of(a),
{
    let c = a.reverse();
    assert forall|x: Region| c.contains(x) <==> a.contains(x) by {
        if c.contains(x) {
            let i = choose|i: int| 0 <= i < c.len() && c[i] == x;
            assert(a[a.len() - 1 - i] == x);
        }
        if a.contains(x) {
            let i = choose|i: int| 0 <= i < a.len() && a[i] == x;
            assert(c[a.len() - 1 - i] == x);
        }
    }
    law_regions_ignore_order(c, a);
}

} // verus!
