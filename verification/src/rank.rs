//! The ranker and selector: order clusters by prominence and keep the most
//! prominent ones.
//!
//! Clusters are sorted by non-increasing weight. Equal weights carry no
//! guaranteed order in the palette contract; this implementation keeps
//! equally weighted clusters in discovery order (the scan always extracts
//! the first cluster of maximal weight among those left).

use vstd::prelude::*;
use crate::engine::{Cluster, ClusterModel, clusters_view};

verus! {

broadcast use
    vstd::seq_lib::group_to_multiset_ensures,
    vstd::multiset::group_multiset_axioms,
;

/// Whether a cluster list is ordered by non-increasing weight.
pub open spec fn sorted_by_weight_desc(cs: Seq<ClusterModel>) -> bool {
    forall|a: int, b: int|
        0 <= a <= b < cs.len() ==> (#[trigger] cs[a]).weight >= (#[trigger] cs[b]).weight
}

/// Sorts the clusters by non-increasing weight. The result holds exactly the
/// clusters given, as a multiset; clusters of equal weight keep their
/// relative order.
pub fn sort_clusters(v: Vec<Cluster>) -> (r: Vec<Cluster>)
    ensures
        r@.len() == v@.len(),
        sorted_by_weight_desc(clusters_view(r@)),
        clusters_view(r@).to_multiset() == clusters_view(v@).to_multiset(),
{
    let ghost vv = clusters_view(v@);
    let mut src = v;
    let mut out: Vec<Cluster> = Vec::new();
    proof {
        assert(clusters_view(out@) =~= Seq::<ClusterModel>::empty());
        assert(clusters_view(out@).to_multiset().add(clusters_view(src@).to_multiset())
            =~= clusters_view(src@).to_multiset());
    }
    while src.len() > 0
        invariant
            out@.len() + src@.len() == vv.len(),
            vv == clusters_view(v@),
            vv.len() == v@.len(),
            clusters_view(out@).to_multiset().add(clusters_view(src@).to_multiset())
                == vv.to_multiset(),
            sorted_by_weight_desc(clusters_view(out@)),
            forall|a: int, b: int|
                0 <= a < out@.len() && 0 <= b < src@.len() ==> (#[trigger] clusters_view(
                    out@,
                )[a]).weight >= (#[trigger] clusters_view(src@)[b]).weight,
        decreases src@.len(),
    {
        let mut m: usize = 0;
        let mut j: usize = 1;
        while j < src.len()
            invariant
                src@.len() > 0,
                (m as int) < (j as int),
                j <= src@.len(),
                forall|k: int|
                    0 <= k < j ==> (#[trigger] src@[k]).weight <= src@[m as int].weight,
            decreases src@.len() - j,
        {
            if src[j].weight > src[m].weight {
                m = j;
            }
            j += 1;
        }
        let ghost old_src = src@;
        let ghost old_out = out@;
        let c = src.remove(m);
        out.push(c);
        proof {
            assert(clusters_view(out@) =~= clusters_view(old_out).push(c@));
            assert(clusters_view(src@) =~= clusters_view(old_src).remove(m as int));
            assert(clusters_view(old_src)[m as int] == c@);
            assert(clusters_view(old_src).contains(c@));
            assert(clusters_view(src@).to_multiset() == clusters_view(
                old_src,
            ).to_multiset().remove(c@));
            assert(clusters_view(out@).to_multiset() == clusters_view(
                old_out,
            ).to_multiset().insert(c@));
            assert(clusters_view(out@).to_multiset().add(clusters_view(src@).to_multiset())
                =~= vv.to_multiset());
            assert(forall|k: int|
                0 <= k < old_src.len() ==> (#[trigger] clusters_view(old_src)[k]).weight
                    <= c@.weight);
            assert(forall|b: int|
                0 <= b < src@.len() ==> (#[trigger] clusters_view(src@)[b]).weight <= c@.weight);
            assert(sorted_by_weight_desc(clusters_view(out@)));
        }
    }
    proof {
        assert(clusters_view(src@) =~= Seq::<ClusterModel>::empty());
        assert(clusters_view(out@).to_multiset().add(clusters_view(src@).to_multiset())
            =~= clusters_view(out@).to_multiset());
    }
    out
}

} // verus!
