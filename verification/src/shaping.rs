use vstd::prelude::*;

verus! {

/// A text cluster: how many bytes of text map to how many glyphs.
#[derive(Copy, Clone, Debug, PartialEq, Eq)]
pub struct Cluster {
    pub num_bytes: i32,
    pub num_glyphs: i32,
}

/// The clusters of the first `n` glyphs, given the byte offset of the
/// cluster each glyph belongs to: consecutive glyphs with one offset form a
/// cluster, which covers the bytes up to the next offset.  The last cluster's
/// byte count is not known yet and stays 0.
pub open spec fn clusters_upto(offsets: Seq<u32>, n: nat) -> Seq<(int, int)>
    decreases n,
{
    if n <= 1 {
        seq![(0int, 1int)]
    } else {
        let c = clusters_upto(offsets, (n - 1) as nat);
        let last = c.last();
        if offsets[n - 1] != offsets[n - 2] {
            c.update(c.len() - 1, (offsets[n - 1] - offsets[n - 2], last.1)).push((0int, 1int))
        } else {
            c.update(c.len() - 1, (last.0, last.1 + 1))
        }
    }
}

/// The clusters of a shaped run of text `start_at..end_at`: the last
/// cluster covers what the others leave of the run.
pub open spec fn clusters_of(offsets: Seq<u32>, start_at: int, end_at: int) -> Seq<(int, int)> {
    if offsets.len() == 0 {
        Seq::empty()
    } else {
        let c = clusters_upto(offsets, offsets.len());
        c.update(c.len() - 1, ((end_at - start_at) - (offsets.last() - offsets[0]), c.last().1))
    }
}

/// Whether the clusters of a run can be computed: the glyphs' offsets never
/// go down, and every count fits in an `i32`.
pub open spec fn clusters_ok(offsets: Seq<u32>, start_at: usize, end_at: usize) -> bool {
    &&& forall|i: int, j: int| 0 <= i <= j < offsets.len() ==> offsets[i] <= offsets[j]
    &&& offsets.len() > 0 ==> offsets.last() - offsets[0] <= i32::MAX
    &&& offsets.len() <= i32::MAX
    &&& start_at <= i32::MAX && end_at <= i32::MAX
    &&& offsets.len() > 0 ==> i32::MIN <= (end_at - start_at) - (offsets.last() - offsets[0]) <= i32::MAX
}

pub open spec fn cluster_views(c: Seq<Cluster>) -> Seq<(int, int)> {
    c.map_values(|k: Cluster| (k.num_bytes as int, k.num_glyphs as int))
}

proof fn lemma_clusters_upto(offsets: Seq<u32>, n: nat)
    requires
        1 <= n <= offsets.len(),
        forall|i: int, j: int| 0 <= i <= j < offsets.len() ==> offsets[i] <= offsets[j],
    ensures
        clusters_upto(offsets, n).len() >= 1,
        clusters_upto(offsets, n).len() <= n,
        clusters_upto(offsets, n).last().0 == 0,
        1 <= clusters_upto(offsets, n).last().1 <= n,
        forall|k: int| 0 <= k < clusters_upto(offsets, n).len() - 1 ==> 0 <= #[trigger] clusters_upto(offsets, n)[k].0,
        forall|k: int| 0 <= k < clusters_upto(offsets, n).len() ==> 1 <= #[trigger] clusters_upto(offsets, n)[k].1 <= n,
        sum_bytes(clusters_upto(offsets, n)) == offsets[n - 1] - offsets[0],
        sum_glyphs(clusters_upto(offsets, n)) == n,
    decreases n,
{
    if n <= 1 {
        let c = clusters_upto(offsets, n);
        assert(c.drop_last() =~= Seq::<(int, int)>::empty());
        assert(sum_glyphs(Seq::<(int, int)>::empty()) == 0);
        assert(c.last() == (0int, 1int));
        assert(sum_glyphs(c) == 1);
    } else {
        lemma_clusters_upto(offsets, (n - 1) as nat);
        let c = clusters_upto(offsets, (n - 1) as nat);
        let last = c.last();
        if offsets[n - 1] != offsets[n - 2] {
            let d = c.update(c.len() - 1, (offsets[n - 1] - offsets[n - 2], last.1));
            lemma_sum_bytes_update_last(c, offsets[n - 1] - offsets[n - 2]);
            assert(d.push((0int, 1int)).drop_last() =~= d);
            lemma_sum_glyphs_update_last(c, d.last().0, 0);
        } else {
            lemma_sum_bytes_update_last(c, 0);
            lemma_sum_glyphs_update_last(c, 0, 1);
        }
    }
}

/// The glyphs of all clusters.
pub open spec fn sum_glyphs(c: Seq<(int, int)>) -> int
    decreases c.len(),
{
    if c.len() == 0 {
        0
    } else {
        sum_glyphs(c.drop_last()) + c.last().1
    }
}

proof fn lemma_sum_glyphs_update_last(c: Seq<(int, int)>, b: int, g: int)
    requires
        c.len() >= 1,
    ensures
        g == 0 ==> sum_glyphs(c.update(c.len() - 1, (b, c.last().1)).push((0int, 1int))) == sum_glyphs(c) + 1,
        sum_glyphs(c.update(c.len() - 1, (b, c.last().1 + g))) == sum_glyphs(c) + g,
{
    let d = c.update(c.len() - 1, (b, c.last().1 + g));
    assert(d.drop_last() =~= c.drop_last());
    assert(sum_glyphs(d) == sum_glyphs(c) + g);
    let e = c.update(c.len() - 1, (b, c.last().1));
    assert(e.drop_last() =~= c.drop_last());
    assert(sum_glyphs(e) == sum_glyphs(c));
    let p = e.push((0int, 1int));
    assert(p.drop_last() =~= e);
    assert(sum_glyphs(p) == sum_glyphs(e) + 1);
}

/// The clusters cover the run exactly: their bytes add up to its length,
/// and their glyphs to the number of glyphs.
pub proof fn lemma_clusters_cover_run(offsets: Seq<u32>, start_at: usize, end_at: usize)
    requires
        offsets.len() > 0,
        forall|i: int, j: int| 0 <= i <= j < offsets.len() ==> offsets[i] <= offsets[j],
    ensures
        sum_bytes(clusters_of(offsets, start_at as int, end_at as int))
            + clusters_of(offsets, start_at as int, end_at as int).last().0 == end_at - start_at,
        sum_glyphs(clusters_of(offsets, start_at as int, end_at as int)) == offsets.len(),
{
    let n = offsets.len();
    lemma_clusters_upto(offsets, n);
    let c = clusters_upto(offsets, n);
    let d = clusters_of(offsets, start_at as int, end_at as int);
    if c.len() > 1 {
        assert(d.drop_last() =~= c.drop_last());
        assert(d[d.len() - 2] == c[c.len() - 2]);
    }
    assert(sum_bytes(d) == sum_bytes(c));
    lemma_sum_glyphs_update_last(c, d.last().0, 0);
    assert(d =~= c.update(c.len() - 1, (d.last().0, c.last().1 + 0)));
}

/// The bytes of all clusters but the last.
pub open spec fn sum_bytes(c: Seq<(int, int)>) -> int
    decreases c.len(),
{
    if c.len() <= 1 {
        0
    } else {
        sum_bytes(c.drop_last()) + c[c.len() - 2].0
    }
}

proof fn lemma_sum_bytes_update_last(c: Seq<(int, int)>, b: int)
    requires
        c.len() >= 1,
        c.last().0 == 0,
    ensures
        sum_bytes(c.update(c.len() - 1, (b, c.last().1)).push((0int, 1int))) == sum_bytes(c) + b,
        sum_bytes(c.update(c.len() - 1, (0int, c.last().1 + 1))) == sum_bytes(c),
{
    let d = c.update(c.len() - 1, (b, c.last().1));
    let p = d.push((0int, 1int));
    assert(p.drop_last() =~= d);
    assert(p[p.len() - 2] == (b, c.last().1));
    if c.len() > 1 {
        assert(d.drop_last() =~= c.drop_last());
        assert(d[d.len() - 2] == c[c.len() - 2]);
        assert(c.update(c.len() - 1, (0int, c.last().1 + 1)).drop_last() =~= c.drop_last());
    }
    assert(sum_bytes(d) == sum_bytes(c));
    assert(sum_bytes(p) == sum_bytes(d) + b);
}

/// The clusters of a run of text `start_at..end_at` that was shaped into
/// glyphs whose clusters start at byte `offsets[i]` of the text.
pub fn clusters(offsets: &Vec<u32>, start_at: usize, end_at: usize) -> (res: Vec<Cluster>)
    requires
        clusters_ok(offsets@, start_at, end_at),
    ensures
        cluster_views(res@) == clusters_of(offsets@, start_at as int, end_at as int),
{
    let n = offsets.len();
    let mut res: Vec<Cluster> = Vec::new();
    if n == 0 {
        assert(cluster_views(res@) =~= Seq::<(int, int)>::empty());
        return res;
    }
    res.push(Cluster { num_bytes: 0, num_glyphs: 1 });
    assert(cluster_views(res@) =~= clusters_upto(offsets@, 1));
    let mut bytes: i32 = 0;
    let mut i: usize = 1;
    while i < n
        invariant
            n == offsets@.len(),
            clusters_ok(offsets@, start_at, end_at),
            1 <= i <= n,
            cluster_views(res@) == clusters_upto(offsets@, i as nat),
            bytes == offsets[i - 1] - offsets[0],
        decreases n - i,
    {
        proof {
            lemma_clusters_upto(offsets@, i as nat);
            lemma_clusters_upto(offsets@, (i + 1) as nat);
        }
        let last = res.len() - 1;
        let cur = res[last];
        let a = offsets[i];
        let b = offsets[i - 1];
        if a != b {
            let num_bytes = (a - b) as i32;
            res.set(last, Cluster { num_bytes, num_glyphs: cur.num_glyphs });
            bytes = bytes + num_bytes;
            res.push(Cluster { num_bytes: 0, num_glyphs: 1 });
        } else {
            res.set(last, Cluster { num_bytes: cur.num_bytes, num_glyphs: cur.num_glyphs + 1 });
        }
        assert(cluster_views(res@) =~= clusters_upto(offsets@, (i + 1) as nat));
        i = i + 1;
    }
    proof {
        lemma_clusters_upto(offsets@, n as nat);
    }
    let last = res.len() - 1;
    let cur = res[last];
    let total = end_at as i32 - start_at as i32;
    res.set(last, Cluster { num_bytes: total - bytes, num_glyphs: cur.num_glyphs });
    assert(cluster_views(res@) =~= clusters_of(offsets@, start_at as int, end_at as int));
    res
}

} // verus!
