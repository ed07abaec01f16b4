//! Watch history and merged video pools: which session of each video counts,
//! in what order sessions are listed, and which videos are new.
use vstd::prelude::*;

verus! {

/// What the history logic reads of a session: the video's key and when the
/// session ended.
#[derive(Debug)]
pub struct HistoryKey {
    pub video_id: String,
    pub ts_end: u64,
}

impl View for HistoryKey {
    type V = (Seq<char>, u64);

    open spec fn view(&self) -> (Seq<char>, u64) {
        (self.video_id@, self.ts_end)
    }
}

pub open spec fn keys_view(es: Seq<HistoryKey>) -> Seq<(Seq<char>, u64)> {
    es.map_values(|e: HistoryKey| e@)
}

pub open spec fn strings_view(ss: Seq<String>) -> Seq<Seq<char>> {
    ss.map_values(|s: String| s@)
}

/// Every index of `r` points into `es`.
pub open spec fn indices_valid(es: Seq<(Seq<char>, u64)>, r: Seq<usize>) -> bool {
    forall|k: int| 0 <= k < r.len() ==> #[trigger] r[k] < es.len()
}

/// No two indices of `r` point at sessions of the same video.
pub open spec fn distinct_videos(es: Seq<(Seq<char>, u64)>, r: Seq<usize>) -> bool {
    forall|k1: int, k2: int|
        0 <= k1 < r.len() && 0 <= k2 < r.len() && k1 != k2 ==> es[#[trigger] r[k1] as int].0
            != es[#[trigger] r[k2] as int].0
}

/// Some index of `r` points at a session of video `id`.
pub open spec fn has_video(es: Seq<(Seq<char>, u64)>, r: Seq<usize>, id: Seq<char>) -> bool {
    exists|k: int| 0 <= k < r.len() && es[#[trigger] r[k] as int].0 == id
}

/// Every video among the first `n` sessions has an index in `r`.
pub open spec fn covers_prefix(es: Seq<(Seq<char>, u64)>, r: Seq<usize>, n: int) -> bool {
    forall|i: int| 0 <= i < n ==> #[trigger] has_video(es, r, es[i].0)
}

/// Each index of `r` is the first among the first `n` sessions of its video
/// with the latest end.
pub open spec fn latest_in_prefix(es: Seq<(Seq<char>, u64)>, r: Seq<usize>, n: int) -> bool {
    forall|k: int, i: int|
        0 <= k < r.len() && 0 <= i < n && (#[trigger] es[i]).0 == es[#[trigger] r[k] as int].0 ==> es[i].1
            <= es[r[k] as int].1 && (i < r[k] ==> es[i].1 < es[r[k] as int].1)
}

/// The sessions are listed newest first (by end time).
pub open spec fn newest_first(es: Seq<(Seq<char>, u64)>, r: Seq<usize>) -> bool {
    forall|k1: int, k2: int|
        0 <= k1 < k2 < r.len() ==> es[#[trigger] r[k1] as int].1 >= es[#[trigger] r[k2] as int].1
}

/// The first index among `kept` whose session is of the same video as
/// session `i`.
fn kept_slot_of(entries: &Vec<HistoryKey>, kept: &Vec<usize>, i: usize) -> (r: Option<usize>)
    requires
        i < entries@.len(),
        forall|m: int| 0 <= m < kept@.len() ==> #[trigger] kept@[m] < entries@.len(),
    ensures
        r matches Some(k) ==> k < kept@.len() && keys_view(entries@)[kept@[k as int] as int].0
            == keys_view(entries@)[i as int].0,
        r is None ==> forall|m: int|
            0 <= m < kept@.len() ==> keys_view(entries@)[#[trigger] kept@[m] as int].0
                != keys_view(entries@)[i as int].0,
{
    let ghost es = keys_view(entries@);
    let mut k: usize = 0;
    while k < kept.len()
        invariant
            k <= kept.len(),
            i < entries@.len(),
            es == keys_view(entries@),
            forall|m: int| 0 <= m < kept@.len() ==> #[trigger] kept@[m] < entries@.len(),
            forall|m: int| 0 <= m < k ==> es[#[trigger] kept@[m] as int].0 != es[i as int].0,
        decreases kept.len() - k,
    {
        if entries[kept[k]].video_id == entries[i].video_id {
            return Some(k);
        }
        k += 1;
    }
    None
}

/// Pass one of deduplication: for each video, the first of its sessions
/// with the latest end; videos in the order they first appear.
fn latest_per_video(entries: &Vec<HistoryKey>) -> (kept: Vec<usize>)
    ensures
        indices_valid(keys_view(entries@), kept@),
        distinct_videos(keys_view(entries@), kept@),
        covers_prefix(keys_view(entries@), kept@, entries@.len() as int),
        latest_in_prefix(keys_view(entries@), kept@, entries@.len() as int),
{
    let ghost es = keys_view(entries@);
    let n = entries.len();
    let mut kept: Vec<usize> = Vec::new();
    let mut i: usize = 0;
    while i < n
        invariant
            i <= n,
            n == entries@.len(),
            es == keys_view(entries@),
            forall|k: int| 0 <= k < kept@.len() ==> #[trigger] kept@[k] < i,
            distinct_videos(es, kept@),
            covers_prefix(es, kept@, i as int),
            latest_in_prefix(es, kept@, i as int),
        decreases n - i,
    {
        let ghost old_kept = kept@;
        match kept_slot_of(entries, &kept, i) {
            Some(k) => {
                if entries[i].ts_end > entries[kept[k]].ts_end {
                    kept.set(k, i);
                    proof {
                        lemma_replace_keeps_invariants(es, old_kept, kept@, k as int, i);
                    }
                } else {
                    proof {
                        lemma_older_keeps_invariants(es, kept@, k as int, i);
                    }
                }
            },
            None => {
                kept.push(i);
                proof {
                    lemma_new_video_keeps_invariants(es, old_kept, kept@, i);
                }
            },
        }
        i += 1;
    }
    kept
}

proof fn lemma_replace_keeps_invariants(
    es: Seq<(Seq<char>, u64)>,
    old_kept: Seq<usize>,
    kept: Seq<usize>,
    k: int,
    iu: usize,
)
    requires
        0 <= iu < es.len(),
        0 <= k < old_kept.len(),
        kept == old_kept.update(k, iu),
        es[old_kept[k] as int].0 == es[(iu as int)].0,
        es[(iu as int)].1 > es[old_kept[k] as int].1,
        forall|m: int| 0 <= m < old_kept.len() ==> #[trigger] old_kept[m] < (iu as int),
        distinct_videos(es, old_kept),
        covers_prefix(es, old_kept, (iu as int)),
        latest_in_prefix(es, old_kept, (iu as int)),
    ensures
        forall|m: int| 0 <= m < kept.len() ==> #[trigger] kept[m] < (iu as int) + 1,
        distinct_videos(es, kept),
        covers_prefix(es, kept, (iu as int) + 1),
        latest_in_prefix(es, kept, (iu as int) + 1),
{
    assert forall|m: int| 0 <= m < kept.len() implies #[trigger] kept[m] < (iu as int) + 1 by {
        if m != k {
            assert(kept[m] == old_kept[m]);
        }
    }
    assert forall|k1: int, k2: int|
        0 <= k1 < kept.len() && 0 <= k2 < kept.len() && k1 != k2 implies es[#[trigger] kept[k1] as int].0
        != es[#[trigger] kept[k2] as int].0 by {
        assert(es[old_kept[k1] as int].0 != es[old_kept[k2] as int].0);
    }
    assert forall|j: int| 0 <= j < (iu as int) + 1 implies #[trigger] has_video(es, kept, es[j].0) by {
        if j < (iu as int) {
            assert(has_video(es, old_kept, es[j].0));
            let m = choose|m: int| 0 <= m < old_kept.len() && es[#[trigger] old_kept[m] as int].0 == es[j].0;
            if m == k {
                assert(es[kept[k] as int].0 == es[j].0);
            } else {
                assert(es[kept[m] as int].0 == es[j].0);
            }
        } else {
            assert(es[kept[k] as int].0 == es[j].0);
        }
    }
    assert forall|m: int, j: int|
        0 <= m < kept.len() && 0 <= j < (iu as int) + 1 && (#[trigger] es[j]).0 == es[#[trigger] kept[m] as int].0 implies es[j].1
        <= es[kept[m] as int].1 && (j < kept[m] ==> es[j].1 < es[kept[m] as int].1) by {
        if m == k {
            if j < (iu as int) {
                assert(es[j].0 == es[old_kept[m] as int].0);
                assert(es[j].1 <= es[old_kept[m] as int].1);
            }
        } else {
            assert(kept[m] == old_kept[m]);
            assert(es[old_kept[m] as int].0 != es[old_kept[k] as int].0);
        }
    }
}

proof fn lemma_older_keeps_invariants(es: Seq<(Seq<char>, u64)>, kept: Seq<usize>, k: int, iu: usize)
    requires
        0 <= iu < es.len(),
        0 <= k < kept.len(),
        es[kept[k] as int].0 == es[(iu as int)].0,
        es[(iu as int)].1 <= es[kept[k] as int].1,
        forall|m: int| 0 <= m < kept.len() ==> #[trigger] kept[m] < (iu as int),
        distinct_videos(es, kept),
        covers_prefix(es, kept, (iu as int)),
        latest_in_prefix(es, kept, (iu as int)),
    ensures
        forall|m: int| 0 <= m < kept.len() ==> #[trigger] kept[m] < (iu as int) + 1,
        covers_prefix(es, kept, (iu as int) + 1),
        latest_in_prefix(es, kept, (iu as int) + 1),
{
    assert forall|j: int| 0 <= j < (iu as int) + 1 implies #[trigger] has_video(es, kept, es[j].0) by {
        if j == (iu as int) {
            assert(es[kept[k] as int].0 == es[j].0);
        }
    }
    assert forall|m: int, j: int|
        0 <= m < kept.len() && 0 <= j < (iu as int) + 1 && (#[trigger] es[j]).0 == es[#[trigger] kept[m] as int].0 implies es[j].1
        <= es[kept[m] as int].1 && (j < kept[m] ==> es[j].1 < es[kept[m] as int].1) by {
        if j == (iu as int) && m != k {
            assert(es[kept[m] as int].0 != es[kept[k] as int].0);
        }
    }
}

proof fn lemma_new_video_keeps_invariants(
    es: Seq<(Seq<char>, u64)>,
    old_kept: Seq<usize>,
    kept: Seq<usize>,
    iu: usize,
)
    requires
        0 <= iu < es.len(),
        kept == old_kept.push(iu),
        forall|m: int| 0 <= m < old_kept.len() ==> es[#[trigger] old_kept[m] as int].0 != es[(iu as int)].0,
        forall|m: int| 0 <= m < old_kept.len() ==> #[trigger] old_kept[m] < (iu as int),
        distinct_videos(es, old_kept),
        covers_prefix(es, old_kept, (iu as int)),
        latest_in_prefix(es, old_kept, (iu as int)),
    ensures
        forall|m: int| 0 <= m < kept.len() ==> #[trigger] kept[m] < (iu as int) + 1,
        distinct_videos(es, kept),
        covers_prefix(es, kept, (iu as int) + 1),
        latest_in_prefix(es, kept, (iu as int) + 1),
{
    let last = old_kept.len() as int;
    assert forall|m: int| 0 <= m < kept.len() implies #[trigger] kept[m] < (iu as int) + 1 by {
        if m < last {
            assert(kept[m] == old_kept[m]);
        }
    }
    assert forall|k1: int, k2: int|
        0 <= k1 < kept.len() && 0 <= k2 < kept.len() && k1 != k2 implies es[#[trigger] kept[k1] as int].0
        != es[#[trigger] kept[k2] as int].0 by {
        if k1 < last && k2 < last {
            assert(kept[k1] == old_kept[k1]);
            assert(kept[k2] == old_kept[k2]);
        } else if k1 == last {
            assert(kept[k2] == old_kept[k2]);
            assert(es[old_kept[k2] as int].0 != es[(iu as int)].0);
        } else {
            assert(kept[k1] == old_kept[k1]);
            assert(es[old_kept[k1] as int].0 != es[(iu as int)].0);
        }
    }
    assert forall|j: int| 0 <= j < (iu as int) + 1 implies #[trigger] has_video(es, kept, es[j].0) by {
        if j == (iu as int) {
            assert(es[kept[last] as int].0 == es[j].0);
        } else {
            assert(has_video(es, old_kept, es[j].0));
            let m = choose|m: int| 0 <= m < old_kept.len() && es[#[trigger] old_kept[m] as int].0 == es[j].0;
            assert(kept[m] == old_kept[m]);
        }
    }
    assert forall|m: int, j: int|
        0 <= m < kept.len() && 0 <= j < (iu as int) + 1 && (#[trigger] es[j]).0 == es[#[trigger] kept[m] as int].0 implies es[j].1
        <= es[kept[m] as int].1 && (j < kept[m] ==> es[j].1 < es[kept[m] as int].1) by {
        if m == last {
            if j < (iu as int) {
                assert(has_video(es, old_kept, es[j].0));
                let m2 = choose|m2: int| 0 <= m2 < old_kept.len() && es[#[trigger] old_kept[m2] as int].0 == es[j].0;
                assert(es[old_kept[m2] as int].0 != es[(iu as int)].0);
            }
        } else {
            assert(kept[m] == old_kept[m]);
            if j == (iu as int) {
                assert(es[old_kept[m] as int].0 != es[(iu as int)].0);
            }
        }
    }
}

/// `r` and `kept` hold the same indices.
pub open spec fn same_indices(r: Seq<usize>, kept: Seq<usize>) -> bool {
    &&& forall|m: int| 0 <= m < r.len() ==> exists|k: int| 0 <= k < kept.len() && #[trigger] r[m] == kept[k]
    &&& forall|k: int| 0 <= k < kept.len() ==> exists|m: int| 0 <= m < r.len() && r[m] == #[trigger] kept[k]
}

/// Pass two of deduplication: a stable insertion sort, newest first.
fn sort_newest_first(entries: &Vec<HistoryKey>, kept: &Vec<usize>) -> (sorted: Vec<usize>)
    requires
        indices_valid(keys_view(entries@), kept@),
        distinct_videos(keys_view(entries@), kept@),
    ensures
        same_indices(sorted@, kept@),
        distinct_videos(keys_view(entries@), sorted@),
        newest_first(keys_view(entries@), sorted@),
{
    let ghost es = keys_view(entries@);
    let n = entries.len();
    let mut sorted: Vec<usize> = Vec::new();
    let mut j: usize = 0;
    while j < kept.len()
        invariant
            j <= kept.len(),
            n == entries@.len(),
            es == keys_view(entries@),
            indices_valid(es, kept@),
            distinct_videos(es, kept@),
            same_indices(sorted@, kept@.subrange(0, j as int)),
            distinct_videos(es, sorted@),
            newest_first(es, sorted@),
        decreases kept.len() - j,
    {
        let x = kept[j];
        let tx = entries[x].ts_end;
        proof {
            assert forall|m: int| 0 <= m < sorted@.len() implies #[trigger] sorted@[m] < n by {
                let k = choose|k: int| 0 <= k < j && #[trigger] sorted@[m] == kept@.subrange(0, j as int)[k];
                assert(kept@[k] < n);
            }
        }
        let mut p: usize = 0;
        while p < sorted.len()
            invariant
                p <= sorted.len(),
                n == entries@.len(),
                es == keys_view(entries@),
                forall|m: int| 0 <= m < sorted@.len() ==> #[trigger] sorted@[m] < n,
                forall|m: int| 0 <= m < p ==> es[#[trigger] sorted@[m] as int].1 >= tx,
            ensures
                p <= sorted.len(),
                forall|m: int| 0 <= m < p ==> es[#[trigger] sorted@[m] as int].1 >= tx,
                p < sorted.len() ==> es[sorted@[p as int] as int].1 < tx,
            decreases sorted.len() - p,
        {
            if entries[sorted[p]].ts_end < tx {
                break;
            }
            p += 1;
        }
        let ghost old_sorted = sorted@;
        sorted.insert(p, x);
        proof {
            lemma_insert_same_indices(kept@, j as int, old_sorted, sorted@, p as int);
            lemma_insert_distinct(es, kept@, j as int, old_sorted, sorted@, p as int);
            lemma_insert_newest_first(es, x, old_sorted, sorted@, p as int);
        }
        j += 1;
    }
    assert(kept@.subrange(0, kept@.len() as int) =~= kept@);
    sorted
}

proof fn lemma_insert_same_indices(
    kept: Seq<usize>,
    j: int,
    old_sorted: Seq<usize>,
    sorted: Seq<usize>,
    p: int,
)
    requires
        0 <= j < kept.len(),
        same_indices(old_sorted, kept.subrange(0, j)),
        0 <= p <= old_sorted.len(),
        sorted == old_sorted.insert(p, kept[j]),
    ensures
        same_indices(sorted, kept.subrange(0, j + 1)),
{
    let x = kept[j];
    let pre = kept.subrange(0, j);
    let pre1 = kept.subrange(0, j + 1);
    old_sorted.insert_ensures(p, x);
    assert forall|m: int| 0 <= m < sorted.len() implies exists|k: int|
        0 <= k < pre1.len() && #[trigger] sorted[m] == pre1[k] by {
        if m < p {
            assert(sorted[m] == old_sorted[m]);
            let k = choose|k: int| 0 <= k < pre.len() && #[trigger] old_sorted[m] == pre[k];
            assert(pre1[k] == pre[k]);
        } else if m == p {
            assert(sorted[m] == pre1[j]);
        } else {
            assert(sorted[m] == old_sorted[m - 1]);
            let k = choose|k: int| 0 <= k < pre.len() && #[trigger] old_sorted[m - 1] == pre[k];
            assert(pre1[k] == pre[k]);
        }
    }
    assert forall|k: int| 0 <= k < pre1.len() implies exists|m: int|
        0 <= m < sorted.len() && sorted[m] == #[trigger] pre1[k] by {
        if k == j {
            assert(sorted[p] == pre1[k]);
        } else {
            assert(pre1[k] == pre[k]);
            let m = choose|m: int| 0 <= m < old_sorted.len() && old_sorted[m] == #[trigger] pre[k];
            if m < p {
                assert(sorted[m] == pre1[k]);
            } else {
                assert(sorted[m + 1] == pre1[k]);
            }
        }
    }
}

proof fn lemma_insert_distinct(
    es: Seq<(Seq<char>, u64)>,
    kept: Seq<usize>,
    j: int,
    old_sorted: Seq<usize>,
    sorted: Seq<usize>,
    p: int,
)
    requires
        0 <= j < kept.len(),
        distinct_videos(es, kept),
        same_indices(old_sorted, kept.subrange(0, j)),
        distinct_videos(es, old_sorted),
        0 <= p <= old_sorted.len(),
        sorted == old_sorted.insert(p, kept[j]),
    ensures
        distinct_videos(es, sorted),
{
    let x = kept[j];
    let pre = kept.subrange(0, j);
    old_sorted.insert_ensures(p, x);
    assert forall|m: int| 0 <= m < old_sorted.len() implies es[#[trigger] old_sorted[m] as int].0
        != es[x as int].0 by {
        let k = choose|k: int| 0 <= k < pre.len() && #[trigger] old_sorted[m] == pre[k];
        assert(pre[k] == kept[k]);
        assert(es[kept[k] as int].0 != es[kept[j] as int].0);
    }
    assert forall|k1: int, k2: int|
        0 <= k1 < sorted.len() && 0 <= k2 < sorted.len() && k1 != k2 implies es[#[trigger] sorted[k1] as int].0
        != es[#[trigger] sorted[k2] as int].0 by {
        if k1 != p && k2 != p {
            let a = if k1 < p { k1 } else { k1 - 1 };
            let b = if k2 < p { k2 } else { k2 - 1 };
            assert(sorted[k1] == old_sorted[a]);
            assert(sorted[k2] == old_sorted[b]);
        } else if k1 == p {
            let b = if k2 < p { k2 } else { k2 - 1 };
            assert(sorted[k2] == old_sorted[b]);
        } else {
            let a = if k1 < p { k1 } else { k1 - 1 };
            assert(sorted[k1] == old_sorted[a]);
        }
    }
}

proof fn lemma_insert_newest_first(
    es: Seq<(Seq<char>, u64)>,
    x: usize,
    old_sorted: Seq<usize>,
    sorted: Seq<usize>,
    p: int,
)
    requires
        newest_first(es, old_sorted),
        0 <= p <= old_sorted.len(),
        sorted == old_sorted.insert(p, x),
        forall|m: int| 0 <= m < p ==> es[#[trigger] old_sorted[m] as int].1 >= es[x as int].1,
        p < old_sorted.len() ==> es[old_sorted[p] as int].1 < es[x as int].1,
    ensures
        newest_first(es, sorted),
{
    old_sorted.insert_ensures(p, x);
    assert forall|k1: int, k2: int| 0 <= k1 < k2 < sorted.len() implies es[#[trigger] sorted[k1] as int].1
        >= es[#[trigger] sorted[k2] as int].1 by {
        if k2 < p {
            assert(sorted[k1] == old_sorted[k1]);
            assert(sorted[k2] == old_sorted[k2]);
        } else if k2 == p {
            assert(sorted[k1] == old_sorted[k1]);
        } else if k1 < p {
            assert(sorted[k1] == old_sorted[k1]);
            assert(sorted[k2] == old_sorted[k2 - 1]);
            if k2 - 1 > p {
                assert(es[old_sorted[p] as int].1 >= es[old_sorted[k2 - 1] as int].1);
            }
        } else if k1 == p {
            assert(sorted[k2] == old_sorted[k2 - 1]);
            if k2 - 1 > p {
                assert(es[old_sorted[p] as int].1 >= es[old_sorted[k2 - 1] as int].1);
            }
        } else {
            assert(sorted[k1] == old_sorted[k1 - 1]);
            assert(sorted[k2] == old_sorted[k2 - 1]);
        }
    }
}

/// Deduplicates sessions by video, keeping for each video its most recent
/// session (the first of those with the latest end), and lists what is
/// kept newest first. Returns the kept sessions' indices; sessions that end
/// at the same time may come in any order.
pub fn dedup_history(entries: &Vec<HistoryKey>) -> (r: Vec<usize>)
    ensures
        indices_valid(keys_view(entries@), r@),
        distinct_videos(keys_view(entries@), r@),
        covers_prefix(keys_view(entries@), r@, entries@.len() as int),
        latest_in_prefix(keys_view(entries@), r@, entries@.len() as int),
        newest_first(keys_view(entries@), r@),
{
    let ghost es = keys_view(entries@);
    let kept = latest_per_video(entries);
    let sorted = sort_newest_first(entries, &kept);
    proof {
        let n = es.len() as int;
        assert forall|k: int| 0 <= k < sorted@.len() implies #[trigger] sorted@[k] < es.len() by {
            let kk = choose|kk: int| 0 <= kk < kept@.len() && #[trigger] sorted@[k] == kept@[kk];
        }
        assert forall|i: int| 0 <= i < n implies #[trigger] has_video(es, sorted@, es[i].0) by {
            assert(has_video(es, kept@, es[i].0));
            let k = choose|k: int| 0 <= k < kept@.len() && es[#[trigger] kept@[k] as int].0 == es[i].0;
            let m = choose|m: int| 0 <= m < sorted@.len() && sorted@[m] == #[trigger] kept@[k];
            assert(es[sorted@[m] as int].0 == es[i].0);
        }
        assert forall|m: int, i: int|
            0 <= m < sorted@.len() && 0 <= i < n && (#[trigger] es[i]).0 == es[#[trigger] sorted@[m] as int].0 implies es[i].1
            <= es[sorted@[m] as int].1 && (i < sorted@[m] ==> es[i].1 < es[sorted@[m] as int].1) by {
            let k = choose|k: int| 0 <= k < kept@.len() && #[trigger] sorted@[m] == kept@[k];
            assert(es[i].0 == es[kept@[k] as int].0);
        }
    }
    sorted
}

/// The most recent resumable session of each video that has one, newest
/// first: sessions not marked resumable are passed over, so a later session
/// that is not resumable (a quick quit, say) does not hide an earlier one
/// that is. For each such video the first of its resumable sessions with
/// the latest end is kept. Returns the kept sessions' indices.
pub fn latest_resumable(entries: &Vec<HistoryKey>, resumable: &Vec<bool>) -> (r: Vec<usize>)
    requires
        resumable@.len() == entries@.len(),
    ensures
        indices_valid(keys_view(entries@), r@),
        forall|k: int| 0 <= k < r@.len() ==> resumable@[#[trigger] r@[k] as int],
        distinct_videos(keys_view(entries@), r@),
        forall|i: int|
            0 <= i < entries@.len() && resumable@[i] ==> #[trigger] has_video(
                keys_view(entries@),
                r@,
                keys_view(entries@)[i].0,
            ),
        forall|k: int, i: int|
            0 <= k < r@.len() && 0 <= i < entries@.len() && resumable@[i] && (#[trigger] keys_view(
                entries@,
            )[i]).0 == keys_view(entries@)[#[trigger] r@[k] as int].0 ==> keys_view(entries@)[i].1
                <= keys_view(entries@)[r@[k] as int].1 && (i < r@[k] ==> keys_view(entries@)[i].1
                < keys_view(entries@)[r@[k] as int].1),
        newest_first(keys_view(entries@), r@),
{
    let ghost es = keys_view(entries@);
    let mut sub: Vec<HistoryKey> = Vec::new();
    let mut map: Vec<usize> = Vec::new();
    let mut i: usize = 0;
    while i < entries.len()
        invariant
            i <= entries@.len(),
            resumable@.len() == entries@.len(),
            es == keys_view(entries@),
            sub@.len() == map@.len(),
            forall|j: int| 0 <= j < map@.len() ==> #[trigger] map@[j] < i,
            forall|j: int| 0 <= j < map@.len() ==> resumable@[#[trigger] map@[j] as int],
            forall|j: int| 0 <= j < map@.len() ==> #[trigger] keys_view(sub@)[j] == es[map@[j] as int],
            forall|j1: int, j2: int| 0 <= j1 < j2 < map@.len() ==> #[trigger] map@[j1] < #[trigger] map@[j2],
            forall|i2: int|
                0 <= i2 < i && resumable@[i2] ==> exists|j: int| 0 <= j < map@.len() && #[trigger] map@[j] == i2,
        decreases entries@.len() - i,
    {
        let ghost old_map = map@;
        if resumable[i] {
            let ghost old_sub = sub@;
            let key = HistoryKey { video_id: entries[i].video_id.clone(), ts_end: entries[i].ts_end };
            assert(key@ == es[i as int]);
            sub.push(key);
            map.push(i);
            assert(map@[map@.len() - 1] == i);
            assert forall|j: int| 0 <= j < map@.len() implies #[trigger] keys_view(sub@)[j] == es[map@[j] as int] by {
                if j < old_map.len() {
                    assert(map@[j] == old_map[j]);
                    assert(sub@[j] == old_sub[j]);
                    assert(keys_view(old_sub)[j] == old_sub[j]@);
                } else {
                    assert(sub@[j]@ == es[i as int]);
                }
            }
        }
        assert forall|i2: int|
            0 <= i2 < i + 1 && resumable@[i2] implies exists|j: int| 0 <= j < map@.len() && #[trigger] map@[j] == i2 by {
            if i2 < i {
                let j = choose|j: int| 0 <= j < old_map.len() && #[trigger] old_map[j] == i2;
                assert(map@[j] == i2);
            } else {
                assert(map@[map@.len() - 1] == i2);
            }
        }
        i += 1;
    }
    let ghost ss = keys_view(sub@);
    let d = dedup_history(&sub);
    let mut r: Vec<usize> = Vec::new();
    let mut k: usize = 0;
    while k < d.len()
        invariant
            k <= d@.len(),
            r@.len() == k,
            ss == keys_view(sub@),
            sub@.len() == map@.len(),
            indices_valid(ss, d@),
            forall|m: int| 0 <= m < k ==> #[trigger] r@[m] == map@[d@[m] as int],
        decreases d@.len() - k,
    {
        r.push(map[d[k]]);
        k += 1;
    }
    proof {
        assert forall|m: int| 0 <= m < r@.len() implies #[trigger] r@[m] < es.len() && resumable@[r@[m] as int]
            && es[r@[m] as int] == ss[d@[m] as int] by {
            assert(d@[m] < ss.len());
        }
        assert forall|k1: int, k2: int|
            0 <= k1 < r@.len() && 0 <= k2 < r@.len() && k1 != k2 implies es[#[trigger] r@[k1] as int].0
                != es[#[trigger] r@[k2] as int].0 by {
            assert(ss[d@[k1] as int].0 != ss[d@[k2] as int].0);
        }
        assert forall|i2: int|
            0 <= i2 < entries@.len() && resumable@[i2] implies #[trigger] has_video(es, r@, es[i2].0) by {
            let j = choose|j: int| 0 <= j < map@.len() && #[trigger] map@[j] == i2;
            assert(has_video(ss, d@, ss[j].0));
            let m = choose|m: int| 0 <= m < d@.len() && ss[#[trigger] d@[m] as int].0 == ss[j].0;
            assert(es[r@[m] as int].0 == es[i2].0);
        }
        assert forall|m: int, i2: int|
            0 <= m < r@.len() && 0 <= i2 < entries@.len() && resumable@[i2] && (#[trigger] es[i2]).0
                == es[#[trigger] r@[m] as int].0 implies es[i2].1 <= es[r@[m] as int].1 && (i2 < r@[m]
                ==> es[i2].1 < es[r@[m] as int].1) by {
            let j = choose|j: int| 0 <= j < map@.len() && #[trigger] map@[j] == i2;
            let dj = d@[m] as int;
            assert(ss[j] == es[i2]);
            assert(ss[dj] == es[r@[m] as int]);
            assert(ss[j].0 == ss[dj].0);
            if i2 < r@[m] {
                if j >= dj {
                    if j > dj {
                        assert(map@[dj] < map@[j]);
                    }
                }
                assert(j < dj);
            }
        }
        assert forall|k1: int, k2: int| 0 <= k1 < k2 < r@.len() implies es[#[trigger] r@[k1] as int].1
            >= es[#[trigger] r@[k2] as int].1 by {
            assert(ss[d@[k1] as int].1 >= ss[d@[k2] as int].1);
        }
    }
    r
}

/// `ids` holds `id`.
pub open spec fn holds_id(ids: Seq<Seq<char>>, id: Seq<char>) -> bool {
    exists|j: int| 0 <= j < ids.len() && ids[j] == id
}

/// Whether `id` is one of `ids`.
pub fn contains_id(ids: &Vec<String>, id: &str) -> (b: bool)
    ensures
        b == holds_id(strings_view(ids@), id@),
{
    let id_s = id.to_owned();
    let mut i: usize = 0;
    while i < ids.len()
        invariant
            i <= ids.len(),
            id_s@ == id@,
            forall|j: int| 0 <= j < i ==> strings_view(ids@)[j] != id@,
        decreases ids.len() - i,
    {
        if ids[i] == id_s {
            assert(strings_view(ids@)[i as int] == id@);
            return true;
        }
        i += 1;
    }
    false
}

/// The indices, in order, of the items whose id is not among `seen`.
pub fn filter_unseen(ids: &Vec<String>, seen: &Vec<String>) -> (r: Vec<usize>)
    ensures
        forall|k: int|
            0 <= k < r@.len() ==> #[trigger] r@[k] < ids@.len() && !holds_id(
                strings_view(seen@),
                ids@[r@[k] as int]@,
            ),
        forall|k1: int, k2: int| 0 <= k1 < k2 < r@.len() ==> #[trigger] r@[k1] < #[trigger] r@[k2],
        forall|i: int|
            0 <= i < ids@.len() && !holds_id(strings_view(seen@), ids@[i]@) ==> exists|k: int|
                0 <= k < r@.len() && #[trigger] r@[k] == i,
{
    let mut r: Vec<usize> = Vec::new();
    let mut i: usize = 0;
    while i < ids.len()
        invariant
            i <= ids.len(),
            forall|k: int|
                0 <= k < r@.len() ==> #[trigger] r@[k] < i && !holds_id(
                    strings_view(seen@),
                    ids@[r@[k] as int]@,
                ),
            forall|k1: int, k2: int| 0 <= k1 < k2 < r@.len() ==> #[trigger] r@[k1] < #[trigger] r@[k2],
            forall|j: int|
                0 <= j < i && !holds_id(strings_view(seen@), ids@[j]@) ==> exists|k: int|
                    0 <= k < r@.len() && #[trigger] r@[k] == j,
        decreases ids.len() - i,
    {
        let ghost old_r = r@;
        if !contains_id(seen, ids[i].as_str()) {
            r.push(i);
            assert(r@[r@.len() - 1] == i);
        }
        assert forall|j: int|
            0 <= j < i + 1 && !holds_id(strings_view(seen@), ids@[j]@) implies exists|k: int|
                0 <= k < r@.len() && #[trigger] r@[k] == j by {
            if j < i {
                let k = choose|k: int| 0 <= k < old_r.len() && #[trigger] old_r[k] == j;
                assert(r@[k] == j);
            } else {
                assert(r@[r@.len() - 1] == j);
            }
        }
        i += 1;
    }
    r
}

/// The indices, in order, of the first occurrence of each distinct id:
/// merging several lists into one without duplicates keeps these.
pub fn first_occurrences(ids: &Vec<String>) -> (r: Vec<usize>)
    ensures
        forall|k: int| 0 <= k < r@.len() ==> #[trigger] r@[k] < ids@.len(),
        forall|k1: int, k2: int| 0 <= k1 < k2 < r@.len() ==> #[trigger] r@[k1] < #[trigger] r@[k2],
        forall|i: int|
            0 <= i < ids@.len() ==> ((exists|k: int| 0 <= k < r@.len() && #[trigger] r@[k] == i)
                <==> !holds_id(strings_view(ids@).subrange(0, i), ids@[i]@)),
{
    let mut r: Vec<usize> = Vec::new();
    let mut seen: Vec<String> = Vec::new();
    let mut i: usize = 0;
    while i < ids.len()
        invariant
            i <= ids.len(),
            strings_view(seen@) == strings_view(ids@).subrange(0, i as int),
            forall|k: int| 0 <= k < r@.len() ==> #[trigger] r@[k] < i,
            forall|k1: int, k2: int| 0 <= k1 < k2 < r@.len() ==> #[trigger] r@[k1] < #[trigger] r@[k2],
            forall|j: int|
                0 <= j < i ==> ((exists|k: int| 0 <= k < r@.len() && #[trigger] r@[k] == j)
                    <==> !holds_id(strings_view(ids@).subrange(0, j), ids@[j]@)),
        decreases ids.len() - i,
    {
        let ghost old_r = r@;
        let ghost old_seen = seen@;
        let first = !contains_id(&seen, ids[i].as_str());
        if first {
            r.push(i);
            assert(r@[r@.len() - 1] == i);
        }
        assert forall|j: int| 0 <= j < i + 1 implies ((exists|k: int| 0 <= k < r@.len() && #[trigger] r@[k] == j)
            <==> !holds_id(strings_view(ids@).subrange(0, j), ids@[j]@)) by {
            if j < i {
                if exists|k: int| 0 <= k < r@.len() && #[trigger] r@[k] == j {
                    let k = choose|k: int| 0 <= k < r@.len() && #[trigger] r@[k] == j;
                    if k < old_r.len() {
                        assert(old_r[k] == j);
                    }
                }
                if exists|k: int| 0 <= k < old_r.len() && #[trigger] old_r[k] == j {
                    let k = choose|k: int| 0 <= k < old_r.len() && #[trigger] old_r[k] == j;
                    assert(r@[k] == j);
                }
            } else {
                assert(strings_view(ids@).subrange(0, j) == strings_view(seen@));
                if first {
                    assert(r@[r@.len() - 1] == j);
                } else {
                    if exists|k: int| 0 <= k < r@.len() && #[trigger] r@[k] == j {
                        let k = choose|k: int| 0 <= k < r@.len() && #[trigger] r@[k] == j;
                        assert(old_r[k] < i);
                    }
                }
            }
        }
        let c = ids[i].clone();
        seen.push(c);
        assert(strings_view(seen@) =~= strings_view(old_seen).push(c@));
        assert(strings_view(seen@) =~= strings_view(ids@).subrange(0, i + 1));
        i += 1;
    }
    r
}

/// The ids merged so far while playlists and configured videos are merged
/// into one pool.
#[derive(Debug)]
pub struct MergedIds {
    ids: Vec<String>,
}

impl MergedIds {
    /// Whether `id` has been merged.
    pub closed spec fn holds(&self, id: Seq<char>) -> bool {
        holds_id(strings_view(self.ids@), id)
    }

    /// Starts from the ids merged from the playlists.
    pub fn from_ids(ids: &Vec<String>) -> (m: Self)
        ensures
            forall|id: Seq<char>| m.holds(id) <==> holds_id(strings_view(ids@), id),
    {
        let mut v: Vec<String> = Vec::new();
        let mut i: usize = 0;
        while i < ids.len()
            invariant
                i <= ids.len(),
                strings_view(v@) == strings_view(ids@).subrange(0, i as int),
            decreases ids.len() - i,
        {
            let ghost old_v = v@;
            let c = ids[i].clone();
            v.push(c);
            assert(strings_view(v@) =~= strings_view(old_v).push(c@));
            assert(strings_view(v@) =~= strings_view(ids@).subrange(0, i + 1));
            i += 1;
        }
        assert(strings_view(ids@).subrange(0, ids@.len() as int) =~= strings_view(ids@));
        MergedIds { ids: v }
    }

    /// Whether a configured video is still to be loaded: exactly when its id
    /// has not been merged.
    pub fn should_load(&self, video_id: &str) -> (b: bool)
        ensures
            b == !self.holds(video_id@),
    {
        !contains_id(&self.ids, video_id)
    }

    /// Records how loading a configured video went: the id of an item that
    /// loaded joins the merged ids, and the item is to be pushed; a video
    /// that failed to load changes nothing (so a later entry with the same
    /// id is still loaded).
    pub fn record_load(&mut self, loaded_id: Option<String>) -> (push: bool)
        ensures
            push == loaded_id is Some,
            forall|id: Seq<char>|
                final(self).holds(id) <==> (old(self).holds(id) || (loaded_id matches Some(l) && id
                    == l@)),
    {
        match loaded_id {
            Some(l) => {
                let ghost old_ids = self.ids@;
                let ghost lv = l@;
                self.ids.push(l);
                assert(strings_view(self.ids@) =~= strings_view(old_ids).push(lv));
                assert forall|id: Seq<char>|
                    holds_id(strings_view(self.ids@), id) <==> (holds_id(strings_view(old_ids), id)
                        || id == lv) by {
                    let n = old_ids.len() as int;
                    if holds_id(strings_view(old_ids), id) {
                        let j = choose|j: int| 0 <= j < n && strings_view(old_ids)[j] == id;
                        assert(strings_view(self.ids@)[j] == id);
                    }
                    if id == lv {
                        assert(strings_view(self.ids@)[n] == id);
                    }
                    if holds_id(strings_view(self.ids@), id) {
                        let j = choose|j: int| 0 <= j < n + 1 && strings_view(self.ids@)[j] == id;
                        if j < n {
                            assert(strings_view(old_ids)[j] == id);
                        }
                    }
                }
                true
            },
            None => false,
        }
    }
}

/// A history line belongs to video `id`: it reads as a session of that
/// video (`None` stands for a line that does not read as a session).
pub open spec fn line_of(line_id: Option<Seq<char>>, id: Seq<char>) -> bool {
    line_id == Some(id)
}

/// The views of the lines' video ids.
pub open spec fn line_ids_view(ls: Seq<Option<String>>) -> Seq<Option<Seq<char>>> {
    ls.map_values(
        |l: Option<String>|
            match l {
                Some(s) => Some(s@),
                None => None,
            },
    )
}

/// Forgetting a video in the history: given the video id that each line
/// reads as (`None` for a line that does not read as a session), the
/// indices, in order, of the lines that stay, and how many are dropped.
/// Lines of that video are dropped; every other line stays, unreadable
/// ones included.
pub fn forget_lines(line_ids: &Vec<Option<String>>, video_id: &str) -> (r: (Vec<usize>, usize))
    ensures
        forall|k: int| 0 <= k < r.0@.len() ==> #[trigger] r.0@[k] < line_ids@.len(),
        forall|k1: int, k2: int| 0 <= k1 < k2 < r.0@.len() ==> #[trigger] r.0@[k1] < #[trigger] r.0@[k2],
        forall|i: int|
            #![trigger line_ids_view(line_ids@)[i]]
            0 <= i < line_ids@.len() ==> ((exists|k: int| 0 <= k < r.0@.len() && #[trigger] r.0@[k] == i)
                <==> !line_of(line_ids_view(line_ids@)[i], video_id@)),
        r.1 + r.0@.len() == line_ids@.len(),
{
    let id = video_id.to_owned();
    let mut kept: Vec<usize> = Vec::new();
    let mut dropped: usize = 0;
    let mut i: usize = 0;
    while i < line_ids.len()
        invariant
            i <= line_ids@.len(),
            id@ == video_id@,
            dropped + kept@.len() == i,
            forall|k: int| 0 <= k < kept@.len() ==> #[trigger] kept@[k] < i,
            forall|k1: int, k2: int| 0 <= k1 < k2 < kept@.len() ==> #[trigger] kept@[k1] < #[trigger] kept@[k2],
            forall|j: int|
                #![trigger line_ids_view(line_ids@)[j]]
                0 <= j < i ==> ((exists|k: int| 0 <= k < kept@.len() && #[trigger] kept@[k] == j)
                    <==> !line_of(line_ids_view(line_ids@)[j], video_id@)),
        decreases line_ids@.len() - i,
    {
        let ghost old_kept = kept@;
        let mine = match &line_ids[i] {
            Some(l) => *l == id,
            None => false,
        };
        assert(mine == line_of(line_ids_view(line_ids@)[i as int], video_id@));
        if mine {
            dropped += 1;
        } else {
            kept.push(i);
            assert(kept@[kept@.len() - 1] == i);
        }
        assert forall|j: int| #![trigger line_ids_view(line_ids@)[j]] 0 <= j < i + 1 implies ((exists|k: int|
            0 <= k < kept@.len() && #[trigger] kept@[k] == j) <==> !line_of(
            line_ids_view(line_ids@)[j],
            video_id@,
        )) by {
            if j < i {
                if exists|k: int| 0 <= k < kept@.len() && #[trigger] kept@[k] == j {
                    let k = choose|k: int| 0 <= k < kept@.len() && #[trigger] kept@[k] == j;
                    if k < old_kept.len() {
                        assert(old_kept[k] == j);
                    }
                }
                if exists|k: int| 0 <= k < old_kept.len() && #[trigger] old_kept[k] == j {
                    let k = choose|k: int| 0 <= k < old_kept.len() && #[trigger] old_kept[k] == j;
                    assert(kept@[k] == j);
                }
            } else {
                if mine {
                    if exists|k: int| 0 <= k < kept@.len() && #[trigger] kept@[k] == j {
                        let k = choose|k: int| 0 <= k < kept@.len() && #[trigger] kept@[k] == j;
                        assert(old_kept[k] < i);
                    }
                } else {
                    assert(kept@[kept@.len() - 1] == j);
                }
            }
        }
        i += 1;
    }
    let r = (kept, dropped);
    assert forall|j: int|
        #![trigger line_ids_view(line_ids@)[j]]
        0 <= j < line_ids@.len() implies ((exists|k: int| 0 <= k < r.0@.len() && #[trigger] r.0@[k] == j)
            <==> !line_of(line_ids_view(line_ids@)[j], video_id@)) by {
        assert(r.0@ == kept@);
    }
    r
}

/// The indices of the last `limit` of `len` sessions, most recent first:
/// `len - 1`, `len - 2`, and so on, at most `limit` of them.
pub fn recent_window(len: usize, limit: usize) -> (r: Vec<usize>)
    ensures
        r@.len() == if len > limit {
            limit
        } else {
            len
        },
        forall|k: int| 0 <= k < r@.len() ==> #[trigger] r@[k] == len - 1 - k,
{
    let start = len.saturating_sub(limit);
    let mut r: Vec<usize> = Vec::new();
    let mut i: usize = len;
    while i > start
        invariant
            start <= i <= len,
            start == if len > limit {
                len - limit
            } else {
                0
            },
            r@.len() == len - i,
            forall|k: int| 0 <= k < r@.len() ==> #[trigger] r@[k] == len - 1 - k,
        decreases i,
    {
        i -= 1;
        r.push(i);
    }
    r
}

} // verus!
