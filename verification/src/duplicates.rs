//! Duplicate-file detection: a three-pass filter over file metadata.
//!
//! The embedding application walks the configured directories and
//! reports each file's path and size. Pass one selects files whose
//! size has at least one same-sized partner inside the configured
//! size window; only those are worth hashing. Pass two, given the
//! partial (leading-bytes) digests, selects files whose partial
//! digest matches a same-sized partner; only those get a full-content
//! digest. The final pass confirms duplicates by full digest and
//! reports, for every group of matching files, all but the
//! first-discovered member.

use vstd::prelude::*;
use crate::cleaner::{ScanEntry, ScanResult, sum_sizes, lemma_sum_split, lemma_sum_nonneg};
use crate::hashing::opt_digest_eq;
use crate::strings::{str_eq, spec_ends_with_ci, ends_with_ci, concat_str};

verus! {

/// Smallest file size considered for deduplication (1 MB): below this
/// the hashing overhead outweighs the savings.
pub const MIN_SIZE: u64 = 1_048_576;

/// Largest file size considered for deduplication (500 MB): above
/// this the hashing cost dominates.
pub const MAX_SIZE: u64 = 500_000_000;

/// Bytes hashed by the partial pass (the file's first 4 KB).
pub const PARTIAL_READ: usize = 4096;

/// Chunk size for streaming the full-content hash.
pub const FULL_READ_CHUNK: usize = 65536;

/// Maximum directory depth the walk descends to.
pub const MAX_DEPTH: usize = 8;

/// One file discovered by the walk, in traversal order.
pub struct FileMeta {
    pub path: String,
    pub size: u64,
}

impl Clone for FileMeta {
    fn clone(&self) -> (r: Self)
        ensures
            r.path@ == self.path@,
            r.size == self.size,
    {
        FileMeta { path: self.path.clone(), size: self.size }
    }
}

/// The configured size window.
pub open spec fn in_size_range(size: u64) -> bool {
    MIN_SIZE <= size <= MAX_SIZE
}

/// No two files share a path (the walk yields each path once).
pub open spec fn distinct_paths(files: Seq<FileMeta>) -> bool {
    forall|i: int, j: int| 0 <= i < j < files.len() ==> files[i].path@ != files[j].path@
}

/// Files `i` and `j` agree on everything the pipeline compares: size
/// (inside the window), partial digest, and full digest, with both
/// digests present.
pub open spec fn hash_match(
    files: Seq<FileMeta>,
    partials: Seq<Option<Vec<u8>>>,
    fulls: Seq<Option<Vec<u8>>>,
    i: int,
    j: int,
) -> bool {
    &&& files[i].size == files[j].size
    &&& in_size_range(files[i].size)
    &&& partials[i] is Some
    &&& partials[j] is Some
    &&& partials[i]->0@ == partials[j]->0@
    &&& fulls[i] is Some
    &&& fulls[j] is Some
    &&& fulls[i]->0@ == fulls[j]->0@
}

/// File `j` fully matches some file discovered before it. This is the
/// exact condition under which `j` is reported as a duplicate.
pub open spec fn has_earlier_match(
    files: Seq<FileMeta>,
    partials: Seq<Option<Vec<u8>>>,
    fulls: Seq<Option<Vec<u8>>>,
    j: int,
) -> bool {
    exists|i: int| 0 <= i < j && hash_match(files, partials, fulls, i, j)
}

/// Some entry carries path `p`.
pub open spec fn contains_path(entries: Seq<ScanEntry>, p: Seq<char>) -> bool {
    exists|k: int| 0 <= k < entries.len() && entries[k].path@ == p
}

/// Entry `e` stands for some file discovered before `bound` that has
/// an earlier match: same path, same size, and genuinely a duplicate.
pub open spec fn entry_from_matched_file(
    files: Seq<FileMeta>,
    partials: Seq<Option<Vec<u8>>>,
    fulls: Seq<Option<Vec<u8>>>,
    e: ScanEntry,
    bound: int,
) -> bool {
    exists|k: int|
        #![trigger files[k]]
        0 <= k < bound && e.path@ == files[k].path@ && e.size_bytes == files[k].size
            && has_earlier_match(files, partials, fulls, k)
}

/// Entry sizes never increase left to right.
pub open spec fn sorted_desc(s: Seq<ScanEntry>) -> bool {
    forall|i: int, j: int| 0 <= i < j < s.len() ==> s[i].size_bytes >= s[j].size_bytes
}

/// All entry paths are distinct.
pub open spec fn entries_distinct(s: Seq<ScanEntry>) -> bool {
    forall|i: int, j: int| 0 <= i < j < s.len() ==> s[i].path@ != s[j].path@
}

/// Exact sum of the sizes of a file list.
pub open spec fn sum_file_sizes(s: Seq<FileMeta>) -> int
    decreases s.len(),
{
    if s.len() == 0 {
        0
    } else {
        s[0].size + sum_file_sizes(s.drop_first())
    }
}

pub proof fn lemma_sum_file_sizes_nonneg(s: Seq<FileMeta>)
    ensures
        sum_file_sizes(s) >= 0,
    decreases s.len(),
{
    if s.len() > 0 {
        lemma_sum_file_sizes_nonneg(s.drop_first());
    }
}

proof fn lemma_sum_file_sizes_split(s: Seq<FileMeta>, i: int)
    requires
        0 <= i <= s.len(),
    ensures
        sum_file_sizes(s) == sum_file_sizes(s.take(i)) + sum_file_sizes(s.skip(i)),
    decreases i,
{
    if i == 0 {
        assert(s.take(0) =~= Seq::<FileMeta>::empty());
        assert(s.skip(0) =~= s);
    } else {
        lemma_sum_file_sizes_split(s.drop_first(), i - 1);
        assert(s.take(i).drop_first() =~= s.drop_first().take(i - 1));
        assert(s.skip(i) =~= s.drop_first().skip(i - 1));
    }
}

proof fn lemma_sum_file_take_succ(s: Seq<FileMeta>, i: int)
    requires
        0 <= i < s.len(),
    ensures
        sum_file_sizes(s.take(i + 1)) == sum_file_sizes(s.take(i)) + s[i].size,
{
    lemma_sum_file_sizes_split(s.take(i + 1), i);
    assert(s.take(i + 1).take(i) =~= s.take(i));
    assert(s.take(i + 1).skip(i) =~= seq![s[i]]);
    assert(sum_file_sizes(seq![s[i]]) == s[i].size + sum_file_sizes(seq![s[i]].drop_first()));
    assert(seq![s[i]].drop_first() =~= Seq::<FileMeta>::empty());
}

proof fn lemma_sum_file_take_le(s: Seq<FileMeta>, i: int)
    requires
        0 <= i <= s.len(),
    ensures
        sum_file_sizes(s.take(i)) <= sum_file_sizes(s),
{
    lemma_sum_file_sizes_split(s, i);
    lemma_sum_file_sizes_nonneg(s.skip(i));
}

/// Sum of entry sizes distributes over concatenation.
proof fn lemma_sum_concat(a: Seq<ScanEntry>, b: Seq<ScanEntry>)
    ensures
        sum_sizes(a + b) == sum_sizes(a) + sum_sizes(b),
    decreases a.len(),
{
    if a.len() == 0 {
        assert(a + b =~= b);
    } else {
        lemma_sum_concat(a.drop_first(), b);
        assert((a + b).drop_first() =~= a.drop_first() + b);
        assert((a + b)[0] == a[0]);
    }
}

/// Pushing an element onto a sequence keeps every old element and adds
/// the new one.
proof fn lemma_push_contains<T>(s: Seq<T>, x: T, y: T)
    ensures
        s.push(x).contains(y) == (s.contains(y) || x == y),
{
    if s.contains(y) {
        let i = choose|i: int| 0 <= i < s.len() && s[i] == y;
        assert(s.push(x)[i] == y);
    }
    if x == y {
        assert(s.push(x)[s.len() as int] == y);
    }
    if s.push(x).contains(y) {
        let i = choose|i: int| 0 <= i < s.push(x).len() && s.push(x)[i] == y;
        if i < s.len() {
            assert(s[i] == y);
        }
    }
}

/// Whether file `k` has a same-sized partner inside the size window;
/// only such files are worth a partial hash.
pub open spec fn is_size_candidate(files: Seq<FileMeta>, k: int) -> bool {
    &&& in_size_range(files[k].size)
    &&& exists|j: int| 0 <= j < files.len() && j != k && files[j].size == files[k].size
}

/// Exec test for the size window.
fn exec_in_size_range(size: u64) -> (r: bool)
    ensures
        r == in_size_range(size),
{
    MIN_SIZE <= size && size <= MAX_SIZE
}

/// Whether any other file shares file `k`'s size.
fn has_size_partner(files: &Vec<FileMeta>, k: usize) -> (r: bool)
    requires
        k < files@.len(),
    ensures
        r == exists|j: int| 0 <= j < files@.len() && j != k && files@[j].size == files@[
            k as int
        ].size,
{
    let n = files.len();
    let mut j: usize = 0;
    let mut found = false;
    while j < n
        invariant
            0 <= j <= n,
            n == files@.len(),
            k < n,
            found == exists|jj: int| 0 <= jj < j && jj != k && files@[jj].size == files@[
                k as int
            ].size,
        decreases n - j,
    {
        if j != k && files[j].size == files[k].size {
            found = true;
            proof {
                assert(0 <= j < j + 1 && j != k && files@[j as int].size == files@[k as int].size);
            }
        }
        j = j + 1;
    }
    found
}

/// Pass one: indices of the files that need a partial hash — those
/// whose size falls in the window and is shared with another file.
/// Files of unique size are never hashed at all.
pub fn size_candidates(files: &Vec<FileMeta>) -> (c: Vec<usize>)
    ensures
        forall|m: int|
            0 <= m < c@.len() ==> c@[m] < files@.len() && is_size_candidate(
                files@,
                c@[m] as int,
            ),
        forall|k: int|
            0 <= k < files@.len() && is_size_candidate(files@, k) ==> c@.contains(k as usize),
        forall|m1: int, m2: int| 0 <= m1 < m2 < c@.len() ==> c@[m1] < c@[m2],
{
    let n = files.len();
    let mut c: Vec<usize> = Vec::new();
    let mut k: usize = 0;
    while k < n
        invariant
            0 <= k <= n,
            n == files@.len(),
            forall|m: int|
                0 <= m < c@.len() ==> c@[m] < k && is_size_candidate(files@, c@[m] as int),
            forall|kk: int|
                0 <= kk < k && is_size_candidate(files@, kk) ==> c@.contains(kk as usize),
            forall|m1: int, m2: int| 0 <= m1 < m2 < c@.len() ==> c@[m1] < c@[m2],
        decreases n - k,
    {
        let ghost pre = c@;
        let cand = exec_in_size_range(files[k].size) && has_size_partner(files, k);
        if cand {
            c.push(k);
        }
        proof {
            assert forall|kk: int|
                0 <= kk < k + 1 && is_size_candidate(files@, kk) implies c@.contains(
                kk as usize,
            ) by {
                if cand {
                    lemma_push_contains(pre, k as usize, kk as usize);
                }
                if kk < k {
                    assert(pre.contains(kk as usize));
                }
            }
        }
        k = k + 1;
    }
    c
}

/// Whether file `k`, with its partial digest known, shares size and
/// partial digest with another hashed file; only such files are worth
/// a full-content hash.
pub open spec fn is_partial_candidate(
    files: Seq<FileMeta>,
    partials: Seq<Option<Vec<u8>>>,
    k: int,
) -> bool {
    &&& in_size_range(files[k].size)
    &&& partials[k] is Some
    &&& exists|j: int|
        0 <= j < files.len() && j != k && files[j].size == files[k].size && partials[j] is Some
            && partials[j]->0@ == partials[k]->0@
}

/// Whether any other hashed file shares file `k`'s size and partial
/// digest.
fn has_partial_partner(files: &Vec<FileMeta>, partials: &Vec<Option<Vec<u8>>>, k: usize) -> (r:
    bool)
    requires
        partials@.len() == files@.len(),
        k < files@.len(),
        partials@[k as int] is Some,
    ensures
        r == exists|j: int|
            0 <= j < files@.len() && j != k && files@[j].size == files@[k as int].size
                && partials@[j] is Some && partials@[j]->0@ == partials@[k as int]->0@,
{
    let n = files.len();
    let mut j: usize = 0;
    let mut found = false;
    while j < n
        invariant
            0 <= j <= n,
            n == files@.len(),
            partials@.len() == files@.len(),
            k < n,
            partials@[k as int] is Some,
            found == exists|jj: int|
                0 <= jj < j && jj != k && files@[jj].size == files@[k as int].size && partials@[jj]
                    is Some && partials@[jj]->0@ == partials@[k as int]->0@,
        decreases n - j,
    {
        if j != k && files[j].size == files[k].size && opt_digest_eq(&partials[j], &partials[k]) {
            found = true;
            proof {
                assert(0 <= j < j + 1 && j != k && files@[j as int].size == files@[k as int].size
                    && partials@[j as int] is Some && partials@[j as int]->0@ == partials@[
                    k as int
                ]->0@);
            }
        }
        j = j + 1;
    }
    found
}

/// Pass two: indices of the files that need a full hash — those whose
/// partial digest collides with a same-sized partner's.
pub fn partial_candidates(files: &Vec<FileMeta>, partials: &Vec<Option<Vec<u8>>>) -> (c: Vec<
    usize,
>)
    requires
        partials@.len() == files@.len(),
    ensures
        forall|m: int|
            0 <= m < c@.len() ==> c@[m] < files@.len() && is_partial_candidate(
                files@,
                partials@,
                c@[m] as int,
            ),
        forall|k: int|
            0 <= k < files@.len() && is_partial_candidate(files@, partials@, k) ==> c@.contains(
                k as usize,
            ),
        forall|m1: int, m2: int| 0 <= m1 < m2 < c@.len() ==> c@[m1] < c@[m2],
{
    let n = files.len();
    let mut c: Vec<usize> = Vec::new();
    let mut k: usize = 0;
    while k < n
        invariant
            0 <= k <= n,
            n == files@.len(),
            partials@.len() == files@.len(),
            forall|m: int|
                0 <= m < c@.len() ==> c@[m] < k && is_partial_candidate(
                    files@,
                    partials@,
                    c@[m] as int,
                ),
            forall|kk: int|
                0 <= kk < k && is_partial_candidate(files@, partials@, kk) ==> c@.contains(
                    kk as usize,
                ),
            forall|m1: int, m2: int| 0 <= m1 < m2 < c@.len() ==> c@[m1] < c@[m2],
        decreases n - k,
    {
        let ghost pre = c@;
        let in_range = exec_in_size_range(files[k].size);
        let cand = in_range && partials[k].is_some() && has_partial_partner(files, partials, k);
        if cand {
            c.push(k);
        }
        proof {
            assert forall|kk: int|
                0 <= kk < k + 1 && is_partial_candidate(files@, partials@, kk) implies c@.contains(
                kk as usize,
            ) by {
                if cand {
                    lemma_push_contains(pre, k as usize, kk as usize);
                }
                if kk < k {
                    assert(pre.contains(kk as usize));
                }
            }
        }
        k = k + 1;
    }
    c
}

/// Exec test for a full pipeline match between two files.
fn hash_match_exec(
    files: &Vec<FileMeta>,
    partials: &Vec<Option<Vec<u8>>>,
    fulls: &Vec<Option<Vec<u8>>>,
    i: usize,
    j: usize,
) -> (r: bool)
    requires
        partials@.len() == files@.len(),
        fulls@.len() == files@.len(),
        i < files@.len(),
        j < files@.len(),
    ensures
        r == hash_match(files@, partials@, fulls@, i as int, j as int),
{
    files[i].size == files[j].size && exec_in_size_range(files[i].size) && opt_digest_eq(
        &partials[i],
        &partials[j],
    ) && opt_digest_eq(&fulls[i], &fulls[j])
}

/// Inserting a freshly matched entry at its sorted position preserves
/// every pipeline invariant and extends path membership by exactly the
/// new path.
proof fn lemma_report_insert(
    pre: Seq<ScanEntry>,
    pos: int,
    entry: ScanEntry,
    files: Seq<FileMeta>,
    partials: Seq<Option<Vec<u8>>>,
    fulls: Seq<Option<Vec<u8>>>,
    j: int,
)
    requires
        0 <= pos <= pre.len(),
        sorted_desc(pre),
        forall|kk: int| 0 <= kk < pos ==> pre[kk].size_bytes >= entry.size_bytes,
        pos < pre.len() ==> pre[pos].size_bytes < entry.size_bytes,
        forall|m: int|
            0 <= m < pre.len() ==> entry_from_matched_file(files, partials, fulls, pre[m], j),
        entries_distinct(pre),
        distinct_paths(files),
        0 <= j < files.len(),
        entry.path@ == files[j].path@,
        entry.size_bytes == files[j].size,
        has_earlier_match(files, partials, fulls, j),
    ensures
        sorted_desc(pre.take(pos) + seq![entry] + pre.skip(pos)),
        entries_distinct(pre.take(pos) + seq![entry] + pre.skip(pos)),
        forall|m: int|
            0 <= m < pre.len() + 1 ==> entry_from_matched_file(
                files,
                partials,
                fulls,
                (pre.take(pos) + seq![entry] + pre.skip(pos))[m],
                j + 1,
            ),
        forall|p: Seq<char>|
            contains_path(pre.take(pos) + seq![entry] + pre.skip(pos), p) == (contains_path(
                pre,
                p,
            ) || files[j].path@ == p),
        sum_sizes(pre.take(pos) + seq![entry] + pre.skip(pos)) == sum_sizes(pre)
            + entry.size_bytes,
{
    let s2 = pre.take(pos) + seq![entry] + pre.skip(pos);
    assert(s2.len() == pre.len() + 1);
    // index correspondence
    assert forall|m: int| 0 <= m < s2.len() implies (if m < pos {
        s2[m] == pre[m]
    } else if m == pos {
        s2[m] == entry
    } else {
        s2[m] == pre[m - 1]
    }) by {}
    // sum
    assert(s2 =~= pre.take(pos) + (seq![entry] + pre.skip(pos)));
    lemma_sum_concat(pre.take(pos), seq![entry] + pre.skip(pos));
    lemma_sum_concat(seq![entry], pre.skip(pos));
    lemma_sum_split(pre, pos);
    assert(sum_sizes(seq![entry]) == entry.size_bytes + sum_sizes(seq![entry].drop_first()));
    assert(seq![entry].drop_first() =~= Seq::<ScanEntry>::empty());
    // sortedness
    assert forall|a: int, b: int| 0 <= a < b < s2.len() implies s2[a].size_bytes
        >= s2[b].size_bytes by {
        if b == pos {
            assert(s2[a] == pre[a]);
        } else if a == pos && b > pos {
            assert(s2[b] == pre[b - 1]);
            if pos < pre.len() {
                assert(pre[pos].size_bytes < entry.size_bytes);
                if b - 1 > pos {
                    assert(pre[pos].size_bytes >= pre[b - 1].size_bytes);
                }
            }
        }
    }
    // correspondence
    assert forall|m: int| 0 <= m < s2.len() implies entry_from_matched_file(
        files,
        partials,
        fulls,
        s2[m],
        j + 1,
    ) by {
        if m < pos {
            assert(entry_from_matched_file(files, partials, fulls, pre[m], j));
        } else if m == pos {
            assert(0 <= j < j + 1 && entry.path@ == files[j].path@ && entry.size_bytes == files[
                j
            ].size && has_earlier_match(files, partials, fulls, j));
        } else {
            assert(entry_from_matched_file(files, partials, fulls, pre[m - 1], j));
        }
    }
    // the new entry's path is fresh among existing entries
    assert forall|m: int| 0 <= m < pre.len() implies pre[m].path@ != files[j].path@ by {
        assert(entry_from_matched_file(files, partials, fulls, pre[m], j));
        let kk = choose|kk: int|
            #![trigger files[kk]]
            0 <= kk < j && pre[m].path@ == files[kk].path@ && pre[m].size_bytes == files[kk].size
                && has_earlier_match(files, partials, fulls, kk);
        assert(files[kk].path@ != files[j].path@);
    }
    // distinctness
    assert forall|a: int, b: int| 0 <= a < b < s2.len() implies s2[a].path@ != s2[b].path@ by {
        if a == pos {
            assert(s2[b] == pre[b - 1]);
        } else if b == pos {
            assert(s2[a] == pre[a]);
        }
    }
    // membership
    assert forall|p: Seq<char>|
        contains_path(s2, p) == (contains_path(pre, p) || files[j].path@ == p) by {
        if contains_path(pre, p) {
            let k = choose|k: int| 0 <= k < pre.len() && pre[k].path@ == p;
            if k < pos {
                assert(s2[k].path@ == p);
            } else {
                assert(s2[k + 1].path@ == p);
            }
        }
        if files[j].path@ == p {
            assert(s2[pos].path@ == p);
        }
        if contains_path(s2, p) {
            let k = choose|k: int| 0 <= k < s2.len() && s2[k].path@ == p;
            if k < pos {
                assert(pre[k].path@ == p);
            } else if k > pos {
                assert(pre[k - 1].path@ == p);
            }
        }
    }
}

/// Pass three, with the report: given all three inputs, return the
/// confirmed duplicates. A file is reported exactly when some
/// earlier-discovered file matches it in size (inside the window),
/// partial digest, and full digest — so the first-discovered copy of
/// every duplicate group is kept, and every later copy is reported.
/// Entries are sorted by size descending, and the total is the exact
/// sum of the reported sizes.
#[verifier::rlimit(60)]
pub fn detect_duplicates(
    files: &Vec<FileMeta>,
    partials: &Vec<Option<Vec<u8>>>,
    fulls: &Vec<Option<Vec<u8>>>,
) -> (r: ScanResult)
    requires
        partials@.len() == files@.len(),
        fulls@.len() == files@.len(),
        distinct_paths(files@),
        sum_file_sizes(files@) <= u64::MAX,
    ensures
        forall|j: int|
            0 <= j < files@.len() ==> (contains_path(r.entries@, files@[j].path@)
                <==> has_earlier_match(files@, partials@, fulls@, j)),
        forall|m: int|
            0 <= m < r.entries@.len() ==> entry_from_matched_file(
                files@,
                partials@,
                fulls@,
                r.entries@[m],
                files@.len() as int,
            ),
        sorted_desc(r.entries@),
        entries_distinct(r.entries@),
        r.wf(),
        r.errors@.len() == 0,
{
    let n = files.len();
    let mut out: Vec<ScanEntry> = Vec::new();
    let mut j: usize = 0;
    proof {
        assert(files@.take(0) =~= Seq::<FileMeta>::empty());
    }
    while j < n
        invariant
            0 <= j <= n,
            n == files@.len(),
            partials@.len() == files@.len(),
            fulls@.len() == files@.len(),
            distinct_paths(files@),
            sum_file_sizes(files@) <= u64::MAX,
            sorted_desc(out@),
            forall|jj: int|
                0 <= jj < j ==> (contains_path(out@, files@[jj].path@) <==> has_earlier_match(
                    files@,
                    partials@,
                    fulls@,
                    jj,
                )),
            forall|m: int|
                0 <= m < out@.len() ==> entry_from_matched_file(
                    files@,
                    partials@,
                    fulls@,
                    out@[m],
                    j as int,
                ),
            entries_distinct(out@),
            sum_sizes(out@) <= sum_file_sizes(files@.take(j as int)),
        decreases n - j,
    {
        let ghost pre = out@;
        let mut found = false;
        let mut i: usize = 0;
        while i < j
            invariant
                0 <= i <= j,
                j < n,
                n == files@.len(),
                partials@.len() == files@.len(),
                fulls@.len() == files@.len(),
                found == exists|ii: int|
                    0 <= ii < i && hash_match(files@, partials@, fulls@, ii, j as int),
            decreases j - i,
        {
            if hash_match_exec(files, partials, fulls, i, j) {
                found = true;
                proof {
                    assert(0 <= i < i + 1 && hash_match(files@, partials@, fulls@, i as int,
                    j as int));
                }
            }
            i = i + 1;
        }
        proof {
            lemma_sum_file_take_succ(files@, j as int);
            lemma_sum_file_take_le(files@, j + 1);
        }
        if found {
            let entry = ScanEntry { path: files[j].path.clone(), size_bytes: files[j].size };
            let mut pos: usize = 0;
            while pos < out.len() && out[pos].size_bytes >= entry.size_bytes
                invariant
                    0 <= pos <= out@.len(),
                    j < n,
                    n == files@.len(),
                    entry.size_bytes == files@[j as int].size,
                    forall|kk: int| 0 <= kk < pos ==> out@[kk].size_bytes >= entry.size_bytes,
                decreases out@.len() - pos,
            {
                pos = pos + 1;
            }
            proof {
                lemma_report_insert(
                    pre,
                    pos as int,
                    entry,
                    files@,
                    partials@,
                    fulls@,
                    j as int,
                );
            }
            out.insert(pos, entry);
            proof {
                assert(out@ =~= pre.take(pos as int) + seq![entry] + pre.skip(pos as int));
                assert forall|jj: int| 0 <= jj < j + 1 implies (contains_path(
                    out@,
                    files@[jj].path@,
                ) <==> has_earlier_match(files@, partials@, fulls@, jj)) by {
                    assert(contains_path(out@, files@[jj].path@) == (contains_path(
                        pre,
                        files@[jj].path@,
                    ) || files@[j as int].path@ == files@[jj].path@));
                    if jj < j {
                        assert(files@[jj].path@ != files@[j as int].path@);
                    }
                }
            }
        } else {
            proof {
                if contains_path(out@, files@[j as int].path@) {
                    let m = choose|m: int|
                        0 <= m < out@.len() && out@[m].path@ == files@[j as int].path@;
                    assert(entry_from_matched_file(files@, partials@, fulls@, out@[m], j as int));
                    let kk = choose|kk: int|
                        #![trigger files@[kk]]
                        0 <= kk < j && out@[m].path@ == files@[kk].path@ && out@[m].size_bytes
                            == files@[kk].size && has_earlier_match(files@, partials@, fulls@, kk);
                    assert(files@[kk].path@ != files@[j as int].path@);
                }
            }
        }
        j = j + 1;
    }
    proof {
        assert(files@.take(n as int) =~= files@);
        lemma_sum_nonneg(out@);
    }
    let total = crate::cleaner::sum_entry_sizes(&out);
    ScanResult { entries: out, total_bytes: total, errors: Vec::new() }
}

/// Duplicate correctness: when an earlier file fully matches file `j`
/// (same size inside the window, same partial digest, same full
/// digest — the pipeline's stand-in for byte-identical content), file
/// `j` is reported by `detect_duplicates`; and a file that no earlier
/// file matches — in particular the first-discovered member of every
/// duplicate group — is never reported.
pub proof fn lemma_duplicate_correctness(
    files: Seq<FileMeta>,
    partials: Seq<Option<Vec<u8>>>,
    fulls: Seq<Option<Vec<u8>>>,
    i: int,
    j: int,
)
    requires
        0 <= i < j < files.len(),
        hash_match(files, partials, fulls, i, j),
        forall|k: int| 0 <= k < i ==> !hash_match(files, partials, fulls, k, i),
    ensures
        has_earlier_match(files, partials, fulls, j),
        !has_earlier_match(files, partials, fulls, i),
{
}

/// Duplicate exclusion by size: a file outside the size window is
/// never reported and never causes another file to be reported, even
/// when its content is identical to another file's.
pub proof fn lemma_size_window_excludes(
    files: Seq<FileMeta>,
    partials: Seq<Option<Vec<u8>>>,
    fulls: Seq<Option<Vec<u8>>>,
    j: int,
)
    requires
        0 <= j < files.len(),
        !in_size_range(files[j].size),
    ensures
        !has_earlier_match(files, partials, fulls, j),
        forall|k: int| !hash_match(files, partials, fulls, j, k),
        forall|k: int| !hash_match(files, partials, fulls, k, j),
{
    assert forall|k: int| !hash_match(files, partials, fulls, k, j) by {
        if hash_match(files, partials, fulls, k, j) {
            assert(files[k].size == files[j].size);
        }
    }
}

/// Hash-pass short circuit: two files of different sizes never match,
/// at any pass — size bucketing alone separates them, and a file with
/// no same-sized partner is not even a hashing candidate.
pub proof fn lemma_size_mismatch_never_matched(
    files: Seq<FileMeta>,
    partials: Seq<Option<Vec<u8>>>,
    fulls: Seq<Option<Vec<u8>>>,
    i: int,
    j: int,
)
    requires
        0 <= i < files.len(),
        0 <= j < files.len(),
        files[i].size != files[j].size,
    ensures
        !hash_match(files, partials, fulls, i, j),
        !hash_match(files, partials, fulls, j, i),
        (forall|k: int|
            0 <= k < files.len() && k != i ==> files[k].size != files[i].size)
            ==> !is_size_candidate(files, i),
{
}

/// Partial-hash false-positive correction: whatever the partial
/// digests say, two files whose full digests differ (or are missing)
/// never match, so they are never reported on account of each other.
pub proof fn lemma_full_digest_decides(
    files: Seq<FileMeta>,
    partials: Seq<Option<Vec<u8>>>,
    fulls: Seq<Option<Vec<u8>>>,
    i: int,
    j: int,
)
    requires
        0 <= i < files.len(),
        0 <= j < files.len(),
        !(fulls[i] is Some && fulls[j] is Some && fulls[i]->0@ == fulls[j]->0@),
    ensures
        !hash_match(files, partials, fulls, i, j),
        !hash_match(files, partials, fulls, j, i),
{
}


/// The duplicate-file detector's identity and walk configuration.
pub struct DuplicateFinder;

/// Directory names the duplicate walk never descends into: trash,
/// dependency trees, and package caches, where duplication is
/// expected and deletion would be wrong.
pub open spec fn spec_dup_skip_name(name: Seq<char>) -> bool {
    ||| name == ".Trash"@
    ||| name == "node_modules"@
    ||| name == ".git"@
    ||| name == ".venv"@
    ||| name == "venv"@
    ||| name == "__pycache__"@
    ||| name == ".tox"@
    ||| name == "target"@
    ||| name == ".cargo"@
    ||| name == ".rustup"@
    ||| name == ".npm"@
    ||| name == ".m2"@
    ||| name == ".gradle"@
    ||| name == "Pods"@
}

/// Bundle extensions the duplicate walk never descends into, compared
/// case-insensitively: opaque libraries and virtual machines whose
/// internal files are not independent user files.
pub open spec fn spec_dup_skip_ext(name: Seq<char>) -> bool {
    ||| spec_ends_with_ci(name, ".photoslibrary"@)
    ||| spec_ends_with_ci(name, ".musiclibrary"@)
    ||| spec_ends_with_ci(name, ".tvlibrary"@)
    ||| spec_ends_with_ci(name, ".fcpbundle"@)
    ||| spec_ends_with_ci(name, ".vmwarevm"@)
    ||| spec_ends_with_ci(name, ".parallels"@)
    ||| spec_ends_with_ci(name, ".app"@)
}

/// Whether the duplicate walk skips this directory name.
pub open spec fn spec_dup_should_skip(name: Seq<char>) -> bool {
    spec_dup_skip_name(name) || spec_dup_skip_ext(name)
}

pub fn should_skip_dir(name: &str) -> (r: bool)
    ensures
        r == spec_dup_should_skip(name@),
{
    str_eq(name, ".Trash") || str_eq(name, "node_modules") || str_eq(name, ".git") || str_eq(
        name,
        ".venv",
    ) || str_eq(name, "venv") || str_eq(name, "__pycache__") || str_eq(name, ".tox") || str_eq(
        name,
        "target",
    ) || str_eq(name, ".cargo") || str_eq(name, ".rustup") || str_eq(name, ".npm") || str_eq(
        name,
        ".m2",
    ) || str_eq(name, ".gradle") || str_eq(name, "Pods") || ends_with_ci(name, ".photoslibrary")
        || ends_with_ci(name, ".musiclibrary") || ends_with_ci(name, ".tvlibrary") || ends_with_ci(
        name,
        ".fcpbundle",
    ) || ends_with_ci(name, ".vmwarevm") || ends_with_ci(name, ".parallels") || ends_with_ci(
        name,
        ".app",
    )
}

impl DuplicateFinder {
    /// Machine-readable category name.
    pub fn name(&self) -> (r: &'static str)
        ensures
            r@ == "duplicates"@,
    {
        "duplicates"
    }

    /// Human-readable display label.
    pub fn label(&self) -> (r: &'static str)
        ensures
            r@ == "Duplicate Files"@,
    {
        "Duplicate Files"
    }

    /// The directories the duplicate walk visits, in order, under the
    /// home directory.
    pub fn scan_dirs(home: &str) -> (r: Vec<String>)
        ensures
            r@.len() == 4,
            r@[0]@ == home@ + "/Documents"@,
            r@[1]@ == home@ + "/Downloads"@,
            r@[2]@ == home@ + "/Desktop"@,
            r@[3]@ == home@ + "/Pictures"@,
    {
        let mut r: Vec<String> = Vec::new();
        r.push(concat_str(home, "/Documents"));
        r.push(concat_str(home, "/Downloads"));
        r.push(concat_str(home, "/Desktop"));
        r.push(concat_str(home, "/Pictures"));
        r
    }
}

} // verus!
