//! Scan entries, scan results, and the cleaner capability.
//!
//! A `ScanResult` carries the entries one cleaner discovered, a running
//! total that always equals the exact sum of the entry sizes, and
//! non-fatal diagnostics.

use vstd::prelude::*;
use vstd::multiset::Multiset;
use vstd::string::*;

verus! {

/// One item found during a scan: a path and its size at scan time.
pub struct ScanEntry {
    pub path: String,
    pub size_bytes: u64,
}

impl Clone for ScanEntry {
    fn clone(&self) -> (r: Self)
        ensures
            r == *self,
    {
        ScanEntry { path: self.path.clone(), size_bytes: self.size_bytes }
    }
}

/// Exact sum of the sizes of a sequence of entries.
pub open spec fn sum_sizes(s: Seq<ScanEntry>) -> int
    decreases s.len(),
{
    if s.len() == 0 {
        0
    } else {
        s[0].size_bytes + sum_sizes(s.drop_first())
    }
}

pub proof fn lemma_sum_nonneg(s: Seq<ScanEntry>)
    ensures
        sum_sizes(s) >= 0,
    decreases s.len(),
{
    if s.len() > 0 {
        lemma_sum_nonneg(s.drop_first());
    }
}

/// Splitting a sequence at any point splits its sum.
pub proof fn lemma_sum_split(s: Seq<ScanEntry>, i: int)
    requires
        0 <= i <= s.len(),
    ensures
        sum_sizes(s) == sum_sizes(s.take(i)) + sum_sizes(s.skip(i)),
    decreases i,
{
    if i == 0 {
        assert(s.take(0) =~= Seq::<ScanEntry>::empty());
        assert(s.skip(0) =~= s);
    } else {
        lemma_sum_split(s.drop_first(), i - 1);
        assert(s.take(i).drop_first() =~= s.drop_first().take(i - 1));
        assert(s.skip(i) =~= s.drop_first().skip(i - 1));
    }
}

/// Removing one entry removes exactly its size from the sum.
pub proof fn lemma_sum_remove(s: Seq<ScanEntry>, i: int)
    requires
        0 <= i < s.len(),
    ensures
        sum_sizes(s.remove(i)) == sum_sizes(s) - s[i].size_bytes,
    decreases i,
{
    if i == 0 {
        assert(s.remove(0) =~= s.drop_first());
    } else {
        lemma_sum_remove(s.drop_first(), i - 1);
        assert(s.remove(i).drop_first() =~= s.drop_first().remove(i - 1));
    }
}

/// Result of scanning a single category.
pub struct ScanResult {
    pub entries: Vec<ScanEntry>,
    pub total_bytes: u64,
    pub errors: Vec<String>,
}

impl ScanResult {
    /// The structural invariant: the total always equals the exact sum
    /// of the entry sizes, so it can never drift.
    pub open spec fn wf(self) -> bool {
        self.total_bytes == sum_sizes(self.entries@)
    }

    /// An empty result.
    pub fn new() -> (r: ScanResult)
        ensures
            r.entries@.len() == 0,
            r.total_bytes == 0,
            r.errors@.len() == 0,
            r.wf(),
    {
        ScanResult { entries: Vec::new(), total_bytes: 0, errors: Vec::new() }
    }

    /// Runtime check of the invariant, for callers outside the proof.
    pub fn is_well_formed(&self) -> (r: bool)
        ensures
            r == self.wf(),
    {
        let total = sum_entry_sizes_saturating(&self.entries);
        proof {
            lemma_sum_nonneg(self.entries@);
        }
        total.0 == self.total_bytes && !total.1
    }
}

impl Clone for ScanResult {
    fn clone(&self) -> (r: Self)
        ensures
            r.entries@ == self.entries@,
            r.total_bytes == self.total_bytes,
            r.errors@ == self.errors@,
            r.wf() == self.wf(),
    {
        ScanResult {
            entries: clone_entries(&self.entries),
            total_bytes: self.total_bytes,
            errors: clone_strings(&self.errors),
        }
    }
}

/// Element-wise copy of an entry list.
pub fn clone_entries(v: &Vec<ScanEntry>) -> (r: Vec<ScanEntry>)
    ensures
        r@ == v@,
{
    let mut r: Vec<ScanEntry> = Vec::new();
    let mut i: usize = 0;
    while i < v.len()
        invariant
            0 <= i <= v@.len(),
            r@ =~= v@.take(i as int),
        decreases v@.len() - i,
    {
        r.push(v[i].clone());
        proof {
            assert(v@.take(i + 1) =~= v@.take(i as int).push(v@[i as int]));
        }
        i = i + 1;
    }
    proof {
        assert(v@.take(v@.len() as int) =~= v@);
    }
    r
}

/// Element-wise copy of a string list.
pub fn clone_strings(v: &Vec<String>) -> (r: Vec<String>)
    ensures
        r@ == v@,
{
    let mut r: Vec<String> = Vec::new();
    let mut i: usize = 0;
    while i < v.len()
        invariant
            0 <= i <= v@.len(),
            r@ =~= v@.take(i as int),
        decreases v@.len() - i,
    {
        r.push(v[i].clone());
        proof {
            assert(v@.take(i + 1) =~= v@.take(i as int).push(v@[i as int]));
        }
        i = i + 1;
    }
    proof {
        assert(v@.take(v@.len() as int) =~= v@);
    }
    r
}

/// Sum the entry sizes; the flag reports whether the sum overflowed u64.
pub fn sum_entry_sizes_saturating(entries: &Vec<ScanEntry>) -> (r: (u64, bool))
    ensures
        !r.1 ==> r.0 == sum_sizes(entries@),
        r.1 ==> sum_sizes(entries@) > u64::MAX,
{
    let mut acc: u64 = 0;
    let mut overflowed = false;
    let mut i: usize = 0;
    proof {
        assert(entries@.take(0) =~= Seq::<ScanEntry>::empty());
    }
    while i < entries.len()
        invariant
            0 <= i <= entries@.len(),
            !overflowed ==> acc == sum_sizes(entries@.take(i as int)),
            overflowed ==> sum_sizes(entries@.take(i as int)) > u64::MAX,
        decreases entries@.len() - i,
    {
        proof {
            lemma_sum_take_succ(entries@, i as int);
        }
        let size = entries[i].size_bytes;
        if !overflowed {
            if acc <= u64::MAX - size {
                acc = acc + size;
            } else {
                overflowed = true;
            }
        }
        i = i + 1;
    }
    proof {
        assert(entries@.take(entries@.len() as int) =~= entries@);
    }
    (acc, overflowed)
}

/// The sum of a one-longer prefix adds exactly the next element.
pub proof fn lemma_sum_take_succ(s: Seq<ScanEntry>, i: int)
    requires
        0 <= i < s.len(),
    ensures
        sum_sizes(s.take(i + 1)) == sum_sizes(s.take(i)) + s[i].size_bytes,
{
    lemma_sum_split(s.take(i + 1), i);
    assert(s.take(i + 1).take(i) =~= s.take(i));
    assert(s.take(i + 1).skip(i) =~= seq![s[i]]);
    assert(sum_sizes(seq![s[i]]) == s[i].size_bytes + sum_sizes(seq![s[i]].drop_first()));
    assert(seq![s[i]].drop_first() =~= Seq::<ScanEntry>::empty());
}

/// Sum the entry sizes when the caller knows the sum fits.
pub fn sum_entry_sizes(entries: &Vec<ScanEntry>) -> (r: u64)
    requires
        sum_sizes(entries@) <= u64::MAX,
    ensures
        r == sum_sizes(entries@),
{
    let (total, overflowed) = sum_entry_sizes_saturating(entries);
    proof {
        lemma_sum_nonneg(entries@);
    }
    total
}

/// Appending an entry adds exactly its size to the sum.
pub proof fn lemma_sum_push(s: Seq<ScanEntry>, e: ScanEntry)
    ensures
        sum_sizes(s.push(e)) == sum_sizes(s) + e.size_bytes,
    decreases s.len(),
{
    if s.len() == 0 {
        assert(s.push(e).drop_first() =~= Seq::<ScanEntry>::empty());
        assert(s.push(e)[0] == e);
        assert(sum_sizes(s.push(e)) == e.size_bytes + sum_sizes(s.push(e).drop_first()));
    } else {
        lemma_sum_push(s.drop_first(), e);
        assert(s.push(e).drop_first() =~= s.drop_first().push(e));
        assert(s.push(e)[0] == s[0]);
        assert(sum_sizes(s.push(e)) == s.push(e)[0].size_bytes + sum_sizes(
            s.push(e).drop_first(),
        ));
    }
}

/// Entry sizes never increase left to right.
pub open spec fn sorted_by_size_desc(s: Seq<ScanEntry>) -> bool {
    forall|i: int, j: int| 0 <= i < j < s.len() ==> s[i].size_bytes >= s[j].size_bytes
}

/// Assemble a scan result from the items a walk discovered: the
/// entries sorted by size descending, the total as their exact sum,
/// and the diagnostics carried through.
pub fn build_scan_result(items: Vec<ScanEntry>, errors: Vec<String>) -> (r: ScanResult)
    requires
        sum_sizes(items@) <= u64::MAX,
    ensures
        r.entries@.to_multiset() == items@.to_multiset(),
        sorted_by_size_desc(r.entries@),
        r.errors@ == errors@,
        r.wf(),
{
    let mut rest = items;
    let mut out: Vec<ScanEntry> = Vec::new();
    proof {
        broadcast use vstd::seq_lib::group_to_multiset_ensures;

        assert(out@.to_multiset() =~= Multiset::<ScanEntry>::empty());
        assert(out@.to_multiset().add(rest@.to_multiset()) =~= items@.to_multiset());
    }
    while rest.len() > 0
        invariant
            out@.to_multiset().add(rest@.to_multiset()) == items@.to_multiset(),
            sum_sizes(out@) + sum_sizes(rest@) == sum_sizes(items@),
            sum_sizes(items@) <= u64::MAX,
            sorted_by_size_desc(out@),
            forall|i: int, j: int|
                0 <= i < out@.len() && 0 <= j < rest@.len() ==> out@[i].size_bytes >= rest@[
                    j
                ].size_bytes,
        decreases rest@.len(),
    {
        let mut imax: usize = 0;
        let mut j: usize = 1;
        while j < rest.len()
            invariant
                0 <= imax < rest@.len(),
                imax < j <= rest@.len(),
                forall|m: int| 0 <= m < j ==> rest@[imax as int].size_bytes >= rest@[m].size_bytes,
            decreases rest@.len() - j,
        {
            if rest[j].size_bytes > rest[imax].size_bytes {
                imax = j;
            }
            j = j + 1;
        }
        let ghost old_rest = rest@;
        let ghost old_out = out@;
        proof {
            lemma_sum_remove(old_rest, imax as int);
            lemma_sum_push(old_out, old_rest[imax as int]);
        }
        let e = rest.remove(imax);
        out.push(e);
        proof {
            broadcast use vstd::seq_lib::group_to_multiset_ensures;

            assert(rest@.to_multiset() =~= old_rest.to_multiset().remove(e));
            assert(out@.to_multiset() =~= old_out.to_multiset().insert(e));
            assert(old_rest.to_multiset().count(e) > 0) by {
                assert(old_rest[imax as int] == e);
                assert(old_rest.contains(e));
            }
            assert(out@.to_multiset().add(rest@.to_multiset()) =~= old_out.to_multiset().add(
                old_rest.to_multiset(),
            ));
        }
    }
    proof {
        broadcast use vstd::seq_lib::group_to_multiset_ensures;

        assert(rest@.to_multiset() =~= Multiset::<ScanEntry>::empty());
        assert(out@.to_multiset().add(rest@.to_multiset()) =~= out@.to_multiset());
        assert(rest@ =~= Seq::<ScanEntry>::empty());
        lemma_sum_nonneg(out@);
    }
    let total = sum_entry_sizes(&out);
    ScanResult { entries: out, total_bytes: total, errors }
}

/// The entries that survive a clean: those whose deletion succeeded.
pub open spec fn kept_entries(entries: Seq<ScanEntry>, outcomes: Seq<Option<String>>) -> Seq<
    ScanEntry,
>
    decreases entries.len(),
{
    if entries.len() == 0 {
        Seq::empty()
    } else {
        let rest = kept_entries(entries.drop_first(), outcomes.drop_first());
        if outcomes[0] is None {
            seq![entries[0]] + rest
        } else {
            rest
        }
    }
}

/// The diagnostic recorded for one failed removal.
pub open spec fn spec_remove_error_line(path: Seq<char>, err: Seq<char>) -> Seq<char> {
    "Failed to remove "@ + path + ": "@ + err
}

/// The diagnostics produced by the failed removals, in entry order.
pub open spec fn failure_lines(entries: Seq<ScanEntry>, outcomes: Seq<Option<String>>) -> Seq<
    Seq<char>,
>
    decreases entries.len(),
{
    if entries.len() == 0 {
        Seq::empty()
    } else {
        let rest = failure_lines(entries.drop_first(), outcomes.drop_first());
        match outcomes[0] {
            None => rest,
            Some(err) => seq![spec_remove_error_line(entries[0].path@, err@)] + rest,
        }
    }
}

proof fn lemma_kept_take_succ(entries: Seq<ScanEntry>, outcomes: Seq<Option<String>>, i: int)
    requires
        outcomes.len() == entries.len(),
        0 <= i < entries.len(),
    ensures
        kept_entries(entries.take(i + 1), outcomes.take(i + 1)) == if outcomes[i] is None {
            kept_entries(entries.take(i), outcomes.take(i)).push(entries[i])
        } else {
            kept_entries(entries.take(i), outcomes.take(i))
        },
        failure_lines(entries.take(i + 1), outcomes.take(i + 1)) == match outcomes[i] {
            None => failure_lines(entries.take(i), outcomes.take(i)),
            Some(err) => failure_lines(entries.take(i), outcomes.take(i)).push(
                spec_remove_error_line(entries[i].path@, err@),
            ),
        },
    decreases i,
{
    if i == 0 {
        assert(entries.take(1).drop_first() =~= entries.take(0));
        assert(outcomes.take(1).drop_first() =~= outcomes.take(0));
        assert(entries.take(0) =~= Seq::<ScanEntry>::empty());
        assert(outcomes.take(0) =~= Seq::<Option<String>>::empty());
        if outcomes[0] is None {
            assert(seq![entries[0]] + Seq::<ScanEntry>::empty() =~= Seq::<
                ScanEntry,
            >::empty().push(entries[0]));
        } else {
            let err = outcomes[0]->0;
            assert(seq![spec_remove_error_line(entries[0].path@, err@)] + Seq::<Seq<char>>::empty()
                =~= Seq::<Seq<char>>::empty().push(spec_remove_error_line(entries[0].path@, err@)));
        }
    } else {
        lemma_kept_take_succ(entries.drop_first(), outcomes.drop_first(), i - 1);
        assert(entries.take(i + 1).drop_first() =~= entries.drop_first().take(i));
        assert(outcomes.take(i + 1).drop_first() =~= outcomes.drop_first().take(i));
        assert(entries.take(i).drop_first() =~= entries.drop_first().take(i - 1));
        assert(outcomes.take(i).drop_first() =~= outcomes.drop_first().take(i - 1));
        if outcomes[i] is None {
            assert(entries.take(i + 1)[0] == entries[0]);
            assert(seq![entries[0]] + kept_entries(entries.drop_first().take(i), outcomes.drop_first().take(i))
                =~= (seq![entries[0]] + kept_entries(entries.drop_first().take(i - 1), outcomes.drop_first().take(i - 1))).push(entries[i]));
        } else {
            let err = outcomes[i]->0;
            assert(seq![spec_remove_error_line(entries[0].path@, outcomes[0]->0@)] + failure_lines(entries.drop_first().take(i), outcomes.drop_first().take(i))
                =~= (seq![spec_remove_error_line(entries[0].path@, outcomes[0]->0@)] + failure_lines(entries.drop_first().take(i - 1), outcomes.drop_first().take(i - 1))).push(spec_remove_error_line(entries[i].path@, err@)));
        }
    }
}

proof fn lemma_kept_sum_le(entries: Seq<ScanEntry>, outcomes: Seq<Option<String>>)
    requires
        outcomes.len() == entries.len(),
    ensures
        0 <= sum_sizes(kept_entries(entries, outcomes)) <= sum_sizes(entries),
    decreases entries.len(),
{
    if entries.len() == 0 {
    } else {
        lemma_kept_sum_le(entries.drop_first(), outcomes.drop_first());
        if outcomes[0] is None {
            assert(sum_sizes(
                seq![entries[0]] + kept_entries(entries.drop_first(), outcomes.drop_first()),
            ) == entries[0].size_bytes + sum_sizes(
                kept_entries(entries.drop_first(), outcomes.drop_first()),
            )) by {
                let tail = kept_entries(entries.drop_first(), outcomes.drop_first());
                assert((seq![entries[0]] + tail).drop_first() =~= tail);
                assert((seq![entries[0]] + tail)[0] == entries[0]);
            }
        }
    }
}

/// Reconcile a clean: given the scan result and the per-entry
/// deletion outcomes (`None` for success, an error text for failure),
/// return a result holding only the surviving entries, with the total
/// recomputed as a fresh sum — never decremented — and each failure
/// appended to the diagnostics.
pub fn apply_clean_outcomes(scan: ScanResult, outcomes: &Vec<Option<String>>) -> (r: ScanResult)
    requires
        scan.wf(),
        outcomes@.len() == scan.entries@.len(),
    ensures
        r.entries@ == kept_entries(scan.entries@, outcomes@),
        r.errors@.len() == scan.errors@.len() + failure_lines(scan.entries@, outcomes@).len(),
        forall|m: int|
            0 <= m < scan.errors@.len() ==> r.errors@[m] == scan.errors@[m],
        forall|m: int|
            0 <= m < failure_lines(scan.entries@, outcomes@).len() ==> r.errors@[scan.errors@.len()
                + m]@ == failure_lines(scan.entries@, outcomes@)[m],
        r.wf(),
{
    let n = scan.entries.len();
    let mut kept: Vec<ScanEntry> = Vec::new();
    let mut errors = scan.errors;
    let ghost base = errors@.len();
    let mut i: usize = 0;
    proof {
        assert(scan.entries@.take(0) =~= Seq::<ScanEntry>::empty());
        assert(outcomes@.take(0) =~= Seq::<Option<String>>::empty());
    }
    while i < n
        invariant
            0 <= i <= n,
            n == scan.entries@.len(),
            outcomes@.len() == n,
            kept@ == kept_entries(scan.entries@.take(i as int), outcomes@.take(i as int)),
            errors@.len() == base + failure_lines(
                scan.entries@.take(i as int),
                outcomes@.take(i as int),
            ).len(),
            base == scan.errors@.len(),
            forall|m: int| 0 <= m < base ==> errors@[m] == scan.errors@[m],
            forall|m: int|
                0 <= m < failure_lines(scan.entries@.take(i as int), outcomes@.take(i as int)).len()
                    ==> errors@[base + m]@ == failure_lines(
                    scan.entries@.take(i as int),
                    outcomes@.take(i as int),
                )[m],
        decreases n - i,
    {
        proof {
            lemma_kept_take_succ(scan.entries@, outcomes@, i as int);
        }
        match &outcomes[i] {
            None => {
                kept.push(scan.entries[i].clone());
            },
            Some(err) => {
                let line = String::from_str("Failed to remove ").concat(
                    scan.entries[i].path.as_str(),
                ).concat(": ").concat(err.as_str());
                errors.push(line);
            },
        }
        i = i + 1;
    }
    proof {
        assert(scan.entries@.take(n as int) =~= scan.entries@);
        assert(outcomes@.take(n as int) =~= outcomes@);
        lemma_kept_sum_le(scan.entries@, outcomes@);
    }
    let total = sum_entry_sizes(&kept);
    ScanResult { entries: kept, total_bytes: total, errors }
}

/// The capability every cleaner offers: a stable name, a display label,
/// a read-only scan, and a clean that deletes only when `dry_run` is
/// false. Scanning and deleting touch the filesystem, so the
/// implementations live with the embedding application; the library
/// provides the per-category configuration and all result bookkeeping.
pub trait Cleaner {
    /// Machine-readable name used for category selection.
    fn name(&self) -> &'static str;

    /// Human-readable label for display.
    fn label(&self) -> &'static str;

    /// Scan and report what would be cleaned. Never deletes anything.
    fn scan(&self) -> ScanResult;

    /// Delete the discovered entries when `dry_run` is false; behave
    /// exactly like `scan` when it is true.
    fn clean(&self, dry_run: bool) -> ScanResult;
}

} // verus!
