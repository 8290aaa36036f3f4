//! The scan/clean orchestration protocol.
//!
//! A `Session` owns the category list and all scan and selection
//! state. Worker tasks (run by the embedding application) send
//! immutable `BgMessage` values; the session applies them one at a
//! time, so every mutation happens on the single owning context. The
//! session also computes the snapshot of items a clean or shred
//! operates on, before any deletion begins.

use vstd::prelude::*;
use vstd::string::*;
use crate::cleaner::{ScanEntry, ScanResult, sum_sizes, lemma_sum_nonneg, lemma_sum_remove};
use crate::format::{format_size, spec_format_size, clamp_u64, clamp_usize};
use crate::strings::{str_eq, u64_to_string, spec_dec};

verus! {

/// The lifecycle phase: scans and cleans never overlap, and a second
/// operation of the same kind cannot start while one runs.
#[derive(PartialEq, Eq, Structural, Debug)]
pub enum AppPhase {
    Idle,
    Scanning,
    Cleaning,
}

/// Which main view the embedding application shows.
#[derive(PartialEq, Eq, Structural, Debug)]
pub enum ViewMode {
    Main,
    Analyzer,
}

/// The confirmation gate shown before any deletion: the exact totals
/// about to be affected.
pub struct ConfirmDialog {
    pub visible: bool,
    pub shred_mode: bool,
    pub total_bytes: u64,
    pub file_count: usize,
    pub category_names: Vec<String>,
}

/// Sum of the sizes of the selected entries.
pub open spec fn selected_sum(entries: Seq<ScanEntry>, sel: Seq<bool>) -> int
    decreases entries.len(),
{
    if entries.len() == 0 {
        0
    } else {
        (if sel[0] {
            entries[0].size_bytes as int
        } else {
            0
        }) + selected_sum(entries.drop_first(), sel.drop_first())
    }
}

/// Number of selected entries.
pub open spec fn count_true(sel: Seq<bool>) -> int
    decreases sel.len(),
{
    if sel.len() == 0 {
        0
    } else {
        (if sel[0] {
            1int
        } else {
            0int
        }) + count_true(sel.drop_first())
    }
}

proof fn lemma_selected_sum_le(entries: Seq<ScanEntry>, sel: Seq<bool>)
    requires
        sel.len() == entries.len(),
    ensures
        0 <= selected_sum(entries, sel) <= sum_sizes(entries),
    decreases entries.len(),
{
    if entries.len() > 0 {
        lemma_selected_sum_le(entries.drop_first(), sel.drop_first());
    }
}

proof fn lemma_selected_sum_take_succ(entries: Seq<ScanEntry>, sel: Seq<bool>, i: int)
    requires
        sel.len() == entries.len(),
        0 <= i < entries.len(),
    ensures
        selected_sum(entries.take(i + 1), sel.take(i + 1)) == selected_sum(
            entries.take(i),
            sel.take(i),
        ) + (if sel[i] {
            entries[i].size_bytes as int
        } else {
            0
        }),
    decreases i,
{
    if i == 0 {
        assert(entries.take(1).drop_first() =~= entries.take(0));
        assert(sel.take(1).drop_first() =~= sel.take(0));
        assert(entries.take(0) =~= Seq::<ScanEntry>::empty());
    } else {
        lemma_selected_sum_take_succ(entries.drop_first(), sel.drop_first(), i - 1);
        assert(entries.take(i + 1).drop_first() =~= entries.drop_first().take(i));
        assert(sel.take(i + 1).drop_first() =~= sel.drop_first().take(i));
        assert(entries.take(i).drop_first() =~= entries.drop_first().take(i - 1));
        assert(sel.take(i).drop_first() =~= sel.drop_first().take(i - 1));
    }
}

proof fn lemma_selected_sum_take_le(entries: Seq<ScanEntry>, sel: Seq<bool>, i: int)
    requires
        sel.len() == entries.len(),
        0 <= i <= entries.len(),
    ensures
        0 <= selected_sum(entries.take(i), sel.take(i)) <= selected_sum(entries, sel),
    decreases entries.len(),
{
    if entries.len() == 0 || i == 0 {
        assert(entries.take(0) =~= Seq::<ScanEntry>::empty());
        lemma_selected_sum_le(entries, sel);
    } else {
        lemma_selected_sum_take_le(entries.drop_first(), sel.drop_first(), i - 1);
        assert(entries.take(i).drop_first() =~= entries.drop_first().take(i - 1));
        assert(sel.take(i).drop_first() =~= sel.drop_first().take(i - 1));
    }
}

proof fn lemma_count_true_take_succ(sel: Seq<bool>, i: int)
    requires
        0 <= i < sel.len(),
    ensures
        count_true(sel.take(i + 1)) == count_true(sel.take(i)) + (if sel[i] {
            1int
        } else {
            0int
        }),
    decreases i,
{
    if i == 0 {
        assert(sel.take(1).drop_first() =~= sel.take(0));
        assert(sel.take(0) =~= Seq::<bool>::empty());
    } else {
        lemma_count_true_take_succ(sel.drop_first(), i - 1);
        assert(sel.take(i + 1).drop_first() =~= sel.drop_first().take(i));
        assert(sel.take(i).drop_first() =~= sel.drop_first().take(i - 1));
    }
}

proof fn lemma_count_true_bounds(sel: Seq<bool>)
    ensures
        0 <= count_true(sel) <= sel.len(),
    decreases sel.len(),
{
    if sel.len() > 0 {
        lemma_count_true_bounds(sel.drop_first());
    }
}

/// One category: its identity, its selection state, and the result of
/// its last scan with the per-entry selection flags, which always
/// stay index-aligned with the entries.
pub struct CategoryState {
    pub name: String,
    pub label: String,
    pub selected: bool,
    pub expanded: bool,
    pub scan_result: Option<ScanResult>,
    pub entry_selected: Vec<bool>,
    pub is_report_only: bool,
}

impl CategoryState {
    /// The category selection invariant: the selection flags are
    /// aligned index-for-index with the scanned entries (and empty
    /// when no scan has run), and the scan result keeps its exact
    /// total.
    pub open spec fn wf(self) -> bool {
        &&& match self.scan_result {
            Some(r) => self.entry_selected@.len() == r.entries@.len() && r.wf(),
            None => self.entry_selected@.len() == 0,
        }
    }

    /// A fresh, never-scanned category.
    pub fn new(name: String, label: String, selected: bool, is_report_only: bool) -> (c:
        CategoryState)
        ensures
            c.name@ == name@,
            c.label@ == label@,
            c.selected == selected,
            c.is_report_only == is_report_only,
            !c.expanded,
            c.scan_result is None,
            c.entry_selected@.len() == 0,
            c.wf(),
    {
        CategoryState {
            name,
            label,
            selected,
            expanded: false,
            scan_result: None,
            entry_selected: Vec::new(),
            is_report_only,
        }
    }

    /// Sum of the selected entries' sizes at spec level.
    pub open spec fn spec_selected_bytes(self) -> int {
        match self.scan_result {
            Some(r) => selected_sum(r.entries@, self.entry_selected@),
            None => 0,
        }
    }

    /// Number of selected entries at spec level.
    pub open spec fn spec_selected_count(self) -> int {
        count_true(self.entry_selected@)
    }

    /// Total size of the entries currently selected for deletion.
    pub fn selected_bytes(&self) -> (r: u64)
        requires
            self.wf(),
        ensures
            r == self.spec_selected_bytes(),
    {
        match &self.scan_result {
            None => 0,
            Some(res) => {
                let mut acc: u64 = 0;
                let mut i: usize = 0;
                let n = res.entries.len();
                proof {
                    assert(res.entries@.take(0) =~= Seq::<ScanEntry>::empty());
                }
                while i < n
                    invariant
                        0 <= i <= n,
                        n == res.entries@.len(),
                        self.entry_selected@.len() == n,
                        res.wf(),
                        acc == selected_sum(
                            res.entries@.take(i as int),
                            self.entry_selected@.take(i as int),
                        ),
                    decreases n - i,
                {
                    proof {
                        lemma_selected_sum_take_succ(res.entries@, self.entry_selected@, i as int);
                        lemma_selected_sum_take_le(res.entries@, self.entry_selected@, i + 1);
                        lemma_selected_sum_le(res.entries@, self.entry_selected@);
                        crate::cleaner::lemma_sum_nonneg(res.entries@);
                    }
                    if self.entry_selected[i] {
                        acc = acc + res.entries[i].size_bytes;
                    }
                    i = i + 1;
                }
                proof {
                    assert(res.entries@.take(n as int) =~= res.entries@);
                    assert(self.entry_selected@.take(n as int) =~= self.entry_selected@);
                }
                acc
            },
        }
    }

    /// Number of entries currently selected for deletion.
    pub fn selected_count(&self) -> (r: usize)
        ensures
            r == self.spec_selected_count(),
    {
        let mut acc: usize = 0;
        let mut i: usize = 0;
        let n = self.entry_selected.len();
        proof {
            assert(self.entry_selected@.take(0) =~= Seq::<bool>::empty());
        }
        while i < n
            invariant
                0 <= i <= n,
                n == self.entry_selected@.len(),
                acc == count_true(self.entry_selected@.take(i as int)),
            decreases n - i,
        {
            proof {
                lemma_count_true_take_succ(self.entry_selected@, i as int);
                lemma_count_true_bounds(self.entry_selected@.take(i as int));
            }
            if self.entry_selected[i] {
                acc = acc + 1;
            }
            i = i + 1;
        }
        proof {
            assert(self.entry_selected@.take(n as int) =~= self.entry_selected@);
        }
        acc
    }

    /// Number of scanned entries.
    pub fn entry_count(&self) -> (r: usize)
        ensures
            r == match self.scan_result {
                Some(res) => res.entries@.len(),
                None => 0,
            },
    {
        match &self.scan_result {
            Some(res) => res.entries.len(),
            None => 0,
        }
    }

    /// Select or deselect every entry.
    pub fn set_all_entries(&mut self, val: bool)
        ensures
            final(self).entry_selected@.len() == old(self).entry_selected@.len(),
            forall|i: int|
                0 <= i < final(self).entry_selected@.len() ==> final(self).entry_selected@[i]
                    == val,
            final(self).name == old(self).name,
            final(self).label == old(self).label,
            final(self).selected == old(self).selected,
            final(self).expanded == old(self).expanded,
            final(self).scan_result == old(self).scan_result,
            final(self).is_report_only == old(self).is_report_only,
            old(self).wf() ==> final(self).wf(),
    {
        let n = self.entry_selected.len();
        let mut fresh: Vec<bool> = Vec::new();
        let mut i: usize = 0;
        while i < n
            invariant
                0 <= i <= n,
                fresh@.len() == i,
                forall|k: int| 0 <= k < i ==> fresh@[k] == val,
            decreases n - i,
        {
            fresh.push(val);
            i = i + 1;
        }
        self.entry_selected = fresh;
    }

    /// Derive the category checkbox from the entry selections: the
    /// category stays selected while any entry is, except that
    /// report-only categories never change.
    pub fn sync_category_from_entries(&mut self)
        ensures
            final(self).selected == if old(self).is_report_only {
                old(self).selected
            } else {
                exists|i: int|
                    0 <= i < old(self).entry_selected@.len() && old(self).entry_selected@[i]
            },
            final(self).name == old(self).name,
            final(self).label == old(self).label,
            final(self).expanded == old(self).expanded,
            final(self).scan_result == old(self).scan_result,
            final(self).entry_selected == old(self).entry_selected,
            final(self).is_report_only == old(self).is_report_only,
            old(self).wf() ==> final(self).wf(),
    {
        if self.is_report_only {
            return ;
        }
        let n = self.entry_selected.len();
        let mut any = false;
        let mut i: usize = 0;
        while i < n
            invariant
                0 <= i <= n,
                n == self.entry_selected@.len(),
                any == exists|k: int| 0 <= k < i && self.entry_selected@[k],
            decreases n - i,
        {
            if self.entry_selected[i] {
                any = true;
                proof {
                    assert(0 <= i < i + 1 && self.entry_selected@[i as int]);
                }
            }
            i = i + 1;
        }
        self.selected = any;
    }
}

/// One unit of destructive work, snapshotted before any deletion
/// begins.
pub struct DeleteItem {
    pub category_name: String,
    pub path: String,
    pub size_bytes: u64,
}

/// A message from a worker task to the owning session. Workers only
/// ever send immutable values; all mutation happens in
/// `Session::apply_message`.
pub enum BgMessage {
    /// A human-readable progress line.
    Progress(String),
    /// One category's scan finished: its name and its result.
    ScanComplete(String, ScanResult),
    /// Every scan task has finished; `smart_clean` marks a restricted
    /// safe-categories run.
    AllScansComplete { smart_clean: bool },
    /// One item was deleted: category name, path, bytes freed.
    DeletedFile(String, String, u64),
    /// One item could not be deleted: category name, path, error text.
    DeleteError(String, String, String),
    /// Every delete task has finished.
    AllCleansComplete,
    /// Every shred task has finished.
    AllShredsComplete,
}

impl BgMessage {
    /// What the session requires of an incoming message: a scan
    /// result must carry its exact total.
    pub open spec fn wf(self) -> bool {
        match self {
            BgMessage::ScanComplete(_, r) => r.wf(),
            _ => true,
        }
    }
}

/// The owning state of one scan/clean lifecycle.
pub struct Session {
    pub categories: Vec<CategoryState>,
    pub phase: AppPhase,
    pub progress_label: String,
    pub progress_total: usize,
    pub progress_completed: usize,
    pub confirm_dialog: ConfirmDialog,
    pub errors: Vec<String>,
    pub cleaned_bytes: u64,
    pub clean_report: Vec<String>,
}

/// After a scan-start reset, a category keeps its identity and
/// selection but loses any previous result.
pub open spec fn cleared_like(newc: CategoryState, oldc: CategoryState) -> bool {
    &&& newc.scan_result is None
    &&& newc.entry_selected@.len() == 0
    &&& newc.name == oldc.name
    &&& newc.label == oldc.label
    &&& newc.selected == oldc.selected
    &&& newc.expanded == oldc.expanded
    &&& newc.is_report_only == oldc.is_report_only
}

/// The safe subset of category names a smart clean is limited to:
/// low-risk categories whose contents are reproducible.
pub open spec fn spec_smart_safe(name: Seq<char>) -> bool {
    ||| name == "system-caches"@
    ||| name == "app-logs"@
    ||| name == "browser-caches"@
    ||| name == "ds-store"@
    ||| name == "trash"@
    ||| name == "empty-folders"@
    ||| name == "screenshots"@
}

/// Whether a category name belongs to the smart-clean safe subset.
pub fn is_smart_safe(name: &str) -> (r: bool)
    ensures
        r == spec_smart_safe(name@),
{
    str_eq(name, "system-caches") || str_eq(name, "app-logs") || str_eq(name, "browser-caches")
        || str_eq(name, "ds-store") || str_eq(name, "trash") || str_eq(name, "empty-folders")
        || str_eq(name, "screenshots")
}

impl Session {
    /// Every category invariant holds.
    pub open spec fn wf(self) -> bool {
        forall|i: int| 0 <= i < self.categories@.len() ==> (#[trigger] self.categories@[i]).wf()
    }

    /// Category names identify categories uniquely.
    pub open spec fn distinct_names(self) -> bool {
        forall|i: int, j: int|
            0 <= i < j < self.categories@.len() ==> self.categories@[i].name@ != self.categories@[
                j
            ].name@
    }

    /// A fresh idle session over the given categories.
    pub fn new(categories: Vec<CategoryState>) -> (s: Session)
        requires
            forall|i: int| 0 <= i < categories@.len() ==> (#[trigger] categories@[i]).wf(),
        ensures
            s.categories@ == categories@,
            s.phase == AppPhase::Idle,
            s.progress_label@.len() == 0,
            s.progress_total == 0,
            s.progress_completed == 0,
            !s.confirm_dialog.visible,
            s.errors@.len() == 0,
            s.cleaned_bytes == 0,
            s.clean_report@.len() == 0,
            s.wf(),
    {
        Session {
            categories,
            phase: AppPhase::Idle,
            progress_label: String::new(),
            progress_total: 0,
            progress_completed: 0,
            confirm_dialog: ConfirmDialog {
                visible: false,
                shred_mode: false,
                total_bytes: 0,
                file_count: 0,
                category_names: Vec::new(),
            },
            errors: Vec::new(),
            cleaned_bytes: 0,
            clean_report: Vec::new(),
        }
    }

    /// The position of the category with the given name, if any: the
    /// first match, with no match earlier.
    pub fn find_category(&self, name: &str) -> (idx: Option<usize>)
        ensures
            match idx {
                Some(i) => i < self.categories@.len() && self.categories@[i as int].name@ == name@
                    && forall|k: int|
                    0 <= k < i ==> self.categories@[k].name@ != name@,
                None => forall|k: int|
                    0 <= k < self.categories@.len() ==> self.categories@[k].name@ != name@,
            },
    {
        let n = self.categories.len();
        let mut i: usize = 0;
        while i < n
            invariant
                0 <= i <= n,
                n == self.categories@.len(),
                forall|k: int| 0 <= k < i ==> self.categories@[k].name@ != name@,
            decreases n - i,
        {
            if str_eq(self.categories[i].name.as_str(), name) {
                return Some(i);
            }
            i = i + 1;
        }
        None
    }

    /// Whether any selected, deletable category has selected entries:
    /// the condition for the automatic confirmation prompt after a
    /// smart clean.
    pub fn has_selected_items(&self) -> (r: bool)
        ensures
            r == any_selected_items(self.categories@),
    {
        let n = self.categories.len();
        let mut i: usize = 0;
        let mut any = false;
        while i < n
            invariant
                0 <= i <= n,
                n == self.categories@.len(),
                any == exists|c: int|
                    0 <= c < i && (#[trigger] self.categories@[c]).selected && !self.categories@[
                        c
                    ].is_report_only && self.categories@[c].spec_selected_count() > 0,
            decreases n - i,
        {
            let cat = &self.categories[i];
            if cat.selected && !cat.is_report_only && cat.selected_count() > 0 {
                any = true;
                proof {
                    assert(0 <= i < i + 1 && self.categories@[i as int].selected
                        && !self.categories@[i as int].is_report_only && self.categories@[
                        i as int
                    ].spec_selected_count() > 0);
                }
            }
            i = i + 1;
        }
        proof {
            assert(self.categories@.len() as int == n as int);
        }
        any
    }

    /// Start a full scan. A no-op at the boundary unless the session
    /// is idle: re-entrant scans are rejected, not merely discouraged.
    /// On start, every category's previous result is cleared before
    /// any worker runs.
    pub fn begin_scan(&mut self) -> (started: bool)
        requires
            old(self).wf(),
        ensures
            final(self).wf(),
            started == (old(self).phase == AppPhase::Idle),
            !started ==> *final(self) == *old(self),
            started ==> {
                &&& final(self).phase == AppPhase::Scanning
                &&& final(self).categories@.len() == old(self).categories@.len()
                &&& forall|i: int|
                    0 <= i < old(self).categories@.len() ==> cleared_like(
                        #[trigger] final(self).categories@[i],
                        old(self).categories@[i],
                    )
                &&& final(self).progress_total == old(self).categories@.len()
                &&& final(self).progress_completed == 0
                &&& final(self).progress_label@ == "Starting scan..."@
                &&& final(self).errors@.len() == 0
                &&& final(self).cleaned_bytes == 0
                &&& final(self).confirm_dialog == old(self).confirm_dialog
                &&& final(self).clean_report == old(self).clean_report
            },
    {
        if !(self.phase == AppPhase::Idle) {
            return false;
        }
        self.phase = AppPhase::Scanning;
        self.progress_label = String::from_str("Starting scan...");
        self.errors = Vec::new();
        self.cleaned_bytes = 0;
        let n = self.categories.len();
        self.progress_total = n;
        self.progress_completed = 0;
        let mut i: usize = 0;
        while i < n
            invariant
                0 <= i <= n,
                n == self.categories@.len(),
                n == old(self).categories@.len(),
                self.phase == AppPhase::Scanning,
                self.progress_label@ == "Starting scan..."@,
                self.progress_total == n,
                self.progress_completed == 0,
                self.errors@.len() == 0,
                self.cleaned_bytes == 0,
                self.confirm_dialog == old(self).confirm_dialog,
                self.clean_report == old(self).clean_report,
                forall|k: int|
                    0 <= k < i ==> cleared_like(
                        #[trigger] self.categories@[k],
                        old(self).categories@[k],
                    ),
                forall|k: int|
                    i <= k < n ==> self.categories@[k] == old(self).categories@[k],
            decreases n - i,
        {
            self.categories[i].scan_result = None;
            self.categories[i].entry_selected = Vec::new();
            i = i + 1;
        }
        true
    }

    /// Start a smart clean scan: force the selection to the fixed safe
    /// subset, clear previous results, and count only the safe
    /// categories toward progress.
    pub fn begin_smart_scan(&mut self) -> (started: bool)
        requires
            old(self).wf(),
        ensures
            final(self).wf(),
            started == (old(self).phase == AppPhase::Idle),
            !started ==> *final(self) == *old(self),
            started ==> {
                &&& final(self).phase == AppPhase::Scanning
                &&& final(self).categories@.len() == old(self).categories@.len()
                &&& forall|i: int|
                    0 <= i < old(self).categories@.len() ==> {
                        let newc = #[trigger] final(self).categories@[i];
                        let oldc = old(self).categories@[i];
                        &&& newc.scan_result is None
                        &&& newc.entry_selected@.len() == 0
                        &&& newc.name == oldc.name
                        &&& newc.label == oldc.label
                        &&& newc.expanded == oldc.expanded
                        &&& newc.is_report_only == oldc.is_report_only
                        &&& newc.selected == spec_smart_safe(oldc.name@)
                    }
                &&& final(self).progress_total == count_smart_safe(old(self).categories@)
                &&& final(self).progress_completed == 0
                &&& final(self).progress_label@ == "Smart Clean: scanning..."@
                &&& final(self).errors@.len() == 0
                &&& final(self).cleaned_bytes == 0
                &&& final(self).confirm_dialog == old(self).confirm_dialog
                &&& final(self).clean_report == old(self).clean_report
            },
    {
        if !(self.phase == AppPhase::Idle) {
            return false;
        }
        self.phase = AppPhase::Scanning;
        self.progress_label = String::from_str("Smart Clean: scanning...");
        self.errors = Vec::new();
        self.cleaned_bytes = 0;
        self.progress_completed = 0;
        let n = self.categories.len();
        let mut i: usize = 0;
        let mut safe_count: usize = 0;
        proof {
            assert(old(self).categories@.take(0) =~= Seq::<CategoryState>::empty());
        }
        while i < n
            invariant
                0 <= i <= n,
                n == self.categories@.len(),
                n == old(self).categories@.len(),
                self.phase == AppPhase::Scanning,
                self.progress_label@ == "Smart Clean: scanning..."@,
                self.progress_completed == 0,
                self.errors@.len() == 0,
                self.cleaned_bytes == 0,
                self.confirm_dialog == old(self).confirm_dialog,
                self.clean_report == old(self).clean_report,
                safe_count == count_smart_safe(old(self).categories@.take(i as int)),
                safe_count <= i,
                forall|k: int|
                    0 <= k < i ==> {
                        let newc = #[trigger] self.categories@[k];
                        let oldc = old(self).categories@[k];
                        &&& newc.scan_result is None
                        &&& newc.entry_selected@.len() == 0
                        &&& newc.name == oldc.name
                        &&& newc.label == oldc.label
                        &&& newc.expanded == oldc.expanded
                        &&& newc.is_report_only == oldc.is_report_only
                        &&& newc.selected == spec_smart_safe(oldc.name@)
                    },
                forall|k: int|
                    i <= k < n ==> self.categories@[k] == old(self).categories@[k],
            decreases n - i,
        {
            proof {
                lemma_count_smart_safe_take_succ(old(self).categories@, i as int);
            }
            let safe = is_smart_safe(self.categories[i].name.as_str());
            self.categories[i].scan_result = None;
            self.categories[i].entry_selected = Vec::new();
            self.categories[i].selected = safe;
            if safe {
                safe_count = safe_count + 1;
            }
            i = i + 1;
        }
        proof {
            assert(old(self).categories@.take(n as int) =~= old(self).categories@);
        }
        self.progress_total = safe_count;
        true
    }
}

/// Category `c` currently offers an entry with this path and size for
/// deletion: the category is selected and deletable, and the entry is
/// individually selected.
pub open spec fn category_offers(c: CategoryState, path: Seq<char>, size: u64) -> bool {
    &&& c.selected
    &&& !c.is_report_only
    &&& c.scan_result is Some
    &&& exists|k: int|
        #![trigger c.scan_result->0.entries@[k]]
        0 <= k < c.scan_result->0.entries@.len() && c.entry_selected@[k]
            && c.scan_result->0.entries@[k].path@ == path && c.scan_result->0.entries@[
            k
        ].size_bytes == size
}

/// A delete item is justified by some category that offers it.
pub open spec fn item_from(cats: Seq<CategoryState>, it: DeleteItem) -> bool {
    exists|c: int|
        #![trigger cats[c]]
        0 <= c < cats.len() && cats[c].name@ == it.category_name@ && category_offers(
            cats[c],
            it.path@,
            it.size_bytes,
        )
}

/// Entry `kk` of category `cc` is in the current selection: its
/// category is selected and deletable, and its own flag is set.
pub open spec fn entry_qualifies(cats: Seq<CategoryState>, cc: int, kk: int) -> bool {
    &&& 0 <= cc < cats.len()
    &&& cats[cc].selected
    &&& !cats[cc].is_report_only
    &&& cats[cc].scan_result is Some
    &&& 0 <= kk < cats[cc].scan_result->0.entries@.len()
    &&& cats[cc].entry_selected@[kk]
}

/// Some snapshot item records entry `kk` of category `cc`.
pub open spec fn item_covers(
    cats: Seq<CategoryState>,
    items: Seq<DeleteItem>,
    cc: int,
    kk: int,
) -> bool {
    exists|m: int|
        #![trigger items[m]]
        0 <= m < items.len() && items[m].category_name@ == cats[cc].name@ && items[m].path@
            == cats[cc].scan_result->0.entries@[kk].path@ && items[m].size_bytes == cats[
            cc
        ].scan_result->0.entries@[kk].size_bytes
}

/// The snapshot covers every qualifying entry strictly before
/// position (`c`, `k`) in category-major order.
pub open spec fn snapshot_complete_upto(
    cats: Seq<CategoryState>,
    items: Seq<DeleteItem>,
    c: int,
    k: int,
) -> bool {
    forall|cc: int, kk: int|
        #![trigger cats[cc].scan_result->0.entries@[kk]]
        (entry_qualifies(cats, cc, kk) && (cc < c || (cc == c && kk < k))) ==> item_covers(
            cats,
            items,
            cc,
            kk,
        )
}

/// The snapshot contract: every item is offered by its category, and
/// every selected entry of every selected, deletable category appears
/// in the snapshot.
pub open spec fn delete_snapshot_ok(cats: Seq<CategoryState>, items: Seq<DeleteItem>) -> bool {
    &&& forall|m: int| 0 <= m < items.len() ==> item_from(cats, #[trigger] items[m])
    &&& snapshot_complete_upto(cats, items, cats.len() as int, 0)
}

/// Processing one entry extends coverage by one position: either the
/// entry was unselected, or exactly its item was appended.
proof fn lemma_snapshot_step(
    cats: Seq<CategoryState>,
    pre: Seq<DeleteItem>,
    cur: Seq<DeleteItem>,
    c: int,
    k: int,
)
    requires
        0 <= c < cats.len(),
        cats[c].scan_result is Some,
        0 <= k < cats[c].scan_result->0.entries@.len(),
        snapshot_complete_upto(cats, pre, c, k),
        entry_qualifies(cats, c, k) ==> cur.len() == pre.len() + 1 && cur[pre.len() as int].category_name@
            == cats[c].name@ && cur[pre.len() as int].path@ == cats[c].scan_result->0.entries@[
            k
        ].path@ && cur[pre.len() as int].size_bytes == cats[c].scan_result->0.entries@[
            k
        ].size_bytes,
        !entry_qualifies(cats, c, k) ==> cur == pre,
        forall|m: int| 0 <= m < pre.len() ==> cur[m] == pre[m],
    ensures
        snapshot_complete_upto(cats, cur, c, k + 1),
{
    assert forall|cc: int, kk: int|
        (entry_qualifies(cats, cc, kk) && (cc < c || (cc == c && kk < k + 1))) implies item_covers(
        cats,
        cur,
        cc,
        kk,
    ) by {
        let witness_entry = cats[cc].scan_result->0.entries@[kk];
        if cc == c && kk == k {
            assert(cur[pre.len() as int].category_name@ == cats[cc].name@);
        } else {
            assert(item_covers(cats, pre, cc, kk));
            let m0 = choose|m: int|
                #![trigger pre[m]]
                0 <= m < pre.len() && pre[m].category_name@ == cats[cc].name@ && pre[m].path@
                    == cats[cc].scan_result->0.entries@[kk].path@ && pre[m].size_bytes == cats[
                    cc
                ].scan_result->0.entries@[kk].size_bytes;
            assert(cur[m0] == pre[m0]);
        }
    }
}

/// Finishing a category's entries makes coverage complete through the
/// next category boundary.
proof fn lemma_snapshot_next_cat(
    cats: Seq<CategoryState>,
    items: Seq<DeleteItem>,
    c: int,
    nent: int,
)
    requires
        0 <= c < cats.len(),
        cats[c].scan_result is Some,
        nent == cats[c].scan_result->0.entries@.len(),
        snapshot_complete_upto(cats, items, c, nent),
    ensures
        snapshot_complete_upto(cats, items, c + 1, 0),
{
    assert forall|cc: int, kk: int|
        (entry_qualifies(cats, cc, kk) && (cc < c + 1 || (cc == c + 1 && kk < 0)))
            implies item_covers(cats, items, cc, kk) by {
        let witness_entry = cats[cc].scan_result->0.entries@[kk];
        assert(entry_qualifies(cats, cc, kk) && (cc < c || (cc == c && kk < nent)));
    }
}

/// A category that is unselected, report-only, or never scanned
/// contributes nothing; coverage carries to the next boundary.
proof fn lemma_snapshot_skip_cat(cats: Seq<CategoryState>, items: Seq<DeleteItem>, c: int)
    requires
        0 <= c < cats.len(),
        snapshot_complete_upto(cats, items, c, 0),
        !(cats[c].selected && !cats[c].is_report_only && cats[c].scan_result is Some),
    ensures
        snapshot_complete_upto(cats, items, c + 1, 0),
{
    assert forall|cc: int, kk: int|
        (entry_qualifies(cats, cc, kk) && (cc < c + 1 || (cc == c + 1 && kk < 0)))
            implies item_covers(cats, items, cc, kk) by {
        let witness_entry = cats[cc].scan_result->0.entries@[kk];
        if cc == c {
            assert(!entry_qualifies(cats, cc, kk));
        } else {
            assert(entry_qualifies(cats, cc, kk) && cc < c);
        }
    }
}

impl Session {
    /// Compute the exact set of items a clean or shred will act on:
    /// a snapshot over the current selection, taken before any
    /// deletion begins. Entries of unselected or report-only
    /// categories are never included.
    pub fn compute_delete_items(&self) -> (items: Vec<DeleteItem>)
        requires
            self.wf(),
        ensures
            delete_snapshot_ok(self.categories@, items@),
            forall|m: int, c: int|
                #![trigger items@[m], self.categories@[c]]
                (0 <= m < items@.len() && 0 <= c < self.categories@.len() && self.categories@[
                    c
                ].name@ == items@[m].category_name@ && self.distinct_names())
                    ==> self.categories@[c].selected && !self.categories@[c].is_report_only,
    {
        let ncats = self.categories.len();
        let mut items: Vec<DeleteItem> = Vec::new();
        let mut c: usize = 0;
        while c < ncats
            invariant
                0 <= c <= ncats,
                ncats == self.categories@.len(),
                self.wf(),
                forall|m: int|
                    0 <= m < items@.len() ==> item_from(self.categories@, #[trigger] items@[m]),
                snapshot_complete_upto(self.categories@, items@, c as int, 0),
            decreases ncats - c,
        {
            let ghost cats = self.categories@;
            let cat = &self.categories[c];
            if cat.selected && !cat.is_report_only {
                match &cat.scan_result {
                    None => {},
                    Some(res) => {
                        let nent = res.entries.len();
                        let mut k: usize = 0;
                        while k < nent
                            invariant
                                0 <= k <= nent,
                                0 <= c < ncats,
                                ncats == self.categories@.len(),
                                self.wf(),
                                *cat == self.categories@[c as int],
                                cat.selected,
                                !cat.is_report_only,
                                cat.scan_result is Some,
                                *res == cat.scan_result->0,
                                nent == res.entries@.len(),
                                cat.entry_selected@.len() == nent,
                                forall|m: int|
                                    0 <= m < items@.len() ==> item_from(
                                        self.categories@,
                                        #[trigger] items@[m],
                                    ),
                                snapshot_complete_upto(
                                    self.categories@,
                                    items@,
                                    c as int,
                                    k as int,
                                ),
                            decreases nent - k,
                        {
                            let ghost pre = items@;
                            if self.categories[c].entry_selected[k] {
                                let it = DeleteItem {
                                    category_name: cat.name.clone(),
                                    path: res.entries[k].path.clone(),
                                    size_bytes: res.entries[k].size_bytes,
                                };
                                proof {
                                    assert(category_offers(
                                        self.categories@[c as int],
                                        it.path@,
                                        it.size_bytes,
                                    ));
                                }
                                items.push(it);
                                proof {
                                    assert(forall|m: int|
                                        0 <= m < pre.len() ==> items@[m] == pre[m]);
                                    assert(item_from(self.categories@, items@[pre.len() as int]));
                                }
                            }
                            proof {
                                lemma_snapshot_step(
                                    self.categories@,
                                    pre,
                                    items@,
                                    c as int,
                                    k as int,
                                );
                            }
                            k = k + 1;
                        }
                        proof {
                            lemma_snapshot_next_cat(
                                self.categories@,
                                items@,
                                c as int,
                                nent as int,
                            );
                        }
                    },
                }
            }
            proof {
                if !(cats[c as int].selected && !cats[c as int].is_report_only
                    && cats[c as int].scan_result is Some) {
                    lemma_snapshot_skip_cat(self.categories@, items@, c as int);
                }
            }
            c = c + 1;
        }
        proof {
            assert(delete_snapshot_ok(self.categories@, items@)) by {
                assert(snapshot_complete_upto(self.categories@, items@, ncats as int, 0));
            }
        }
        items
    }

    /// Start a clean over the current selection. A no-op unless the
    /// session is idle and the confirmation gate is open: deletion
    /// never begins without the explicit confirmation record. Returns
    /// the snapshot of items to delete; the caller performs the
    /// deletions and reports each outcome back as a message.
    pub fn begin_clean(&mut self) -> (items: Option<Vec<DeleteItem>>)
        requires
            old(self).wf(),
        ensures
            final(self).wf(),
            (items is Some) == (old(self).phase == AppPhase::Idle
                && old(self).confirm_dialog.visible),
            items is None ==> *final(self) == *old(self),
            items is Some ==> {
                &&& delete_snapshot_ok(old(self).categories@, items->0@)
                &&& final(self).phase == AppPhase::Cleaning
                &&& final(self).categories == old(self).categories
                &&& !final(self).confirm_dialog.visible
                &&& final(self).cleaned_bytes == 0
                &&& final(self).clean_report@.len() == 0
                &&& final(self).progress_label@ == "Starting cleanup..."@
                &&& final(self).progress_total == old(self).progress_total
                &&& final(self).progress_completed == old(self).progress_completed
                &&& final(self).errors == old(self).errors
            },
    {
        if !(self.phase == AppPhase::Idle) || !self.confirm_dialog.visible {
            return None;
        }
        self.phase = AppPhase::Cleaning;
        self.progress_label = String::from_str("Starting cleanup...");
        self.confirm_dialog.visible = false;
        self.cleaned_bytes = 0;
        self.clean_report = Vec::new();
        let items = self.compute_delete_items();
        Some(items)
    }

    /// Start a secure shred over the current selection. Same boundary
    /// and confirmation gate as a clean; only the progress wording
    /// differs.
    pub fn begin_shred(&mut self) -> (items: Option<Vec<DeleteItem>>)
        requires
            old(self).wf(),
        ensures
            final(self).wf(),
            (items is Some) == (old(self).phase == AppPhase::Idle
                && old(self).confirm_dialog.visible),
            items is None ==> *final(self) == *old(self),
            items is Some ==> {
                &&& delete_snapshot_ok(old(self).categories@, items->0@)
                &&& final(self).phase == AppPhase::Cleaning
                &&& final(self).categories == old(self).categories
                &&& !final(self).confirm_dialog.visible
                &&& final(self).cleaned_bytes == 0
                &&& final(self).clean_report == old(self).clean_report
                &&& final(self).progress_label@ == "Starting secure shred..."@
                &&& final(self).progress_total == old(self).progress_total
                &&& final(self).progress_completed == old(self).progress_completed
                &&& final(self).errors == old(self).errors
            },
    {
        if !(self.phase == AppPhase::Idle) || !self.confirm_dialog.visible {
            return None;
        }
        self.phase = AppPhase::Cleaning;
        self.progress_label = String::from_str("Starting secure shred...");
        self.confirm_dialog.visible = false;
        self.cleaned_bytes = 0;
        let items = self.compute_delete_items();
        Some(items)
    }
}

/// A category that takes part in deletion: selected and not
/// report-only.
pub open spec fn participates(c: CategoryState) -> bool {
    c.selected && !c.is_report_only
}

/// Total bytes currently selected for deletion across all categories.
pub open spec fn session_selected_total(cats: Seq<CategoryState>) -> int
    decreases cats.len(),
{
    if cats.len() == 0 {
        0
    } else {
        (if participates(cats[0]) {
            cats[0].spec_selected_bytes()
        } else {
            0
        }) + session_selected_total(cats.drop_first())
    }
}

/// Total number of entries currently selected for deletion.
pub open spec fn session_selected_count(cats: Seq<CategoryState>) -> int
    decreases cats.len(),
{
    if cats.len() == 0 {
        0
    } else {
        (if participates(cats[0]) {
            cats[0].spec_selected_count()
        } else {
            0
        }) + session_selected_count(cats.drop_first())
    }
}

proof fn lemma_selected_sum_nonneg(entries: Seq<ScanEntry>, sel: Seq<bool>)
    ensures
        selected_sum(entries, sel) >= 0,
    decreases entries.len(),
{
    if entries.len() > 0 {
        lemma_selected_sum_nonneg(entries.drop_first(), sel.drop_first());
    }
}

/// With no entry selected, the selected total is zero.
proof fn lemma_no_selection_no_sum(entries: Seq<ScanEntry>, sel: Seq<bool>)
    requires
        sel.len() == entries.len(),
        count_true(sel) == 0,
    ensures
        selected_sum(entries, sel) == 0,
    decreases entries.len(),
{
    if entries.len() > 0 {
        lemma_count_true_bounds(sel.drop_first());
        lemma_no_selection_no_sum(entries.drop_first(), sel.drop_first());
    }
}

proof fn lemma_session_total_take_succ(cats: Seq<CategoryState>, i: int)
    requires
        0 <= i < cats.len(),
    ensures
        session_selected_total(cats.take(i + 1)) == session_selected_total(cats.take(i)) + (
        if participates(cats[i]) {
            cats[i].spec_selected_bytes()
        } else {
            0
        }),
        session_selected_count(cats.take(i + 1)) == session_selected_count(cats.take(i)) + (
        if participates(cats[i]) {
            cats[i].spec_selected_count()
        } else {
            0
        }),
    decreases i,
{
    if i == 0 {
        assert(cats.take(1).drop_first() =~= cats.take(0));
        assert(cats.take(0) =~= Seq::<CategoryState>::empty());
    } else {
        lemma_session_total_take_succ(cats.drop_first(), i - 1);
        assert(cats.take(i + 1).drop_first() =~= cats.drop_first().take(i));
        assert(cats.take(i).drop_first() =~= cats.drop_first().take(i - 1));
    }
}

/// The line shown for one category in the confirmation dialog.
#[verifier::opaque]
pub open spec fn spec_dialog_line(c: CategoryState) -> Seq<char> {
    c.label@ + " ("@ + spec_dec(c.spec_selected_count()) + " items, "@ + spec_format_size(
        clamp_u64(c.spec_selected_bytes()),
    ) + ")"@
}

/// Line `line` is the dialog line of some participating category
/// with a non-empty selection among the first `bound` categories.
pub open spec fn line_from(cats: Seq<CategoryState>, line: String, bound: int) -> bool {
    exists|c: int|
        #![trigger cats[c]]
        0 <= c < bound && participates(cats[c]) && cats[c].spec_selected_count() > 0 && line@
            == spec_dialog_line(cats[c])
}

/// Some line shows the given text.
pub open spec fn has_line(names: Seq<String>, target: Seq<char>) -> bool {
    exists|m: int| #![trigger names[m]] 0 <= m < names.len() && names[m]@ == target
}

/// Every dialog line belongs to some participating category with a
/// non-empty selection among the first `bound` categories.
pub open spec fn dialog_lines_sound(
    cats: Seq<CategoryState>,
    names: Seq<String>,
    bound: int,
) -> bool {
    forall|m: int|
        #![trigger names[m]]
        0 <= m < names.len() ==> line_from(cats, names[m], bound)
}

/// Every participating category with a non-empty selection among the
/// first `bound` categories has its dialog line.
pub open spec fn dialog_lines_complete(
    cats: Seq<CategoryState>,
    names: Seq<String>,
    bound: int,
) -> bool {
    forall|c: int|
        #![trigger cats[c]]
        (0 <= c < bound && participates(cats[c]) && cats[c].spec_selected_count() > 0)
            ==> has_line(names, spec_dialog_line(cats[c]))
}

/// A line's source category stays a source under a wider bound.
proof fn lemma_line_from_widen(cats: Seq<CategoryState>, line: String, b1: int, b2: int)
    requires
        line_from(cats, line, b1),
        b1 <= b2,
    ensures
        line_from(cats, line, b2),
{
    let c0 = choose|c: int|
        #![trigger cats[c]]
        0 <= c < b1 && participates(cats[c]) && cats[c].spec_selected_count() > 0 && line@
            == spec_dialog_line(cats[c]);
    assert(0 <= c0 < b2 && participates(cats[c0]) && cats[c0].spec_selected_count() > 0 && line@
        == spec_dialog_line(cats[c0]));
}

/// Appending the line of a qualifying category keeps the dialog-line
/// properties through the next category.
proof fn lemma_dialog_lines_push(
    cats: Seq<CategoryState>,
    pre: Seq<String>,
    cur: Seq<String>,
    i: int,
)
    requires
        0 <= i < cats.len(),
        dialog_lines_sound(cats, pre, i),
        dialog_lines_complete(cats, pre, i),
        participates(cats[i]),
        cats[i].spec_selected_count() > 0,
        cur.len() == pre.len() + 1,
        forall|m: int| 0 <= m < pre.len() ==> cur[m] == pre[m],
        cur[pre.len() as int]@ == spec_dialog_line(cats[i]),
    ensures
        dialog_lines_sound(cats, cur, i + 1),
        dialog_lines_complete(cats, cur, i + 1),
{
    assert forall|m: int| #![trigger cur[m]] 0 <= m < cur.len() implies line_from(
        cats,
        cur[m],
        i + 1,
    ) by {
        if m < pre.len() {
            assert(cur[m] == pre[m]);
            assert(line_from(cats, pre[m], i));
            lemma_line_from_widen(cats, pre[m], i, i + 1);
        } else {
            assert(0 <= i < i + 1 && participates(cats[i]) && cats[i].spec_selected_count() > 0
                && cur[m]@ == spec_dialog_line(cats[i]));
        }
    }
    assert forall|c: int|
        #![trigger cats[c]]
        (0 <= c < i + 1 && participates(cats[c]) && cats[c].spec_selected_count() > 0)
            implies has_line(cur, spec_dialog_line(cats[c])) by {
        if c == i {
            assert(cur[pre.len() as int]@ == spec_dialog_line(cats[c]));
        } else {
            assert(has_line(pre, spec_dialog_line(cats[c])));
            let m0 = choose|m: int|
                #![trigger pre[m]]
                0 <= m < pre.len() && pre[m]@ == spec_dialog_line(cats[c]);
            assert(cur[m0] == pre[m0]);
        }
    }
}

/// Skipping a category that does not participate or has nothing
/// selected keeps the dialog-line properties through the next
/// category.
proof fn lemma_dialog_lines_skip(cats: Seq<CategoryState>, names: Seq<String>, i: int)
    requires
        0 <= i < cats.len(),
        dialog_lines_sound(cats, names, i),
        dialog_lines_complete(cats, names, i),
        !(participates(cats[i]) && cats[i].spec_selected_count() > 0),
    ensures
        dialog_lines_sound(cats, names, i + 1),
        dialog_lines_complete(cats, names, i + 1),
{
    assert forall|m: int| #![trigger names[m]] 0 <= m < names.len() implies line_from(
        cats,
        names[m],
        i + 1,
    ) by {
        assert(line_from(cats, names[m], i));
        lemma_line_from_widen(cats, names[m], i, i + 1);
    }
    assert forall|c: int|
        #![trigger cats[c]]
        (0 <= c < i + 1 && participates(cats[c]) && cats[c].spec_selected_count() > 0)
            implies has_line(names, spec_dialog_line(cats[c])) by {
        assert(c < i);
    }
}

impl Session {
    /// Open the confirmation gate: record the exact total bytes and
    /// item count about to be affected, with one line for every
    /// participating category that has selected entries. No deletion
    /// may begin without this record.
    pub fn show_confirm_dialog(&mut self, shred_mode: bool)
        requires
            old(self).wf(),
        ensures
            final(self).wf(),
            final(self).categories == old(self).categories,
            final(self).phase == old(self).phase,
            final(self).progress_label == old(self).progress_label,
            final(self).progress_total == old(self).progress_total,
            final(self).progress_completed == old(self).progress_completed,
            final(self).errors == old(self).errors,
            final(self).cleaned_bytes == old(self).cleaned_bytes,
            final(self).clean_report == old(self).clean_report,
            final(self).confirm_dialog.visible,
            final(self).confirm_dialog.shred_mode == shred_mode,
            final(self).confirm_dialog.total_bytes == clamp_u64(
                session_selected_total(old(self).categories@),
            ),
            final(self).confirm_dialog.file_count == clamp_usize(
                session_selected_count(old(self).categories@),
            ),
            dialog_lines_sound(
                old(self).categories@,
                final(self).confirm_dialog.category_names@,
                old(self).categories@.len() as int,
            ),
            dialog_lines_complete(
                old(self).categories@,
                final(self).confirm_dialog.category_names@,
                old(self).categories@.len() as int,
            ),
    {
        let n = self.categories.len();
        let mut total_bytes: u64 = 0;
        let mut file_count: usize = 0;
        let mut category_names: Vec<String> = Vec::new();
        let mut i: usize = 0;
        proof {
            assert(self.categories@.take(0) =~= Seq::<CategoryState>::empty());
        }
        while i < n
            invariant
                0 <= i <= n,
                n == self.categories@.len(),
                self.wf(),
                *self == *old(self),
                total_bytes == clamp_u64(session_selected_total(self.categories@.take(i as int))),
                file_count == clamp_usize(
                    session_selected_count(self.categories@.take(i as int)),
                ),
                session_selected_total(self.categories@.take(i as int)) >= 0,
                session_selected_count(self.categories@.take(i as int)) >= 0,
                dialog_lines_sound(self.categories@, category_names@, i as int),
                dialog_lines_complete(self.categories@, category_names@, i as int),
            decreases n - i,
        {
            let ghost pre_names = category_names@;
            proof {
                lemma_session_total_take_succ(self.categories@, i as int);
                lemma_count_true_bounds(self.categories@[i as int].entry_selected@);
                match self.categories@[i as int].scan_result {
                    Some(r) => lemma_selected_sum_nonneg(
                        r.entries@,
                        self.categories@[i as int].entry_selected@,
                    ),
                    None => {},
                }
            }
            let cat = &self.categories[i];
            let mut pushed = false;
            if cat.selected && !cat.is_report_only {
                let cnt = cat.selected_count();
                if cnt > 0 {
                    let bytes = cat.selected_bytes();
                    if total_bytes <= u64::MAX - bytes {
                        total_bytes = total_bytes + bytes;
                    } else {
                        total_bytes = u64::MAX;
                    }
                    if file_count <= usize::MAX - cnt {
                        file_count = file_count + cnt;
                    } else {
                        file_count = usize::MAX;
                    }
                    let line = cat.label.clone().concat(" (").concat(
                        u64_to_string(cnt as u64).as_str(),
                    ).concat(" items, ").concat(format_size(bytes).as_str()).concat(")");
                    proof {
                        reveal(spec_dialog_line);
                        assert(line@ == spec_dialog_line(self.categories@[i as int]));
                    }
                    category_names.push(line);
                    pushed = true;
                    proof {
                        assert(forall|m: int|
                            0 <= m < pre_names.len() ==> category_names@[m] == pre_names[m]);
                        lemma_dialog_lines_push(
                            self.categories@,
                            pre_names,
                            category_names@,
                            i as int,
                        );
                    }
                } else {
                    proof {
                        match self.categories@[i as int].scan_result {
                            Some(r) => lemma_no_selection_no_sum(
                                r.entries@,
                                self.categories@[i as int].entry_selected@,
                            ),
                            None => {},
                        }
                    }
                }
            }
            proof {
                if !pushed {
                    lemma_dialog_lines_skip(self.categories@, category_names@, i as int);
                }
            }
            i = i + 1;
        }
        proof {
            assert(self.categories@.take(n as int) =~= self.categories@);
        }
        self.confirm_dialog = ConfirmDialog {
            visible: true,
            shred_mode,
            total_bytes,
            file_count,
            category_names,
        };
    }
}


/// How many categories belong to the smart-clean safe subset.
pub open spec fn count_smart_safe(cats: Seq<CategoryState>) -> int
    decreases cats.len(),
{
    if cats.len() == 0 {
        0
    } else {
        (if spec_smart_safe(cats[0].name@) {
            1int
        } else {
            0int
        }) + count_smart_safe(cats.drop_first())
    }
}

proof fn lemma_count_smart_safe_take_succ(cats: Seq<CategoryState>, i: int)
    requires
        0 <= i < cats.len(),
    ensures
        count_smart_safe(cats.take(i + 1)) == count_smart_safe(cats.take(i)) + (if spec_smart_safe(
            cats[i].name@,
        ) {
            1int
        } else {
            0int
        }),
    decreases i,
{
    if i == 0 {
        assert(cats.take(1).drop_first() =~= cats.take(0));
        assert(cats.take(0) =~= Seq::<CategoryState>::empty());
    } else {
        lemma_count_smart_safe_take_succ(cats.drop_first(), i - 1);
        assert(cats.take(i + 1).drop_first() =~= cats.drop_first().take(i));
        assert(cats.take(i).drop_first() =~= cats.drop_first().take(i - 1));
    }
}

/// Some selected, deletable category has selected entries.
pub open spec fn any_selected_items(cats: Seq<CategoryState>) -> bool {
    exists|c: int|
        0 <= c < cats.len() && (#[trigger] cats[c]).selected && !cats[c].is_report_only && cats[
            c
        ].spec_selected_count() > 0
}

/// The report line recorded for one deleted item.
pub open spec fn spec_report_line(cat: Seq<char>, path: Seq<char>, freed: u64) -> Seq<char> {
    "["@ + cat + "] "@ + path + " ("@ + spec_format_size(freed) + ")"@
}

/// The warning recorded for one failed deletion.
pub open spec fn spec_delete_error_line(path: Seq<char>, err: Seq<char>) -> Seq<char> {
    "Failed to delete "@ + path + ": "@ + err
}

/// After a scan completes, its category holds the new result with
/// every entry selected, and keeps its identity.
pub open spec fn scanned_like(newc: CategoryState, oldc: CategoryState, result: ScanResult) -> bool {
    &&& newc.scan_result == Some(result)
    &&& newc.entry_selected@.len() == result.entries@.len()
    &&& forall|i: int| 0 <= i < newc.entry_selected@.len() ==> newc.entry_selected@[i]
    &&& newc.name == oldc.name
    &&& newc.label == oldc.label
    &&& newc.selected == oldc.selected
    &&& newc.expanded == oldc.expanded
    &&& newc.is_report_only == oldc.is_report_only
}

/// After a successful deletion, the entry with the given path is gone
/// from its category — removed at one index from both the entries and
/// the selection flags, keeping them aligned — and the total is the
/// fresh sum of what remains. A category without that path is
/// untouched.
pub open spec fn removed_entry_ok(oldc: CategoryState, newc: CategoryState, path: Seq<char>) -> bool {
    &&& newc.name == oldc.name
    &&& newc.label == oldc.label
    &&& newc.selected == oldc.selected
    &&& newc.expanded == oldc.expanded
    &&& newc.is_report_only == oldc.is_report_only
    &&& if oldc.scan_result is Some && crate::duplicates::contains_path(
        oldc.scan_result->0.entries@,
        path,
    ) {
        exists|k: int|
            #![trigger oldc.scan_result->0.entries@[k]]
            {
                &&& 0 <= k < oldc.scan_result->0.entries@.len()
                &&& oldc.scan_result->0.entries@[k].path@ == path
                &&& forall|m: int|
                    0 <= m < k ==> oldc.scan_result->0.entries@[m].path@ != path
                &&& newc.scan_result is Some
                &&& newc.scan_result->0.entries@ == oldc.scan_result->0.entries@.remove(k)
                &&& newc.scan_result->0.total_bytes == sum_sizes(
                    oldc.scan_result->0.entries@.remove(k),
                )
                &&& newc.scan_result->0.errors@ == oldc.scan_result->0.errors@
                &&& newc.entry_selected@ == oldc.entry_selected@.remove(k)
            }
    } else {
        newc == oldc
    }
}

/// A vector of `n` copies of `val`.
fn make_bools(n: usize, val: bool) -> (v: Vec<bool>)
    ensures
        v@.len() == n,
        forall|i: int| 0 <= i < n ==> v@[i] == val,
{
    let mut v: Vec<bool> = Vec::new();
    let mut i: usize = 0;
    while i < n
        invariant
            0 <= i <= n,
            v@.len() == i,
            forall|k: int| 0 <= k < i ==> v@[k] == val,
        decreases n - i,
    {
        v.push(val);
        i = i + 1;
    }
    v
}

/// The first entry with the given path, if any.
fn find_entry_index(r: &ScanResult, path: &str) -> (idx: Option<usize>)
    ensures
        match idx {
            Some(k) => k < r.entries@.len() && r.entries@[k as int].path@ == path@ && forall|
                m: int,
            |
                0 <= m < k ==> r.entries@[m].path@ != path@,
            None => forall|m: int| 0 <= m < r.entries@.len() ==> r.entries@[m].path@ != path@,
        },
{
    let n = r.entries.len();
    let mut k: usize = 0;
    while k < n
        invariant
            0 <= k <= n,
            n == r.entries@.len(),
            forall|m: int| 0 <= m < k ==> r.entries@[m].path@ != path@,
        decreases n - k,
    {
        if str_eq(r.entries[k].path.as_str(), path) {
            return Some(k);
        }
        k = k + 1;
    }
    None
}

impl Session {
    /// Apply one worker message to the owning state. This is the only
    /// place scan results, deletion outcomes, and phase changes become
    /// visible, so results are applied atomically per category, the
    /// selection flags stay aligned with the entries, and every total
    /// is recomputed as a fresh sum.
    #[verifier::rlimit(60)]
    pub fn apply_message(&mut self, msg: BgMessage)
        requires
            old(self).wf(),
            msg.wf(),
        ensures
            final(self).wf(),
            final(self).categories@.len() == old(self).categories@.len(),
            (msg matches BgMessage::Progress(label) ==> {
                &&& final(self).progress_label == label
                &&& final(self).categories == old(self).categories
                &&& final(self).phase == old(self).phase
                &&& final(self).progress_total == old(self).progress_total
                &&& final(self).progress_completed == old(self).progress_completed
                &&& final(self).confirm_dialog == old(self).confirm_dialog
                &&& final(self).errors == old(self).errors
                &&& final(self).cleaned_bytes == old(self).cleaned_bytes
                &&& final(self).clean_report == old(self).clean_report
            }),
            (msg matches BgMessage::ScanComplete(name, result) ==> {
                &&& final(self).progress_completed == clamp_usize(
                    old(self).progress_completed + 1,
                )
                &&& final(self).phase == old(self).phase
                &&& final(self).progress_label == old(self).progress_label
                &&& final(self).progress_total == old(self).progress_total
                &&& final(self).confirm_dialog == old(self).confirm_dialog
                &&& final(self).errors == old(self).errors
                &&& final(self).cleaned_bytes == old(self).cleaned_bytes
                &&& final(self).clean_report == old(self).clean_report
                &&& if exists|c: int|
                    0 <= c < old(self).categories@.len() && (#[trigger] old(self).categories@[c]).name@ == name@ {
                    exists|ci: int|
                        #![trigger old(self).categories@[ci]]
                        {
                            &&& 0 <= ci < old(self).categories@.len()
                            &&& old(self).categories@[ci].name@ == name@
                            &&& forall|k: int|
                                0 <= k < ci ==> old(self).categories@[k].name@ != name@
                            &&& scanned_like(
                                final(self).categories@[ci],
                                old(self).categories@[ci],
                                result,
                            )
                            &&& forall|k: int|
                                0 <= k < old(self).categories@.len() && k != ci ==> final(self).categories@[k] == old(self).categories@[k]
                        }
                } else {
                    final(self).categories == old(self).categories
                }
            }),
            (msg matches BgMessage::AllScansComplete { smart_clean } ==> {
                &&& final(self).phase == AppPhase::Idle
                &&& final(self).progress_label@.len() == 0
                &&& final(self).categories == old(self).categories
                &&& final(self).progress_total == old(self).progress_total
                &&& final(self).progress_completed == old(self).progress_completed
                &&& final(self).errors == old(self).errors
                &&& final(self).cleaned_bytes == old(self).cleaned_bytes
                &&& final(self).clean_report == old(self).clean_report
                &&& if smart_clean && any_selected_items(old(self).categories@) {
                    &&& final(self).confirm_dialog.visible
                    &&& !final(self).confirm_dialog.shred_mode
                    &&& final(self).confirm_dialog.total_bytes == clamp_u64(
                        session_selected_total(old(self).categories@),
                    )
                    &&& final(self).confirm_dialog.file_count == clamp_usize(
                        session_selected_count(old(self).categories@),
                    )
                    &&& dialog_lines_sound(
                        old(self).categories@,
                        final(self).confirm_dialog.category_names@,
                        old(self).categories@.len() as int,
                    )
                    &&& dialog_lines_complete(
                        old(self).categories@,
                        final(self).confirm_dialog.category_names@,
                        old(self).categories@.len() as int,
                    )
                } else {
                    final(self).confirm_dialog == old(self).confirm_dialog
                }
            }),
            (msg matches BgMessage::DeletedFile(cat_name, path, freed) ==> {
                &&& final(self).cleaned_bytes == clamp_u64(old(self).cleaned_bytes + freed)
                &&& final(self).clean_report@.len() == old(self).clean_report@.len() + 1
                &&& forall|m: int|
                    0 <= m < old(self).clean_report@.len() ==> final(self).clean_report@[m]
                        == old(self).clean_report@[m]
                &&& final(self).clean_report@.last()@ == spec_report_line(
                    cat_name@,
                    path@,
                    freed,
                )
                &&& final(self).phase == old(self).phase
                &&& final(self).progress_label == old(self).progress_label
                &&& final(self).progress_total == old(self).progress_total
                &&& final(self).progress_completed == old(self).progress_completed
                &&& final(self).confirm_dialog == old(self).confirm_dialog
                &&& final(self).errors == old(self).errors
                &&& if exists|c: int|
                    0 <= c < old(self).categories@.len() && (#[trigger] old(self).categories@[c]).name@ == cat_name@ {
                    exists|ci: int|
                        #![trigger old(self).categories@[ci]]
                        {
                            &&& 0 <= ci < old(self).categories@.len()
                            &&& old(self).categories@[ci].name@ == cat_name@
                            &&& forall|k: int|
                                0 <= k < ci ==> old(self).categories@[k].name@ != cat_name@
                            &&& removed_entry_ok(
                                old(self).categories@[ci],
                                final(self).categories@[ci],
                                path@,
                            )
                            &&& forall|k: int|
                                0 <= k < old(self).categories@.len() && k != ci ==> final(self).categories@[k] == old(self).categories@[k]
                        }
                } else {
                    final(self).categories == old(self).categories
                }
            }),
            (msg matches BgMessage::DeleteError(cat_name, path, err) ==> {
                &&& final(self).errors@.len() == old(self).errors@.len() + 1
                &&& forall|m: int|
                    0 <= m < old(self).errors@.len() ==> final(self).errors@[m] == old(self).errors@[m]
                &&& final(self).errors@.last()@ == spec_delete_error_line(path@, err@)
                &&& final(self).categories == old(self).categories
                &&& final(self).phase == old(self).phase
                &&& final(self).progress_label == old(self).progress_label
                &&& final(self).progress_total == old(self).progress_total
                &&& final(self).progress_completed == old(self).progress_completed
                &&& final(self).confirm_dialog == old(self).confirm_dialog
                &&& final(self).cleaned_bytes == old(self).cleaned_bytes
                &&& final(self).clean_report == old(self).clean_report
            }),
            ((msg is AllCleansComplete || msg is AllShredsComplete) ==> {
                &&& final(self).phase == AppPhase::Idle
                &&& final(self).progress_label@.len() == 0
                &&& final(self).categories == old(self).categories
                &&& final(self).progress_total == old(self).progress_total
                &&& final(self).progress_completed == old(self).progress_completed
                &&& final(self).confirm_dialog == old(self).confirm_dialog
                &&& final(self).errors == old(self).errors
                &&& final(self).cleaned_bytes == old(self).cleaned_bytes
                &&& final(self).clean_report == old(self).clean_report
            }),
    {
        match msg {
            BgMessage::Progress(label) => {
                self.progress_label = label;
            },
            BgMessage::ScanComplete(name, result) => {
                if self.progress_completed < usize::MAX {
                    self.progress_completed = self.progress_completed + 1;
                }
                let idx = self.find_category(name.as_str());
                match idx {
                    None => {},
                    Some(ci) => {
                        let ghost oldcats = self.categories@;
                        let mut cat = self.categories.remove(ci);
                        let count = result.entries.len();
                        cat.entry_selected = make_bools(count, true);
                        cat.scan_result = Some(result);
                        self.categories.insert(ci, cat);
                        proof {
                            assert forall|k: int|
                                0 <= k < oldcats.len() && k != ci implies self.categories@[k]
                                == oldcats[k] by {
                                if k < ci {
                                } else {
                                    assert(self.categories@[k] == oldcats.remove(ci as int)[k - 1]);
                                }
                            }
                        }
                    },
                }
            },
            BgMessage::AllScansComplete { smart_clean } => {
                self.phase = AppPhase::Idle;
                self.progress_label = String::new();
                if smart_clean {
                    if self.has_selected_items() {
                        self.show_confirm_dialog(false);
                    }
                }
            },
            BgMessage::DeletedFile(cat_name, path, freed) => {
                if self.cleaned_bytes <= u64::MAX - freed {
                    self.cleaned_bytes = self.cleaned_bytes + freed;
                } else {
                    self.cleaned_bytes = u64::MAX;
                }
                let size_text = format_size(freed);
                let line = String::from_str("[").concat(cat_name.as_str()).concat("] ").concat(
                    path.as_str(),
                ).concat(" (").concat(size_text.as_str()).concat(")");
                self.clean_report.push(line);
                let idx = self.find_category(cat_name.as_str());
                match idx {
                    None => {},
                    Some(ci) => {
                        let ghost oldcats = self.categories@;
                        let mut cat = self.categories.remove(ci);
                        let ghost oldcat = cat;
                        match cat.scan_result {
                            None => {
                                cat.scan_result = None;
                                self.categories.insert(ci, cat);
                            },
                            Some(mut r) => {
                                let k_opt = find_entry_index(&r, path.as_str());
                                match k_opt {
                                    None => {
                                        cat.scan_result = Some(r);
                                        self.categories.insert(ci, cat);
                                    },
                                    Some(k) => {
                                        proof {
                                            lemma_sum_remove(r.entries@, k as int);
                                            lemma_sum_nonneg(r.entries@.remove(k as int));
                                        }
                                        r.entries.remove(k);
                                        cat.entry_selected.remove(k);
                                        let fresh_total = crate::cleaner::sum_entry_sizes(
                                            &r.entries,
                                        );
                                        r.total_bytes = fresh_total;
                                        cat.scan_result = Some(r);
                                        self.categories.insert(ci, cat);
                                        proof {
                                            assert(removed_entry_ok(
                                                oldcat,
                                                self.categories@[ci as int],
                                                path@,
                                            ));
                                        }
                                    },
                                }
                            },
                        }
                        proof {
                            assert forall|k: int|
                                0 <= k < oldcats.len() && k != ci implies self.categories@[k]
                                == oldcats[k] by {
                                if k < ci {
                                } else {
                                    assert(self.categories@[k] == oldcats.remove(ci as int)[k - 1]);
                                }
                            }
                        }
                    },
                }
            },
            BgMessage::DeleteError(_cat_name, path, err) => {
                let line = String::from_str("Failed to delete ").concat(path.as_str()).concat(
                    ": ",
                ).concat(err.as_str());
                self.errors.push(line);
            },
            BgMessage::AllCleansComplete => {
                self.phase = AppPhase::Idle;
                self.progress_label = String::new();
            },
            BgMessage::AllShredsComplete => {
                self.phase = AppPhase::Idle;
                self.progress_label = String::new();
            },
        }
    }
}

} // verus!
