//! Application bundle size analysis: classify every file inside a
//! bundle by where it sits under `Contents`, and total each bucket.
//!
//! The embedding application walks the bundle and reports each file's
//! size together with its first path component below `Contents`;
//! the classification and the totals are computed here.

use vstd::prelude::*;
use crate::strings::str_eq;

verus! {

/// The size breakdown of one application bundle.
pub struct AppInfo {
    pub name: String,
    pub path: String,
    pub total_size: u64,
    pub binary_size: u64,
    pub resources_size: u64,
    pub frameworks_size: u64,
    pub plugins_size: u64,
    pub other_size: u64,
}

/// The bucket one bundle file falls into.
#[derive(PartialEq, Eq, Structural, Clone, Copy, Debug)]
pub enum BundlePart {
    Binary,
    Resources,
    Frameworks,
    Plugins,
    Other,
}

/// One file discovered inside a bundle: its size, and its first path
/// component below `Contents` when it sits there.
pub struct BundleFile {
    pub size: u64,
    pub contents_component: Option<String>,
}

/// Which bucket a first path component below `Contents` belongs to.
pub open spec fn spec_classify(name: Seq<char>) -> BundlePart {
    if name == "MacOS"@ {
        BundlePart::Binary
    } else if name == "Resources"@ {
        BundlePart::Resources
    } else if name == "Frameworks"@ {
        BundlePart::Frameworks
    } else if name == "PlugIns"@ || name == "Plugins"@ || name == "Extensions"@ || name
        == "Helpers"@ || name == "XPCServices"@ || name == "Library"@ {
        BundlePart::Plugins
    } else {
        BundlePart::Other
    }
}

/// Classify a file by its first path component below `Contents`.
pub fn classify_component(name: &str) -> (r: BundlePart)
    ensures
        r == spec_classify(name@),
{
    if str_eq(name, "MacOS") {
        BundlePart::Binary
    } else if str_eq(name, "Resources") {
        BundlePart::Resources
    } else if str_eq(name, "Frameworks") {
        BundlePart::Frameworks
    } else if str_eq(name, "PlugIns") || str_eq(name, "Plugins") || str_eq(name, "Extensions")
        || str_eq(name, "Helpers") || str_eq(name, "XPCServices") || str_eq(name, "Library") {
        BundlePart::Plugins
    } else {
        BundlePart::Other
    }
}

/// The bucket of one discovered file: files outside `Contents` count
/// only toward the bundle total.
pub open spec fn spec_file_part(f: BundleFile) -> BundlePart {
    match f.contents_component {
        Some(c) => spec_classify(c@),
        None => BundlePart::Other,
    }
}

/// Sum of the sizes of the files in one bucket.
pub open spec fn part_sum(files: Seq<BundleFile>, part: BundlePart) -> int
    decreases files.len(),
{
    if files.len() == 0 {
        0
    } else {
        (if spec_file_part(files[0]) == part {
            files[0].size as int
        } else {
            0
        }) + part_sum(files.drop_first(), part)
    }
}

/// Sum of all file sizes in the bundle.
pub open spec fn bundle_sum(files: Seq<BundleFile>) -> int
    decreases files.len(),
{
    if files.len() == 0 {
        0
    } else {
        files[0].size + bundle_sum(files.drop_first())
    }
}

proof fn lemma_bundle_take_succ(files: Seq<BundleFile>, i: int)
    requires
        0 <= i < files.len(),
    ensures
        bundle_sum(files.take(i + 1)) == bundle_sum(files.take(i)) + files[i].size,
        part_sum(files.take(i + 1), BundlePart::Binary) == part_sum(
            files.take(i),
            BundlePart::Binary,
        ) + (if spec_file_part(files[i]) == BundlePart::Binary {
            files[i].size as int
        } else {
            0
        }),
        part_sum(files.take(i + 1), BundlePart::Resources) == part_sum(
            files.take(i),
            BundlePart::Resources,
        ) + (if spec_file_part(files[i]) == BundlePart::Resources {
            files[i].size as int
        } else {
            0
        }),
        part_sum(files.take(i + 1), BundlePart::Frameworks) == part_sum(
            files.take(i),
            BundlePart::Frameworks,
        ) + (if spec_file_part(files[i]) == BundlePart::Frameworks {
            files[i].size as int
        } else {
            0
        }),
        part_sum(files.take(i + 1), BundlePart::Plugins) == part_sum(
            files.take(i),
            BundlePart::Plugins,
        ) + (if spec_file_part(files[i]) == BundlePart::Plugins {
            files[i].size as int
        } else {
            0
        }),
        bundle_sum(files.take(i)) >= 0,
        part_sum(files.take(i), BundlePart::Binary) >= 0,
        part_sum(files.take(i), BundlePart::Resources) >= 0,
        part_sum(files.take(i), BundlePart::Frameworks) >= 0,
        part_sum(files.take(i), BundlePart::Plugins) >= 0,
    decreases i,
{
    if i == 0 {
        assert(files.take(1).drop_first() =~= files.take(0));
        assert(files.take(0) =~= Seq::<BundleFile>::empty());
        assert(files.take(1)[0] == files[0]);
    } else {
        lemma_bundle_take_succ(files.drop_first(), i - 1);
        assert(files.take(i + 1).drop_first() =~= files.drop_first().take(i));
        assert(files.take(i).drop_first() =~= files.drop_first().take(i - 1));
        assert(files.take(i + 1)[0] == files[0]);
        assert(files.take(i)[0] == files[0]);
    }
}

/// An integer clamped into u64, for the bucket totals.
pub open spec fn clamp_total(x: int) -> u64 {
    crate::format::clamp_u64(x)
}

/// Compute one bundle's size breakdown from its discovered files:
/// every bucket is the exact (saturated) sum of its files, and the
/// remainder bucket is everything the named buckets do not cover.
pub fn analyze_bundle(name: String, path: String, files: &Vec<BundleFile>) -> (r: AppInfo)
    ensures
        r.name@ == name@,
        r.path@ == path@,
        r.total_size == clamp_total(bundle_sum(files@)),
        r.binary_size == clamp_total(part_sum(files@, BundlePart::Binary)),
        r.resources_size == clamp_total(part_sum(files@, BundlePart::Resources)),
        r.frameworks_size == clamp_total(part_sum(files@, BundlePart::Frameworks)),
        r.plugins_size == clamp_total(part_sum(files@, BundlePart::Plugins)),
        r.other_size == r.total_size - (r.binary_size as int + r.resources_size
            + r.frameworks_size + r.plugins_size) || (r.other_size == 0 && r.total_size
            < r.binary_size as int + r.resources_size + r.frameworks_size + r.plugins_size),
{
    let n = files.len();
    let mut total: u64 = 0;
    let mut binary: u64 = 0;
    let mut resources: u64 = 0;
    let mut frameworks: u64 = 0;
    let mut plugins: u64 = 0;
    let mut i: usize = 0;
    proof {
        assert(files@.take(0) =~= Seq::<BundleFile>::empty());
    }
    while i < n
        invariant
            0 <= i <= n,
            n == files@.len(),
            total == clamp_total(bundle_sum(files@.take(i as int))),
            binary == clamp_total(part_sum(files@.take(i as int), BundlePart::Binary)),
            resources == clamp_total(part_sum(files@.take(i as int), BundlePart::Resources)),
            frameworks == clamp_total(part_sum(files@.take(i as int), BundlePart::Frameworks)),
            plugins == clamp_total(part_sum(files@.take(i as int), BundlePart::Plugins)),
        decreases n - i,
    {
        proof {
            lemma_bundle_take_succ(files@, i as int);
        }
        let size = files[i].size;
        total = saturating_add(total, size);
        let part = match &files[i].contents_component {
            Some(c) => classify_component(c.as_str()),
            None => BundlePart::Other,
        };
        match part {
            BundlePart::Binary => {
                binary = saturating_add(binary, size);
            },
            BundlePart::Resources => {
                resources = saturating_add(resources, size);
            },
            BundlePart::Frameworks => {
                frameworks = saturating_add(frameworks, size);
            },
            BundlePart::Plugins => {
                plugins = saturating_add(plugins, size);
            },
            BundlePart::Other => {},
        }
        i = i + 1;
    }
    proof {
        assert(files@.take(n as int) =~= files@);
    }
    let named = saturating_add(
        saturating_add(binary, resources),
        saturating_add(frameworks, plugins),
    );
    let other = if total >= named {
        total - named
    } else {
        0
    };
    proof {
        lemma_parts_fit(files@);
    }
    AppInfo {
        name,
        path,
        total_size: total,
        binary_size: binary,
        resources_size: resources,
        frameworks_size: frameworks,
        plugins_size: plugins,
        other_size: other,
    }
}

/// The named buckets never exceed the bundle total.
proof fn lemma_parts_fit(files: Seq<BundleFile>)
    ensures
        part_sum(files, BundlePart::Binary) + part_sum(files, BundlePart::Resources) + part_sum(
            files,
            BundlePart::Frameworks,
        ) + part_sum(files, BundlePart::Plugins) <= bundle_sum(files),
        part_sum(files, BundlePart::Binary) >= 0,
        part_sum(files, BundlePart::Resources) >= 0,
        part_sum(files, BundlePart::Frameworks) >= 0,
        part_sum(files, BundlePart::Plugins) >= 0,
    decreases files.len(),
{
    if files.len() > 0 {
        lemma_parts_fit(files.drop_first());
    }
}

/// Add with saturation at u64::MAX.
fn saturating_add(a: u64, b: u64) -> (r: u64)
    ensures
        r == crate::format::clamp_u64(a + b),
{
    if a <= u64::MAX - b {
        a + b
    } else {
        u64::MAX
    }
}

} // verus!
