//! The category cleaners: identity, configuration, and the selection
//! predicates each one applies.
//!
//! Walking directories, reading metadata, and deleting files belong
//! to the embedding application; everything a category decides —
//! which directories to visit, which names to skip, which entries
//! qualify — is stated and verified here. Results are assembled with
//! `build_scan_result` and reconciled after deletion with
//! `apply_clean_outcomes`.

use vstd::prelude::*;
use vstd::string::*;
use crate::cleaner::ScanResult;
use crate::strings::{str_eq, concat_str, spec_ends_with_ci, ends_with_ci, spec_starts_with,
    starts_with_str, spec_ends_with};

verus! {

/// Cleans the user's `Library/Caches` directory, leaving the
/// subdirectories that other categories own.
pub struct SystemCaches;

impl SystemCaches {
    /// Machine-readable category name.
    pub fn name(&self) -> (r: &'static str)
        ensures
            r@ == "system-caches"@,
    {
        "system-caches"
    }

    /// Human-readable display label.
    pub fn label(&self) -> (r: &'static str)
        ensures
            r@ == "System Caches"@,
    {
        "System Caches"
    }
}

/// Cache subdirectories handled by other cleaners, excluded to avoid double-counting.
pub open spec fn spec_system_cache_excluded(name: Seq<char>) -> bool {
    ||| name == "Homebrew"@
    ||| name == "Google"@
    ||| name == "Firefox"@
    ||| name == "com.apple.Safari"@
    ||| name == "Yarn"@
    ||| name == "pip"@
}

pub fn is_excluded_cache_subdir(name: &str) -> (r: bool)
    ensures
        r == spec_system_cache_excluded(name@),
{
    str_eq(name, "Homebrew") || str_eq(name, "Google") || str_eq(name, "Firefox") || str_eq(name, "com.apple.Safari") || str_eq(name, "Yarn") || str_eq(name, "pip")
}

impl SystemCaches {
    /// The directory this category scans.
    pub fn cache_dir(home: &str) -> (r: String)
        ensures
            r@ == home@ + "/Library/Caches"@,
    {
        concat_str(home, "/Library/Caches")
    }
}

/// Cleans application log directories.
pub struct AppLogs;

impl AppLogs {
    /// Machine-readable category name.
    pub fn name(&self) -> (r: &'static str)
        ensures
            r@ == "app-logs"@,
    {
        "app-logs"
    }

    /// Human-readable display label.
    pub fn label(&self) -> (r: &'static str)
        ensures
            r@ == "Application Logs"@,
    {
        "Application Logs"
    }
}

impl AppLogs {
    /// The log directories this category scans.
    pub fn log_dirs(home: &str) -> (r: Vec<String>)
        ensures
            r@.len() == 2,
            r@[0]@ == home@ + "/Library/Logs"@,
            r@[1]@ == "/Library/Logs"@,
    {
        let mut r: Vec<String> = Vec::new();
        r.push(concat_str(home, "/Library/Logs"));
        r.push(String::from_str("/Library/Logs"));
        r
    }
}

/// Cleans per-browser cache directories.
pub struct BrowserCaches;

impl BrowserCaches {
    /// Machine-readable category name.
    pub fn name(&self) -> (r: &'static str)
        ensures
            r@ == "browser-caches"@,
    {
        "browser-caches"
    }

    /// Human-readable display label.
    pub fn label(&self) -> (r: &'static str)
        ensures
            r@ == "Browser Caches"@,
    {
        "Browser Caches"
    }
}

impl BrowserCaches {
    /// Safari's cache directory candidates under the home directory.
    pub fn safari_cache_dirs(home: &str) -> (r: Vec<String>)
        ensures
            r@.len() == 1,
            r@[0]@ == home@ + "/Library/Caches/com.apple.Safari"@,
    {
        let mut r: Vec<String> = Vec::new();
        r.push(concat_str(home, "/Library/Caches/com.apple.Safari"));
        r
    }

    /// The directory holding Chrome's per-profile caches.
    pub fn chrome_cache_base(home: &str) -> (r: String)
        ensures
            r@ == home@ + "/Library/Caches/Google/Chrome"@,
    {
        concat_str(home, "/Library/Caches/Google/Chrome")
    }

    /// The directory holding Firefox's per-profile caches.
    pub fn firefox_profiles_dir(home: &str) -> (r: String)
        ensures
            r@ == home@ + "/Library/Caches/Firefox/Profiles"@,
    {
        concat_str(home, "/Library/Caches/Firefox/Profiles")
    }

    /// The cache directories inside one Chrome profile.
    pub fn chrome_profile_cache_dirs(profile: &str) -> (r: Vec<String>)
        ensures
            r@.len() == 2,
            r@[0]@ == profile@ + "/Cache"@,
            r@[1]@ == profile@ + "/Code Cache"@,
    {
        let mut r: Vec<String> = Vec::new();
        r.push(concat_str(profile, "/Cache"));
        r.push(concat_str(profile, "/Code Cache"));
        r
    }

    /// The cache directory inside one Firefox profile.
    pub fn firefox_profile_cache_dir(profile: &str) -> (r: String)
        ensures
            r@ == profile@ + "/cache2"@,
    {
        concat_str(profile, "/cache2")
    }
}

/// Cleans `Library/Developer/Xcode/DerivedData`.
pub struct XcodeDerivedData;

impl XcodeDerivedData {
    /// Machine-readable category name.
    pub fn name(&self) -> (r: &'static str)
        ensures
            r@ == "xcode"@,
    {
        "xcode"
    }

    /// Human-readable display label.
    pub fn label(&self) -> (r: &'static str)
        ensures
            r@ == "Xcode Derived Data"@,
    {
        "Xcode Derived Data"
    }
}

impl XcodeDerivedData {
    /// The directory this category scans.
    pub fn scan_dir(home: &str) -> (r: String)
        ensures
            r@ == home@ + "/Library/Developer/Xcode/DerivedData"@,
    {
        concat_str(home, "/Library/Developer/Xcode/DerivedData")
    }
}

/// Cleans `Library/Developer/Xcode/iOS DeviceSupport`.
pub struct XcodeDeviceSupport;

impl XcodeDeviceSupport {
    /// Machine-readable category name.
    pub fn name(&self) -> (r: &'static str)
        ensures
            r@ == "xcode-device-support"@,
    {
        "xcode-device-support"
    }

    /// Human-readable display label.
    pub fn label(&self) -> (r: &'static str)
        ensures
            r@ == "Xcode iOS Device Support"@,
    {
        "Xcode iOS Device Support"
    }
}

impl XcodeDeviceSupport {
    /// The directory this category scans.
    pub fn scan_dir(home: &str) -> (r: String)
        ensures
            r@ == home@ + "/Library/Developer/Xcode/iOS DeviceSupport"@,
    {
        concat_str(home, "/Library/Developer/Xcode/iOS DeviceSupport")
    }
}

/// Cleans `Library/Developer/Xcode/Archives`.
pub struct XcodeArchives;

impl XcodeArchives {
    /// Machine-readable category name.
    pub fn name(&self) -> (r: &'static str)
        ensures
            r@ == "xcode-archives"@,
    {
        "xcode-archives"
    }

    /// Human-readable display label.
    pub fn label(&self) -> (r: &'static str)
        ensures
            r@ == "Xcode Archives"@,
    {
        "Xcode Archives"
    }
}

impl XcodeArchives {
    /// The directory this category scans.
    pub fn scan_dir(home: &str) -> (r: String)
        ensures
            r@ == home@ + "/Library/Developer/Xcode/Archives"@,
    {
        concat_str(home, "/Library/Developer/Xcode/Archives")
    }
}

/// Cleans `Library/Developer/CoreSimulator/Devices`.
pub struct CoreSimulator;

impl CoreSimulator {
    /// Machine-readable category name.
    pub fn name(&self) -> (r: &'static str)
        ensures
            r@ == "core-simulator"@,
    {
        "core-simulator"
    }

    /// Human-readable display label.
    pub fn label(&self) -> (r: &'static str)
        ensures
            r@ == "CoreSimulator Devices"@,
    {
        "CoreSimulator Devices"
    }
}

impl CoreSimulator {
    /// The directory this category scans.
    pub fn scan_dir(home: &str) -> (r: String)
        ensures
            r@ == home@ + "/Library/Developer/CoreSimulator/Devices"@,
    {
        concat_str(home, "/Library/Developer/CoreSimulator/Devices")
    }
}

/// Cleans Homebrew's download cache.
pub struct HomebrewCache;

impl HomebrewCache {
    /// Machine-readable category name.
    pub fn name(&self) -> (r: &'static str)
        ensures
            r@ == "homebrew"@,
    {
        "homebrew"
    }

    /// Human-readable display label.
    pub fn label(&self) -> (r: &'static str)
        ensures
            r@ == "Homebrew Cache"@,
    {
        "Homebrew Cache"
    }
}

impl HomebrewCache {
    /// The directory this category scans.
    pub fn cache_dir(home: &str) -> (r: String)
        ensures
            r@ == home@ + "/Library/Caches/Homebrew"@,
    {
        concat_str(home, "/Library/Caches/Homebrew")
    }
}

/// Cleans the caches of common package managers.
pub struct PackageManagerCaches;

impl PackageManagerCaches {
    /// Machine-readable category name.
    pub fn name(&self) -> (r: &'static str)
        ensures
            r@ == "package-managers"@,
    {
        "package-managers"
    }

    /// Human-readable display label.
    pub fn label(&self) -> (r: &'static str)
        ensures
            r@ == "Package Manager Caches"@,
    {
        "Package Manager Caches"
    }
}

impl PackageManagerCaches {
    /// The cache directories this category scans, under the home directory.
    pub fn cache_dirs(home: &str) -> (r: Vec<String>)
        ensures
            r@.len() == 4,
            r@[0]@ == home@ + "/.npm/_cacache"@,
            r@[1]@ == home@ + "/Library/Caches/Yarn"@,
            r@[2]@ == home@ + "/Library/Caches/pip"@,
            r@[3]@ == home@ + "/.cargo/registry/cache"@,
    {
        let mut r: Vec<String> = Vec::new();
        r.push(concat_str(home, "/.npm/_cacache"));
        r.push(concat_str(home, "/Library/Caches/Yarn"));
        r.push(concat_str(home, "/Library/Caches/pip"));
        r.push(concat_str(home, "/.cargo/registry/cache"));
        r
    }
}

/// Empties the user's trash.
pub struct Trash;

impl Trash {
    /// Machine-readable category name.
    pub fn name(&self) -> (r: &'static str)
        ensures
            r@ == "trash"@,
    {
        "trash"
    }

    /// Human-readable display label.
    pub fn label(&self) -> (r: &'static str)
        ensures
            r@ == "Trash"@,
    {
        "Trash"
    }
}

impl Trash {
    /// The directory this category scans.
    pub fn trash_dir(home: &str) -> (r: String)
        ensures
            r@ == home@ + "/.Trash"@,
    {
        concat_str(home, "/.Trash")
    }
}

/// Finds `.DS_Store` files under a chosen root.
pub struct DsStore {
    pub root: Option<String>,
}

impl DsStore {
    /// Machine-readable category name.
    pub fn name(&self) -> (r: &'static str)
        ensures
            r@ == "ds-store"@,
    {
        "ds-store"
    }

    /// Human-readable display label.
    pub fn label(&self) -> (r: &'static str)
        ensures
            r@ == ".DS_Store Files"@,
    {
        ".DS_Store Files"
    }
}

/// Directories the `.DS_Store` walk never descends into.
pub open spec fn spec_ds_store_skip(name: Seq<char>) -> bool {
    ||| name == ".git"@
    ||| name == "node_modules"@
    ||| name == ".Trash"@
    ||| name == "Library"@
    ||| name == ".cargo"@
    ||| name == ".rustup"@
    ||| name == ".npm"@
    ||| name == ".venv"@
    ||| name == "venv"@
    ||| name == ".m2"@
    ||| name == ".gradle"@
    ||| name == ".docker"@
    ||| name == ".vscode"@
    ||| name == ".idea"@
    ||| name == "__pycache__"@
    ||| name == ".tox"@
    ||| name == "target"@
    ||| name == ".pub-cache"@
    ||| name == "Pods"@
    ||| name == ".cocoapods"@
    ||| name == "bower_components"@
    ||| name == ".bundle"@
    ||| name == ".gem"@
    ||| name == ".rbenv"@
    ||| name == ".pyenv"@
    ||| name == ".nvm"@
}

pub fn ds_store_should_skip_dir(name: &str) -> (r: bool)
    ensures
        r == spec_ds_store_skip(name@),
{
    str_eq(name, ".git") || str_eq(name, "node_modules") || str_eq(name, ".Trash") || str_eq(name, "Library") || str_eq(name, ".cargo") || str_eq(name, ".rustup") || str_eq(name, ".npm") || str_eq(name, ".venv") || str_eq(name, "venv") || str_eq(name, ".m2") || str_eq(name, ".gradle") || str_eq(name, ".docker") || str_eq(name, ".vscode") || str_eq(name, ".idea") || str_eq(name, "__pycache__") || str_eq(name, ".tox") || str_eq(name, "target") || str_eq(name, ".pub-cache") || str_eq(name, "Pods") || str_eq(name, ".cocoapods") || str_eq(name, "bower_components") || str_eq(name, ".bundle") || str_eq(name, ".gem") || str_eq(name, ".rbenv") || str_eq(name, ".pyenv") || str_eq(name, ".nvm")
}

/// Whether a file name is exactly `.DS_Store`.
pub fn is_ds_store_name(name: &str) -> (r: bool)
    ensures
        r == (name@ == ".DS_Store"@),
{
    str_eq(name, ".DS_Store")
}

impl DsStore {
    /// A `.DS_Store` finder over the given root, or over the home
    /// directory when none is given.
    pub fn new(path: Option<&str>) -> (c: DsStore)
        ensures
            match path {
                Some(p) => c.root matches Some(r) && r@ == p@,
                None => c.root is None,
            },
    {
        match path {
            Some(p) => DsStore { root: Some(String::from_str(p)) },
            None => DsStore { root: None },
        }
    }

    /// The root this finder walks: the configured one, else home.
    pub fn scan_root(&self, home: &str) -> (r: String)
        ensures
            r@ == match self.root {
                Some(p) => p@,
                None => home@,
            },
    {
        match &self.root {
            Some(p) => p.clone(),
            None => String::from_str(home),
        }
    }
}

/// Lists unusually large files for review; report-only, so it never
/// deletes anything.
pub struct LargeFiles {
    pub min_bytes: u64,
    pub root: Option<String>,
}

impl LargeFiles {
    /// Machine-readable category name.
    pub fn name(&self) -> (r: &'static str)
        ensures
            r@ == "large-files"@,
    {
        "large-files"
    }

    /// Human-readable display label.
    pub fn label(&self) -> (r: &'static str)
        ensures
            r@ == "Large Files"@,
    {
        "Large Files"
    }
}

/// Bundle extensions the large-file walk never descends into, compared case-insensitively.
pub open spec fn spec_large_files_skip_ext(name: Seq<char>) -> bool {
    ||| spec_ends_with_ci(name, ".app"@)
    ||| spec_ends_with_ci(name, ".photoslibrary"@)
    ||| spec_ends_with_ci(name, ".musiclibrary"@)
    ||| spec_ends_with_ci(name, ".tvlibrary"@)
    ||| spec_ends_with_ci(name, ".vmwarevm"@)
    ||| spec_ends_with_ci(name, ".parallels"@)
}

pub fn large_files_skip_extension(name: &str) -> (r: bool)
    ensures
        r == spec_large_files_skip_ext(name@),
{
    ends_with_ci(name, ".app") || ends_with_ci(name, ".photoslibrary") || ends_with_ci(name, ".musiclibrary") || ends_with_ci(name, ".tvlibrary") || ends_with_ci(name, ".vmwarevm") || ends_with_ci(name, ".parallels")
}

/// Directories and bundles the large-file walk never descends into.
pub open spec fn spec_large_files_skip(name: Seq<char>) -> bool {
    spec_ds_store_skip(name) || spec_large_files_skip_ext(name)
}

pub fn large_files_should_skip_dir(name: &str) -> (r: bool)
    ensures
        r == spec_large_files_skip(name@),
{
    ds_store_should_skip_dir(name) || large_files_skip_extension(name)
}

impl LargeFiles {
    /// A large-file finder with the given size floor, over the given
    /// root or the home directory.
    pub fn new(min_bytes: u64, path: Option<&str>) -> (c: LargeFiles)
        ensures
            c.min_bytes == min_bytes,
            match path {
                Some(p) => c.root matches Some(r) && r@ == p@,
                None => c.root is None,
            },
    {
        match path {
            Some(p) => LargeFiles { min_bytes, root: Some(String::from_str(p)) },
            None => LargeFiles { min_bytes, root: None },
        }
    }

    /// The root this finder walks: the configured one, else home.
    pub fn scan_root(&self, home: &str) -> (r: String)
        ensures
            r@ == match self.root {
                Some(p) => p@,
                None => home@,
            },
    {
        match &self.root {
            Some(p) => p.clone(),
            None => String::from_str(home),
        }
    }

    /// Whether a file is large enough to report.
    pub fn qualifies(&self, size: u64) -> (r: bool)
        ensures
            r == (size >= self.min_bytes),
    {
        size >= self.min_bytes
    }
}

/// Finds directories that are empty, or hold only a `.DS_Store`.
pub struct EmptyFolders;

impl EmptyFolders {
    /// Machine-readable category name.
    pub fn name(&self) -> (r: &'static str)
        ensures
            r@ == "empty-folders"@,
    {
        "empty-folders"
    }

    /// Human-readable display label.
    pub fn label(&self) -> (r: &'static str)
        ensures
            r@ == "Empty Folders"@,
    {
        "Empty Folders"
    }
}

impl EmptyFolders {
    /// The directories this category scans, under the home directory.
    pub fn scan_dirs(home: &str) -> (r: Vec<String>)
        ensures
            r@.len() == 4,
            r@[0]@ == home@ + "/Library/Application Support"@,
            r@[1]@ == home@ + "/Library/Caches"@,
            r@[2]@ == home@ + "/Library/Containers"@,
            r@[3]@ == home@ + "/Library/Preferences"@,
    {
        let mut r: Vec<String> = Vec::new();
        r.push(concat_str(home, "/Library/Application Support"));
        r.push(concat_str(home, "/Library/Caches"));
        r.push(concat_str(home, "/Library/Containers"));
        r.push(concat_str(home, "/Library/Preferences"));
        r
    }
}

/// Directory names the empty-folder walk never descends into (dot directories are also skipped).
pub open spec fn spec_empty_folders_skip_name(name: Seq<char>) -> bool {
    ||| name == ".git"@
    ||| name == "node_modules"@
    ||| name == ".Trash"@
    ||| name == ".cargo"@
    ||| name == ".rustup"@
    ||| name == ".npm"@
}

pub fn empty_folders_skip_name(name: &str) -> (r: bool)
    ensures
        r == spec_empty_folders_skip_name(name@),
{
    str_eq(name, ".git") || str_eq(name, "node_modules") || str_eq(name, ".Trash") || str_eq(name, ".cargo") || str_eq(name, ".rustup") || str_eq(name, ".npm")
}

/// Whether the empty-folder walk skips this directory name.
pub open spec fn spec_empty_folders_skip(name: Seq<char>) -> bool {
    spec_empty_folders_skip_name(name) || spec_starts_with(name, "."@)
}

pub fn empty_folders_should_skip(name: &str) -> (r: bool)
    ensures
        r == spec_empty_folders_skip(name@),
{
    empty_folders_skip_name(name) || starts_with_str(name, ".")
}

/// Top-level user directories that are never removed even when empty.
pub open spec fn spec_protected_dir_name(name: Seq<char>) -> bool {
    ||| name == "Desktop"@
    ||| name == "Documents"@
    ||| name == "Downloads"@
    ||| name == "Pictures"@
    ||| name == "Music"@
    ||| name == "Movies"@
    ||| name == "Public"@
    ||| name == "Library"@
    ||| name == "Applications"@
}

pub fn is_protected_dir_name(name: &str) -> (r: bool)
    ensures
        r == spec_protected_dir_name(name@),
{
    str_eq(name, "Desktop") || str_eq(name, "Documents") || str_eq(name, "Downloads") || str_eq(name, "Pictures") || str_eq(name, "Music") || str_eq(name, "Movies") || str_eq(name, "Public") || str_eq(name, "Library") || str_eq(name, "Applications")
}

/// Whether `path` is one of the protected top-level directories under
/// `home`.
pub open spec fn spec_is_protected(path: Seq<char>, home: Seq<char>) -> bool {
    exists|n: Seq<char>| #[trigger] spec_protected_dir_name(n) && path == home + "/"@ + n
}

/// A directory counts as effectively empty when every name it holds
/// is `.DS_Store`.
pub fn is_effectively_empty(listing: &Vec<String>) -> (r: bool)
    ensures
        r == forall|i: int| 0 <= i < listing@.len() ==> listing@[i]@ == ".DS_Store"@,
{
    let n = listing.len();
    let mut i: usize = 0;
    while i < n
        invariant
            0 <= i <= n,
            n == listing@.len(),
            forall|k: int| 0 <= k < i ==> listing@[k]@ == ".DS_Store"@,
        decreases n - i,
    {
        if !str_eq(listing[i].as_str(), ".DS_Store") {
            return false;
        }
        i = i + 1;
    }
    true
}

/// Whether `path` is one of the protected top-level directories under
/// `home`.
pub fn is_protected(path: &str, home: &str) -> (r: bool)
    ensures
        r == spec_is_protected(path@, home@),
{
    let r = str_eq(path, concat_str(home, "/Desktop").as_str()) || str_eq(
        path,
        concat_str(home, "/Documents").as_str(),
    ) || str_eq(path, concat_str(home, "/Downloads").as_str()) || str_eq(
        path,
        concat_str(home, "/Pictures").as_str(),
    ) || str_eq(path, concat_str(home, "/Music").as_str()) || str_eq(
        path,
        concat_str(home, "/Movies").as_str(),
    ) || str_eq(path, concat_str(home, "/Public").as_str()) || str_eq(
        path,
        concat_str(home, "/Library").as_str(),
    ) || str_eq(path, concat_str(home, "/Applications").as_str());
    proof {
        if r {
            if path@ == home@ + "/Desktop"@ {
                assert(spec_protected_dir_name("Desktop"@) && path@ == home@ + "/"@ + "Desktop"@)
                    by {
                    assert(home@ + "/Desktop"@ =~= home@ + "/"@ + "Desktop"@) by {
                        reveal_strlit("/");
                        reveal_strlit("Desktop");
                        reveal_strlit("/Desktop");
                    }
                }
            } else if path@ == home@ + "/Documents"@ {
                assert(spec_protected_dir_name("Documents"@) && path@ == home@ + "/"@
                    + "Documents"@) by {
                    assert(home@ + "/Documents"@ =~= home@ + "/"@ + "Documents"@) by {
                        reveal_strlit("/");
                        reveal_strlit("Documents");
                        reveal_strlit("/Documents");
                    }
                }
            } else if path@ == home@ + "/Downloads"@ {
                assert(spec_protected_dir_name("Downloads"@) && path@ == home@ + "/"@
                    + "Downloads"@) by {
                    assert(home@ + "/Downloads"@ =~= home@ + "/"@ + "Downloads"@) by {
                        reveal_strlit("/");
                        reveal_strlit("Downloads");
                        reveal_strlit("/Downloads");
                    }
                }
            } else if path@ == home@ + "/Pictures"@ {
                assert(spec_protected_dir_name("Pictures"@) && path@ == home@ + "/"@
                    + "Pictures"@) by {
                    assert(home@ + "/Pictures"@ =~= home@ + "/"@ + "Pictures"@) by {
                        reveal_strlit("/");
                        reveal_strlit("Pictures");
                        reveal_strlit("/Pictures");
                    }
                }
            } else if path@ == home@ + "/Music"@ {
                assert(spec_protected_dir_name("Music"@) && path@ == home@ + "/"@ + "Music"@) by {
                    assert(home@ + "/Music"@ =~= home@ + "/"@ + "Music"@) by {
                        reveal_strlit("/");
                        reveal_strlit("Music");
                        reveal_strlit("/Music");
                    }
                }
            } else if path@ == home@ + "/Movies"@ {
                assert(spec_protected_dir_name("Movies"@) && path@ == home@ + "/"@ + "Movies"@)
                    by {
                    assert(home@ + "/Movies"@ =~= home@ + "/"@ + "Movies"@) by {
                        reveal_strlit("/");
                        reveal_strlit("Movies");
                        reveal_strlit("/Movies");
                    }
                }
            } else if path@ == home@ + "/Public"@ {
                assert(spec_protected_dir_name("Public"@) && path@ == home@ + "/"@ + "Public"@)
                    by {
                    assert(home@ + "/Public"@ =~= home@ + "/"@ + "Public"@) by {
                        reveal_strlit("/");
                        reveal_strlit("Public");
                        reveal_strlit("/Public");
                    }
                }
            } else if path@ == home@ + "/Library"@ {
                assert(spec_protected_dir_name("Library"@) && path@ == home@ + "/"@ + "Library"@)
                    by {
                    assert(home@ + "/Library"@ =~= home@ + "/"@ + "Library"@) by {
                        reveal_strlit("/");
                        reveal_strlit("Library");
                        reveal_strlit("/Library");
                    }
                }
            } else {
                assert(spec_protected_dir_name("Applications"@) && path@ == home@ + "/"@
                    + "Applications"@) by {
                    assert(home@ + "/Applications"@ =~= home@ + "/"@ + "Applications"@) by {
                        reveal_strlit("/");
                        reveal_strlit("Applications");
                        reveal_strlit("/Applications");
                    }
                }
            }
        } else {
            if spec_is_protected(path@, home@) {
                let n = choose|n: Seq<char>|
                    #[trigger] spec_protected_dir_name(n) && path@ == home@ + "/"@ + n;
                reveal_strlit("/");
                reveal_strlit("Desktop");
                reveal_strlit("/Desktop");
                reveal_strlit("Documents");
                reveal_strlit("/Documents");
                reveal_strlit("Downloads");
                reveal_strlit("/Downloads");
                reveal_strlit("Pictures");
                reveal_strlit("/Pictures");
                reveal_strlit("Music");
                reveal_strlit("/Music");
                reveal_strlit("Movies");
                reveal_strlit("/Movies");
                reveal_strlit("Public");
                reveal_strlit("/Public");
                reveal_strlit("Library");
                reveal_strlit("/Library");
                reveal_strlit("Applications");
                reveal_strlit("/Applications");
                assert(home@ + "/"@ + "Desktop"@ =~= home@ + "/Desktop"@);
                assert(home@ + "/"@ + "Documents"@ =~= home@ + "/Documents"@);
                assert(home@ + "/"@ + "Downloads"@ =~= home@ + "/Downloads"@);
                assert(home@ + "/"@ + "Pictures"@ =~= home@ + "/Pictures"@);
                assert(home@ + "/"@ + "Music"@ =~= home@ + "/Music"@);
                assert(home@ + "/"@ + "Movies"@ =~= home@ + "/Movies"@);
                assert(home@ + "/"@ + "Public"@ =~= home@ + "/Public"@);
                assert(home@ + "/"@ + "Library"@ =~= home@ + "/Library"@);
                assert(home@ + "/"@ + "Applications"@ =~= home@ + "/Applications"@);
            }
        }
    }
    r
}

/// Finds large files untouched for half a year.
pub struct OldFiles;

impl OldFiles {
    /// Machine-readable category name.
    pub fn name(&self) -> (r: &'static str)
        ensures
            r@ == "old-files"@,
    {
        "old-files"
    }

    /// Human-readable display label.
    pub fn label(&self) -> (r: &'static str)
        ensures
            r@ == "Old & Unused Files"@,
    {
        "Old & Unused Files"
    }
}

/// Directory names the old-file walk never descends into.
pub open spec fn spec_old_files_skip_name(name: Seq<char>) -> bool {
    ||| name == ".git"@
    ||| name == "node_modules"@
    ||| name == ".venv"@
    ||| name == "venv"@
    ||| name == ".Trash"@
    ||| name == "__pycache__"@
    ||| name == ".tox"@
    ||| name == "target"@
    ||| name == ".cargo"@
    ||| name == ".rustup"@
}

pub fn old_files_skip_name(name: &str) -> (r: bool)
    ensures
        r == spec_old_files_skip_name(name@),
{
    str_eq(name, ".git") || str_eq(name, "node_modules") || str_eq(name, ".venv") || str_eq(name, "venv") || str_eq(name, ".Trash") || str_eq(name, "__pycache__") || str_eq(name, ".tox") || str_eq(name, "target") || str_eq(name, ".cargo") || str_eq(name, ".rustup")
}

/// Bundle extensions the old-file walk never descends into, compared case-insensitively.
pub open spec fn spec_old_files_skip_ext(name: Seq<char>) -> bool {
    ||| spec_ends_with_ci(name, ".app"@)
    ||| spec_ends_with_ci(name, ".photoslibrary"@)
    ||| spec_ends_with_ci(name, ".musiclibrary"@)
    ||| spec_ends_with_ci(name, ".vmwarevm"@)
    ||| spec_ends_with_ci(name, ".parallels"@)
}

pub fn old_files_skip_extension(name: &str) -> (r: bool)
    ensures
        r == spec_old_files_skip_ext(name@),
{
    ends_with_ci(name, ".app") || ends_with_ci(name, ".photoslibrary") || ends_with_ci(name, ".musiclibrary") || ends_with_ci(name, ".vmwarevm") || ends_with_ci(name, ".parallels")
}

/// Whether the old-file walk skips this directory name.
pub open spec fn spec_old_files_skip(name: Seq<char>) -> bool {
    spec_old_files_skip_name(name) || spec_old_files_skip_ext(name)
}

pub fn old_files_should_skip_dir(name: &str) -> (r: bool)
    ensures
        r == spec_old_files_skip(name@),
{
    old_files_skip_name(name) || old_files_skip_extension(name)
}

/// Smallest size an old file must have to be reported: 10 MB.
pub const OLD_FILES_MIN_SIZE: u64 = 10_485_760;

/// Age threshold for old files, in seconds: 180 days.
pub const OLD_FILES_MIN_AGE_SECS: u64 = 15_552_000;

impl OldFiles {
    /// The directories this category scans, under the home directory.
    pub fn scan_dirs(home: &str) -> (r: Vec<String>)
        ensures
            r@.len() == 3,
            r@[0]@ == home@ + "/Downloads"@,
            r@[1]@ == home@ + "/Documents"@,
            r@[2]@ == home@ + "/Desktop"@,
    {
        let mut r: Vec<String> = Vec::new();
        r.push(concat_str(home, "/Downloads"));
        r.push(concat_str(home, "/Documents"));
        r.push(concat_str(home, "/Desktop"));
        r
    }

    /// The last-used cutoff: files untouched since before it qualify.
    pub fn stale_threshold(now_secs: u64) -> (r: u64)
        ensures
            r == if now_secs >= OLD_FILES_MIN_AGE_SECS {
                (now_secs - OLD_FILES_MIN_AGE_SECS) as u64
            } else {
                0u64
            },
    {
        if now_secs >= OLD_FILES_MIN_AGE_SECS {
            now_secs - OLD_FILES_MIN_AGE_SECS
        } else {
            0
        }
    }

    /// Whether a file qualifies: big enough, and last used at or
    /// before the cutoff.
    pub fn is_stale(size: u64, last_used_secs: u64, now_secs: u64) -> (r: bool)
        ensures
            r == (size >= OLD_FILES_MIN_SIZE && last_used_secs <= (if now_secs
                >= OLD_FILES_MIN_AGE_SECS {
                (now_secs - OLD_FILES_MIN_AGE_SECS) as u64
            } else {
                0u64
            })),
    {
        size >= OLD_FILES_MIN_SIZE && last_used_secs <= Self::stale_threshold(now_secs)
    }
}

/// Finds screenshots and screen recordings older than a month.
pub struct Screenshots;

impl Screenshots {
    /// Machine-readable category name.
    pub fn name(&self) -> (r: &'static str)
        ensures
            r@ == "screenshots"@,
    {
        "screenshots"
    }

    /// Human-readable display label.
    pub fn label(&self) -> (r: &'static str)
        ensures
            r@ == "Old Screenshots"@,
    {
        "Old Screenshots"
    }
}

/// Maximum screenshot age before cleanup, in seconds: 30 days.
pub const SCREENSHOT_MAX_AGE_SECS: u64 = 2_592_000;

/// File name prefixes macOS gives to screenshots and recordings.
pub open spec fn spec_is_screenshot(name: Seq<char>) -> bool {
    spec_starts_with(name, "Screenshot "@) || spec_starts_with(name, "Screen Recording "@)
}

/// Whether a file name looks like a macOS screenshot or recording.
pub fn is_screenshot(name: &str) -> (r: bool)
    ensures
        r == spec_is_screenshot(name@),
{
    starts_with_str(name, "Screenshot ") || starts_with_str(name, "Screen Recording ")
}

/// Extensions a screenshot or recording may carry, compared case-insensitively.
pub open spec fn spec_screenshot_extension(name: Seq<char>) -> bool {
    ||| spec_ends_with_ci(name, "png"@)
    ||| spec_ends_with_ci(name, "jpg"@)
    ||| spec_ends_with_ci(name, "jpeg"@)
    ||| spec_ends_with_ci(name, "tiff"@)
    ||| spec_ends_with_ci(name, "gif"@)
    ||| spec_ends_with_ci(name, "mov"@)
    ||| spec_ends_with_ci(name, "mp4"@)
}

pub fn has_valid_extension(name: &str) -> (r: bool)
    ensures
        r == spec_screenshot_extension(name@),
{
    ends_with_ci(name, "png") || ends_with_ci(name, "jpg") || ends_with_ci(name, "jpeg") || ends_with_ci(name, "tiff") || ends_with_ci(name, "gif") || ends_with_ci(name, "mov") || ends_with_ci(name, "mp4")
}

impl Screenshots {
    /// Whether a file modified at `mtime_secs` is old enough to
    /// report at time `now_secs`.
    pub fn is_older_than_max_age(mtime_secs: u64, now_secs: u64) -> (r: bool)
        ensures
            r == (now_secs >= mtime_secs && now_secs - mtime_secs > SCREENSHOT_MAX_AGE_SECS),
    {
        now_secs >= mtime_secs && now_secs - mtime_secs > SCREENSHOT_MAX_AGE_SECS
    }
}

/// Finds symlinks whose targets no longer exist.
pub struct BrokenSymlinks;

impl BrokenSymlinks {
    /// Machine-readable category name.
    pub fn name(&self) -> (r: &'static str)
        ensures
            r@ == "broken-symlinks"@,
    {
        "broken-symlinks"
    }

    /// Human-readable display label.
    pub fn label(&self) -> (r: &'static str)
        ensures
            r@ == "Broken Symlinks"@,
    {
        "Broken Symlinks"
    }
}

/// Directory names the symlink walk never descends into.
pub open spec fn spec_symlink_walk_skip(name: Seq<char>) -> bool {
    ||| name == ".git"@
    ||| name == "node_modules"@
    ||| name == ".Trash"@
    ||| name == ".cargo"@
    ||| name == ".rustup"@
    ||| name == ".npm"@
}

pub fn symlink_walk_should_skip(name: &str) -> (r: bool)
    ensures
        r == spec_symlink_walk_skip(name@),
{
    str_eq(name, ".git") || str_eq(name, "node_modules") || str_eq(name, ".Trash") || str_eq(name, ".cargo") || str_eq(name, ".rustup") || str_eq(name, ".npm")
}

impl BrokenSymlinks {
    /// The directories this category scans.
    pub fn scan_dirs(home: &str) -> (r: Vec<String>)
        ensures
            r@.len() == 4,
            r@[0]@ == home@ + "/Library"@,
            r@[1]@ == "/usr/local/bin"@,
            r@[2]@ == "/usr/local/lib"@,
            r@[3]@ == home@ + "/bin"@,
    {
        let mut r: Vec<String> = Vec::new();
        r.push(concat_str(home, "/Library"));
        r.push(String::from_str("/usr/local/bin"));
        r.push(String::from_str("/usr/local/lib"));
        r.push(concat_str(home, "/bin"));
        r
    }

    /// How deep the walk descends below this root: system prefixes
    /// are shallow, user trees deeper.
    pub fn walk_depth(dir: &str) -> (r: usize)
        ensures
            r == if spec_starts_with(dir@, "/usr/local"@) {
                1usize
            } else {
                5usize
            },
    {
        if starts_with_str(dir, "/usr/local") {
            1
        } else {
            5
        }
    }

    /// The decision for one walked entry: a symlink whose target is
    /// gone is broken and reported.
    pub fn is_broken_link(is_symlink: bool, target_exists: bool) -> (r: bool)
        ensures
            r == (is_symlink && !target_exists),
    {
        is_symlink && !target_exists
    }
}

/// Finds localization bundles for languages the system does not use.
pub struct LanguageFiles;

impl LanguageFiles {
    /// Machine-readable category name.
    pub fn name(&self) -> (r: &'static str)
        ensures
            r@ == "language-files"@,
    {
        "language-files"
    }

    /// Human-readable display label.
    pub fn label(&self) -> (r: &'static str)
        ensures
            r@ == "Language Files"@,
    {
        "Language Files"
    }
}

/// Localization bundles that are always kept.
pub open spec fn spec_keep_lproj(name: Seq<char>) -> bool {
    ||| name == "en.lproj"@
    ||| name == "Base.lproj"@
    ||| name == "en_US.lproj"@
}

pub fn is_keep_lproj(name: &str) -> (r: bool)
    ensures
        r == spec_keep_lproj(name@),
{
    str_eq(name, "en.lproj") || str_eq(name, "Base.lproj") || str_eq(name, "en_US.lproj")
}

/// Some kept language equals this code.
pub open spec fn spec_lang_kept(keep_langs: Seq<String>, code: Seq<char>) -> bool {
    exists|i: int| 0 <= i < keep_langs.len() && #[trigger] keep_langs[i]@ == code
}

/// Whether any of the kept languages matches `code`.
pub fn lang_in_list(keep_langs: &Vec<String>, code: &str) -> (r: bool)
    ensures
        r == spec_lang_kept(keep_langs@, code@),
{
    let n = keep_langs.len();
    let mut i: usize = 0;
    while i < n
        invariant
            0 <= i <= n,
            n == keep_langs@.len(),
            forall|k: int| 0 <= k < i ==> #[trigger] keep_langs@[k]@ != code@,
        decreases n - i,
    {
        if str_eq(keep_langs[i].as_str(), code) {
            return true;
        }
        i = i + 1;
    }
    false
}

/// The position of the first underscore, or the length when none.
pub open spec fn spec_first_underscore(s: Seq<char>, i: int) -> int
    decreases s.len() - i,
{
    if i < 0 || i >= s.len() {
        s.len() as int
    } else if s[i] == '_' {
        i
    } else {
        spec_first_underscore(s, i + 1)
    }
}

fn first_underscore(s: &str) -> (r: usize)
    ensures
        r == spec_first_underscore(s@, 0),
        r <= s@.len(),
{
    let n = s.unicode_len();
    let mut i: usize = 0;
    while i < n
        invariant
            0 <= i <= n,
            n == s@.len(),
            spec_first_underscore(s@, 0) == spec_first_underscore(s@, i as int),
            forall|k: int| 0 <= k < i ==> s@[k] != '_',
        decreases n - i,
    {
        if s.get_char(i) == '_' {
            return i;
        }
        i = i + 1;
    }
    i
}

impl LanguageFiles {
    /// The directory this category scans.
    pub fn apps_dir() -> (r: &'static str)
        ensures
            r@ == "/Applications"@,
    {
        "/Applications"
    }

    /// Decide whether one `.lproj` bundle goes: never one of the
    /// always-kept bundles, and never a bundle whose language code —
    /// whole, or its base before an underscore — is among the kept
    /// languages.
    pub fn should_remove_lproj(name: &str, keep_langs: &Vec<String>) -> (r: bool)
        requires
            spec_ends_with(name@, ".lproj"@),
            name@.len() >= 6,
    ensures
            r == (!spec_keep_lproj(name@) && !spec_lang_kept(
                keep_langs@,
                name@.take(name@.len() - 6),
            ) && !spec_lang_kept(
                keep_langs@,
                name@.take(name@.len() - 6).take(
                    spec_first_underscore(name@.take(name@.len() - 6), 0),
                ),
            )),
    {
        if is_keep_lproj(name) {
            return false;
        }
        let nlen = name.unicode_len();
        let code = name.substring_char(0, nlen - 6);
        proof {
            assert(code@ =~= name@.take(name@.len() - 6));
        }
        if lang_in_list(keep_langs, code) {
            return false;
        }
        let upos = first_underscore(code);
        let base = code.substring_char(0, upos);
        proof {
            assert(base@ =~= code@.take(spec_first_underscore(code@, 0)));
        }
        !lang_in_list(keep_langs, base)
    }
}

/// Clears browser histories, cookies, and recent-item lists.
pub struct PrivacyCleaner;

impl PrivacyCleaner {
    /// Machine-readable category name.
    pub fn name(&self) -> (r: &'static str)
        ensures
            r@ == "privacy"@,
    {
        "privacy"
    }

    /// Human-readable display label.
    pub fn label(&self) -> (r: &'static str)
        ensures
            r@ == "Privacy Data"@,
    {
        "Privacy Data"
    }
}

impl PrivacyCleaner {
    /// Safari's history, cookie, and session files, under the home directory.
    pub fn safari_privacy_files(home: &str) -> (r: Vec<String>)
        ensures
            r@.len() == 11,
            r@[0]@ == home@ + "/Library/Safari/History.db"@,
            r@[1]@ == home@ + "/Library/Safari/History.db-lock"@,
            r@[2]@ == home@ + "/Library/Safari/History.db-shm"@,
            r@[3]@ == home@ + "/Library/Safari/History.db-wal"@,
            r@[4]@ == home@ + "/Library/Safari/Downloads.plist"@,
            r@[5]@ == home@ + "/Library/Safari/LastSession.plist"@,
            r@[6]@ == home@ + "/Library/Safari/TopSites.plist"@,
            r@[7]@ == home@ + "/Library/Safari/CloudTabs.db"@,
            r@[8]@ == home@ + "/Library/Safari/LocalStorage"@,
            r@[9]@ == home@ + "/Library/Safari/Databases"@,
            r@[10]@ == home@ + "/Library/Cookies/Cookies.binarycookies"@,
    {
        let mut r: Vec<String> = Vec::new();
        r.push(concat_str(home, "/Library/Safari/History.db"));
        r.push(concat_str(home, "/Library/Safari/History.db-lock"));
        r.push(concat_str(home, "/Library/Safari/History.db-shm"));
        r.push(concat_str(home, "/Library/Safari/History.db-wal"));
        r.push(concat_str(home, "/Library/Safari/Downloads.plist"));
        r.push(concat_str(home, "/Library/Safari/LastSession.plist"));
        r.push(concat_str(home, "/Library/Safari/TopSites.plist"));
        r.push(concat_str(home, "/Library/Safari/CloudTabs.db"));
        r.push(concat_str(home, "/Library/Safari/LocalStorage"));
        r.push(concat_str(home, "/Library/Safari/Databases"));
        r.push(concat_str(home, "/Library/Cookies/Cookies.binarycookies"));
        r
    }

    /// System recent-item records, under the home directory.
    pub fn system_privacy_files(home: &str) -> (r: Vec<String>)
        ensures
            r@.len() == 2,
            r@[0]@ == home@ + "/Library/Application Support/com.apple.sharedfilelist"@,
            r@[1]@ == home@ + "/Library/Preferences/com.apple.recentitems.plist"@,
    {
        let mut r: Vec<String> = Vec::new();
        r.push(concat_str(home, "/Library/Application Support/com.apple.sharedfilelist"));
        r.push(concat_str(home, "/Library/Preferences/com.apple.recentitems.plist"));
        r
    }

    /// The directory holding Chrome's profiles.
    pub fn chrome_profile_base(home: &str) -> (r: String)
        ensures
            r@ == home@ + "/Library/Application Support/Google/Chrome"@,
    {
        concat_str(home, "/Library/Application Support/Google/Chrome")
    }

    /// The directory holding Firefox's profiles.
    pub fn firefox_profiles_dir(home: &str) -> (r: String)
        ensures
            r@ == home@ + "/Library/Application Support/Firefox/Profiles"@,
    {
        concat_str(home, "/Library/Application Support/Firefox/Profiles")
    }

    /// The privacy-relevant files inside one Chrome profile.
    pub fn chrome_targets() -> (r: Vec<&'static str>)
        ensures
            r@.len() == 10,
            r@[0]@ == "Cookies"@,
            r@[1]@ == "History"@,
            r@[2]@ == "History-journal"@,
            r@[3]@ == "Login Data"@,
            r@[4]@ == "Login Data-journal"@,
            r@[5]@ == "Web Data"@,
            r@[6]@ == "Web Data-journal"@,
            r@[7]@ == "Top Sites"@,
            r@[8]@ == "Top Sites-journal"@,
            r@[9]@ == "Visited Links"@,
    {
        let mut r: Vec<&'static str> = Vec::new();
        r.push("Cookies");
        r.push("History");
        r.push("History-journal");
        r.push("Login Data");
        r.push("Login Data-journal");
        r.push("Web Data");
        r.push("Web Data-journal");
        r.push("Top Sites");
        r.push("Top Sites-journal");
        r.push("Visited Links");
        r
    }

    /// The privacy-relevant files inside one Firefox profile.
    pub fn firefox_targets() -> (r: Vec<&'static str>)
        ensures
            r@.len() == 8,
            r@[0]@ == "cookies.sqlite"@,
            r@[1]@ == "cookies.sqlite-wal"@,
            r@[2]@ == "cookies.sqlite-shm"@,
            r@[3]@ == "places.sqlite"@,
            r@[4]@ == "places.sqlite-wal"@,
            r@[5]@ == "places.sqlite-shm"@,
            r@[6]@ == "formhistory.sqlite"@,
            r@[7]@ == "webappsstore.sqlite"@,
    {
        let mut r: Vec<&'static str> = Vec::new();
        r.push("cookies.sqlite");
        r.push("cookies.sqlite-wal");
        r.push("cookies.sqlite-shm");
        r.push("places.sqlite");
        r.push("places.sqlite-wal");
        r.push("places.sqlite-shm");
        r.push("formhistory.sqlite");
        r.push("webappsstore.sqlite");
        r
    }

    /// The warning every privacy scan carries.
    pub fn scan_warning() -> (r: String)
        ensures
            r@ == "Clearing cookies and history will log you out of websites."@,
    {
        String::from_str("Clearing cookies and history will log you out of websites.")
    }

    /// Join a profile directory and a target file name.
    pub fn target_path(profile: &str, target: &str) -> (r: String)
        ensures
            r@ == profile@ + "/"@ + target@,
    {
        concat_str(profile, "/").concat(target)
    }
}

/// The closed set of registered cleaners, fixed at compile time.
#[derive(PartialEq, Eq, Structural, Clone, Copy, Debug)]
pub enum CleanerKind {
    SystemCaches,
    AppLogs,
    BrowserCaches,
    XcodeDerivedData,
    XcodeDeviceSupport,
    XcodeArchives,
    CoreSimulator,
    Homebrew,
    PackageManagers,
    Trash,
    DsStore,
    LargeFiles,
}

/// The machine-readable name of each registered cleaner.
pub open spec fn spec_kind_name(k: CleanerKind) -> Seq<char> {
    match k {
        CleanerKind::SystemCaches => "system-caches"@,
        CleanerKind::AppLogs => "app-logs"@,
        CleanerKind::BrowserCaches => "browser-caches"@,
        CleanerKind::XcodeDerivedData => "xcode"@,
        CleanerKind::XcodeDeviceSupport => "xcode-device-support"@,
        CleanerKind::XcodeArchives => "xcode-archives"@,
        CleanerKind::CoreSimulator => "core-simulator"@,
        CleanerKind::Homebrew => "homebrew"@,
        CleanerKind::PackageManagers => "package-managers"@,
        CleanerKind::Trash => "trash"@,
        CleanerKind::DsStore => "ds-store"@,
        CleanerKind::LargeFiles => "large-files"@,
    }
}

/// The display label of each registered cleaner.
pub open spec fn spec_kind_label(k: CleanerKind) -> Seq<char> {
    match k {
        CleanerKind::SystemCaches => "System Caches"@,
        CleanerKind::AppLogs => "Application Logs"@,
        CleanerKind::BrowserCaches => "Browser Caches"@,
        CleanerKind::XcodeDerivedData => "Xcode Derived Data"@,
        CleanerKind::XcodeDeviceSupport => "Xcode iOS Device Support"@,
        CleanerKind::XcodeArchives => "Xcode Archives"@,
        CleanerKind::CoreSimulator => "CoreSimulator Devices"@,
        CleanerKind::Homebrew => "Homebrew Cache"@,
        CleanerKind::PackageManagers => "Package Manager Caches"@,
        CleanerKind::Trash => "Trash"@,
        CleanerKind::DsStore => ".DS_Store Files"@,
        CleanerKind::LargeFiles => "Large Files"@,
    }
}

/// Whether some registered cleaner carries this name.
pub open spec fn spec_registry_has_name(name: Seq<char>) -> bool {
    ||| name == "system-caches"@
    ||| name == "app-logs"@
    ||| name == "browser-caches"@
    ||| name == "xcode"@
    ||| name == "xcode-device-support"@
    ||| name == "xcode-archives"@
    ||| name == "core-simulator"@
    ||| name == "homebrew"@
    ||| name == "package-managers"@
    ||| name == "trash"@
    ||| name == "ds-store"@
    ||| name == "large-files"@
}

/// One registered cleaner together with its configuration: the
/// large-file size floor and the optional scan root.
pub struct CleanerSpec {
    pub kind: CleanerKind,
    pub min_size_bytes: u64,
    pub root: Option<String>,
}

impl CleanerSpec {
    /// Machine-readable category name.
    pub fn name(&self) -> (r: &'static str)
        ensures
            r@ == spec_kind_name(self.kind),
    {
        match self.kind {
            CleanerKind::SystemCaches => "system-caches",
            CleanerKind::AppLogs => "app-logs",
            CleanerKind::BrowserCaches => "browser-caches",
            CleanerKind::XcodeDerivedData => "xcode",
            CleanerKind::XcodeDeviceSupport => "xcode-device-support",
            CleanerKind::XcodeArchives => "xcode-archives",
            CleanerKind::CoreSimulator => "core-simulator",
            CleanerKind::Homebrew => "homebrew",
            CleanerKind::PackageManagers => "package-managers",
            CleanerKind::Trash => "trash",
            CleanerKind::DsStore => "ds-store",
            CleanerKind::LargeFiles => "large-files",
        }
    }

    /// Human-readable display label.
    pub fn label(&self) -> (r: &'static str)
        ensures
            r@ == spec_kind_label(self.kind),
    {
        match self.kind {
            CleanerKind::SystemCaches => "System Caches",
            CleanerKind::AppLogs => "Application Logs",
            CleanerKind::BrowserCaches => "Browser Caches",
            CleanerKind::XcodeDerivedData => "Xcode Derived Data",
            CleanerKind::XcodeDeviceSupport => "Xcode iOS Device Support",
            CleanerKind::XcodeArchives => "Xcode Archives",
            CleanerKind::CoreSimulator => "CoreSimulator Devices",
            CleanerKind::Homebrew => "Homebrew Cache",
            CleanerKind::PackageManagers => "Package Manager Caches",
            CleanerKind::Trash => "Trash",
            CleanerKind::DsStore => ".DS_Store Files",
            CleanerKind::LargeFiles => "Large Files",
        }
    }

    /// Report-only cleaners list entries without ever deleting them.
    pub fn is_report_only(&self) -> (r: bool)
        ensures
            r == (self.kind == CleanerKind::LargeFiles),
    {
        self.kind == CleanerKind::LargeFiles
    }

    /// The result a clean returns. A dry run, and every clean of a
    /// report-only cleaner, is exactly the scan: deletion is
    /// impossible for that capability by construction. Otherwise the
    /// per-entry outcomes are reconciled: surviving entries kept, the
    /// total recomputed as a fresh sum, failures appended to the
    /// diagnostics.
    pub fn clean_outcome(&self, scan: ScanResult, dry_run: bool, outcomes: &Vec<Option<String>>)
        -> (r: ScanResult)
        requires
            scan.wf(),
            (self.kind != CleanerKind::LargeFiles && !dry_run) ==> outcomes@.len()
                == scan.entries@.len(),
        ensures
            (self.kind == CleanerKind::LargeFiles || dry_run) ==> r == scan,
            (self.kind != CleanerKind::LargeFiles && !dry_run) ==> {
                &&& r.entries@ == crate::cleaner::kept_entries(scan.entries@, outcomes@)
                &&& r.errors@.len() == scan.errors@.len() + crate::cleaner::failure_lines(
                    scan.entries@,
                    outcomes@,
                ).len()
            },
            r.wf(),
    {
        if self.is_report_only() || dry_run {
            scan
        } else {
            crate::cleaner::apply_clean_outcomes(scan, outcomes)
        }
    }
}

/// Copy an optional scan root into an owned value.
fn owned_root(scan_path: Option<&str>) -> (r: Option<String>)
    ensures
        match scan_path {
            Some(p) => r matches Some(q) && q@ == p@,
            None => r is None,
        },
{
    match scan_path {
        Some(p) => Some(String::from_str(p)),
        None => None,
    }
}

/// The registered cleaners, in their fixed order, configured with the
/// large-file floor and the optional scan root.
pub fn all_cleaners(min_size_bytes: u64, scan_path: Option<&str>) -> (v: Vec<CleanerSpec>)
    ensures
        v@.len() == 12,
        v@[0].kind == CleanerKind::SystemCaches,
        v@[1].kind == CleanerKind::AppLogs,
        v@[2].kind == CleanerKind::BrowserCaches,
        v@[3].kind == CleanerKind::XcodeDerivedData,
        v@[4].kind == CleanerKind::XcodeDeviceSupport,
        v@[5].kind == CleanerKind::XcodeArchives,
        v@[6].kind == CleanerKind::CoreSimulator,
        v@[7].kind == CleanerKind::Homebrew,
        v@[8].kind == CleanerKind::PackageManagers,
        v@[9].kind == CleanerKind::Trash,
        v@[10].kind == CleanerKind::DsStore,
        v@[11].kind == CleanerKind::LargeFiles,
        forall|i: int, j: int| 0 <= i < j < 12 ==> v@[i].kind != v@[j].kind,
        forall|i: int|
            0 <= i < 12 ==> (#[trigger] v@[i]).min_size_bytes == min_size_bytes && (
            match scan_path {
                Some(p) => v@[i].root matches Some(q) && q@ == p@,
                None => v@[i].root is None,
            }),
{
    let mut v: Vec<CleanerSpec> = Vec::new();
    v.push(
        CleanerSpec {
            kind: CleanerKind::SystemCaches,
            min_size_bytes,
            root: owned_root(scan_path),
        },
    );
    v.push(CleanerSpec { kind: CleanerKind::AppLogs, min_size_bytes, root: owned_root(scan_path) });
    v.push(
        CleanerSpec {
            kind: CleanerKind::BrowserCaches,
            min_size_bytes,
            root: owned_root(scan_path),
        },
    );
    v.push(
        CleanerSpec {
            kind: CleanerKind::XcodeDerivedData,
            min_size_bytes,
            root: owned_root(scan_path),
        },
    );
    v.push(
        CleanerSpec {
            kind: CleanerKind::XcodeDeviceSupport,
            min_size_bytes,
            root: owned_root(scan_path),
        },
    );
    v.push(
        CleanerSpec {
            kind: CleanerKind::XcodeArchives,
            min_size_bytes,
            root: owned_root(scan_path),
        },
    );
    v.push(
        CleanerSpec {
            kind: CleanerKind::CoreSimulator,
            min_size_bytes,
            root: owned_root(scan_path),
        },
    );
    v.push(CleanerSpec { kind: CleanerKind::Homebrew, min_size_bytes, root: owned_root(scan_path) });
    v.push(
        CleanerSpec {
            kind: CleanerKind::PackageManagers,
            min_size_bytes,
            root: owned_root(scan_path),
        },
    );
    v.push(CleanerSpec { kind: CleanerKind::Trash, min_size_bytes, root: owned_root(scan_path) });
    v.push(CleanerSpec { kind: CleanerKind::DsStore, min_size_bytes, root: owned_root(scan_path) });
    v.push(
        CleanerSpec { kind: CleanerKind::LargeFiles, min_size_bytes, root: owned_root(scan_path) },
    );
    v
}

/// The registered cleaner with the given name, configured like
/// `all_cleaners`, or nothing when the name is unknown.
pub fn find_cleaner(name: &str, min_size_bytes: u64, scan_path: Option<&str>) -> (r: Option<
    CleanerSpec,
>)
    ensures
        match r {
            Some(c) => spec_registry_has_name(name@) && spec_kind_name(c.kind) == name@
                && c.min_size_bytes == min_size_bytes && (match scan_path {
                Some(p) => c.root matches Some(q) && q@ == p@,
                None => c.root is None,
            }),
            None => !spec_registry_has_name(name@),
        },
{
    if str_eq(name, "system-caches") {
        Some(CleanerSpec { kind: CleanerKind::SystemCaches, min_size_bytes, root: owned_root(scan_path) })
    } else if str_eq(name, "app-logs") {
        Some(CleanerSpec { kind: CleanerKind::AppLogs, min_size_bytes, root: owned_root(scan_path) })
    } else if str_eq(name, "browser-caches") {
        Some(CleanerSpec { kind: CleanerKind::BrowserCaches, min_size_bytes, root: owned_root(scan_path) })
    } else if str_eq(name, "xcode") {
        Some(CleanerSpec { kind: CleanerKind::XcodeDerivedData, min_size_bytes, root: owned_root(scan_path) })
    } else if str_eq(name, "xcode-device-support") {
        Some(CleanerSpec { kind: CleanerKind::XcodeDeviceSupport, min_size_bytes, root: owned_root(scan_path) })
    } else if str_eq(name, "xcode-archives") {
        Some(CleanerSpec { kind: CleanerKind::XcodeArchives, min_size_bytes, root: owned_root(scan_path) })
    } else if str_eq(name, "core-simulator") {
        Some(CleanerSpec { kind: CleanerKind::CoreSimulator, min_size_bytes, root: owned_root(scan_path) })
    } else if str_eq(name, "homebrew") {
        Some(CleanerSpec { kind: CleanerKind::Homebrew, min_size_bytes, root: owned_root(scan_path) })
    } else if str_eq(name, "package-managers") {
        Some(CleanerSpec { kind: CleanerKind::PackageManagers, min_size_bytes, root: owned_root(scan_path) })
    } else if str_eq(name, "trash") {
        Some(CleanerSpec { kind: CleanerKind::Trash, min_size_bytes, root: owned_root(scan_path) })
    } else if str_eq(name, "ds-store") {
        Some(CleanerSpec { kind: CleanerKind::DsStore, min_size_bytes, root: owned_root(scan_path) })
    } else if str_eq(name, "large-files") {
        Some(CleanerSpec { kind: CleanerKind::LargeFiles, min_size_bytes, root: owned_root(scan_path) })
    } else {
        None
    }
}

/// The names of every registered cleaner, in registry order.
pub fn all_cleaner_names() -> (v: Vec<&'static str>)
    ensures
        v@.len() == 12,
        v@[0]@ == "system-caches"@,
        v@[1]@ == "app-logs"@,
        v@[2]@ == "browser-caches"@,
        v@[3]@ == "xcode"@,
        v@[4]@ == "xcode-device-support"@,
        v@[5]@ == "xcode-archives"@,
        v@[6]@ == "core-simulator"@,
        v@[7]@ == "homebrew"@,
        v@[8]@ == "package-managers"@,
        v@[9]@ == "trash"@,
        v@[10]@ == "ds-store"@,
        v@[11]@ == "large-files"@,
{
    let mut v: Vec<&'static str> = Vec::new();
    v.push("system-caches");
    v.push("app-logs");
    v.push("browser-caches");
    v.push("xcode");
    v.push("xcode-device-support");
    v.push("xcode-archives");
    v.push("core-simulator");
    v.push("homebrew");
    v.push("package-managers");
    v.push("trash");
    v.push("ds-store");
    v.push("large-files");
    v
}

/// The cleaners one run works on: the named one alone when a category
/// is given (none at all when the name is unknown), else every
/// registered cleaner.
pub fn resolve_cleaners(category: Option<&str>, min_bytes: u64, path: Option<&str>) -> (v: Vec<
    CleanerSpec,
>)
    ensures
        match category {
            Some(n) => {
                if spec_registry_has_name(n@) {
                    v@.len() == 1 && spec_kind_name(v@[0].kind) == n@
                } else {
                    v@.len() == 0
                }
            },
            None => v@.len() == 12,
        },
{
    match category {
        Some(n) => {
            match find_cleaner(n, min_bytes, path) {
                Some(c) => {
                    let mut v: Vec<CleanerSpec> = Vec::new();
                    v.push(c);
                    v
                },
                None => Vec::new(),
            }
        },
        None => all_cleaners(min_bytes, path),
    }
}

} // verus!
