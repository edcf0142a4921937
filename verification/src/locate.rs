//! Discovery tables: platform naming and the ordered candidate locations
//! for engine binaries and script directories.
//!
//! Everything here is a pure table or an ordering rule; the host probes the
//! filesystem and feeds the answers back.

use vstd::prelude::*;
use vstd::string::StrSliceExecFns;
use vstd::string::StringExecFns;

use crate::text::str_eq;
use crate::json::strs_model;

verus! {

/// The model of an ordered list of candidate paths, each a segment list.
pub open spec fn paths_model(v: Seq<Vec<String>>) -> Seq<Seq<Seq<char>>> {
    Seq::new(
        v.len(),
        |i: int|
            if 0 <= i < v.len() {
                strs_model(v[i]@)
            } else {
                Seq::empty()
            },
    )
}

/// The per-platform directory name of the bundled engine tree.
pub open spec fn platform_dir_for(os: Seq<char>, arch: Seq<char>) -> Seq<char> {
    if os == "macos"@ && arch == "aarch64"@ {
        "macos-arm64"@
    } else if os == "macos"@ && arch == "x86_64"@ {
        "macos-x64"@
    } else if os == "windows"@ && arch == "x86_64"@ {
        "windows-x64"@
    } else if os == "linux"@ && arch == "x86_64"@ {
        "linux-x64"@
    } else {
        "unsupported"@
    }
}

/// The per-platform directory name of the bundled engine tree.
pub fn platform_dir(os: &str, arch: &str) -> (r: &'static str)
    ensures
        r@ == platform_dir_for(os@, arch@),
{
    if str_eq(os, "macos") && str_eq(arch, "aarch64") {
        "macos-arm64"
    } else if str_eq(os, "macos") && str_eq(arch, "x86_64") {
        "macos-x64"
    } else if str_eq(os, "windows") && str_eq(arch, "x86_64") {
        "windows-x64"
    } else if str_eq(os, "linux") && str_eq(arch, "x86_64") {
        "linux-x64"
    } else {
        "unsupported"
    }
}

/// The interpreter executable name of the "r" engine per platform.
pub open spec fn rscript_executable_for(os: Seq<char>) -> Seq<char> {
    if os == "windows"@ {
        "Rscript.exe"@
    } else {
        "Rscript"@
    }
}

/// The interpreter executable name of the "r" engine per platform.
pub fn rscript_executable(os: &str) -> (r: &'static str)
    ensures
        r@ == rscript_executable_for(os@),
{
    if str_eq(os, "windows") {
        "Rscript.exe"
    } else {
        "Rscript"
    }
}

/// The interpreter executable name of the "python" engine per platform.
pub open spec fn python_executable_for(os: Seq<char>) -> Seq<char> {
    if os == "windows"@ {
        "python.exe"@
    } else {
        "python3"@
    }
}

/// The interpreter executable name of the "python" engine per platform.
pub fn python_executable(os: &str) -> (r: &'static str)
    ensures
        r@ == python_executable_for(os@),
{
    if str_eq(os, "windows") {
        "python.exe"
    } else {
        "python3"
    }
}

/// The command probed on the search path for the "python" engine.
pub fn python_command_name(os: &str) -> (r: &'static str)
    ensures
        r@ == (if os@ == "windows"@ {
            "python"@
        } else {
            "python3"@
        }),
{
    if str_eq(os, "windows") {
        "python"
    } else {
        "python3"
    }
}

/// One candidate: a list of path segments.
fn segs1(a: &str) -> (r: Vec<String>)
    ensures
        strs_model(r@) =~= seq![a@],
{
    let mut v: Vec<String> = Vec::new();
    v.push(String::from_str(a));
    v
}

/// One candidate of two segments.
fn segs2(a: &str, b: &str) -> (r: Vec<String>)
    ensures
        strs_model(r@) =~= seq![a@, b@],
{
    let mut v: Vec<String> = Vec::new();
    v.push(String::from_str(a));
    v.push(String::from_str(b));
    v
}

/// One candidate of three segments.
fn segs3(a: &str, b: &str, c: &str) -> (r: Vec<String>)
    ensures
        strs_model(r@) =~= seq![a@, b@, c@],
{
    let mut v: Vec<String> = Vec::new();
    v.push(String::from_str(a));
    v.push(String::from_str(b));
    v.push(String::from_str(c));
    v
}

/// One candidate of four segments.
fn segs4(a: &str, b: &str, c: &str, d: &str) -> (r: Vec<String>)
    ensures
        strs_model(r@) =~= seq![a@, b@, c@, d@],
{
    let mut v: Vec<String> = Vec::new();
    v.push(String::from_str(a));
    v.push(String::from_str(b));
    v.push(String::from_str(c));
    v.push(String::from_str(d));
    v
}

/// The candidates under the bundled resource directory for the scripts
/// tree, in probe order: the wrapped production layout first, then the
/// direct one.
pub fn engines_resource_candidates() -> (r: Vec<Vec<String>>)
    ensures
        paths_model(r@) =~= seq![
            seq!["_up_"@, "_up_"@, "_up_"@, "engines"@],
            seq!["engines"@],
        ],
{
    let mut v: Vec<Vec<String>> = Vec::new();
    v.push(segs4("_up_", "_up_", "_up_", "engines"));
    v.push(segs1("engines"));
    v
}

/// The candidate checked at each ancestor while walking up from the
/// executable looking for the scripts tree.
pub fn engines_walkup_candidates() -> (r: Vec<Vec<String>>)
    ensures
        paths_model(r@) =~= seq![seq!["engines"@]],
{
    let mut v: Vec<Vec<String>> = Vec::new();
    v.push(segs1("engines"));
    v
}

/// The candidates under the bundled resource directory for the bundled
/// engine binaries, in probe order.
pub fn bundled_resource_candidates() -> (r: Vec<Vec<String>>)
    ensures
        paths_model(r@) =~= seq![
            seq!["_up_"@, "_up_"@, "bundled-engines"@],
            seq!["_up_"@, "bundled-engines"@],
            seq!["bundled-engines"@],
        ],
{
    let mut v: Vec<Vec<String>> = Vec::new();
    v.push(segs3("_up_", "_up_", "bundled-engines"));
    v.push(segs2("_up_", "bundled-engines"));
    v.push(segs1("bundled-engines"));
    v
}

/// The candidates checked at each ancestor while walking up looking for
/// the bundled engine binaries.
pub fn bundled_walkup_candidates() -> (r: Vec<Vec<String>>)
    ensures
        paths_model(r@) =~= seq![
            seq!["apps"@, "desktop"@, "bundled-engines"@],
            seq!["bundled-engines"@],
        ],
{
    let mut v: Vec<Vec<String>> = Vec::new();
    v.push(segs3("apps", "desktop", "bundled-engines"));
    v.push(segs1("bundled-engines"));
    v
}

/// How many ancestors the development walk-up visits at most.
pub fn walkup_limit() -> (r: usize)
    ensures
        r == 10,
{
    10
}

/// The bundled Rscript executable, relative to the bundled engines root.
pub fn bundled_rscript_segments(os: &str, arch: &str) -> (r: Vec<String>)
    ensures
        strs_model(r@) =~= seq![
            platform_dir_for(os@, arch@),
            "r"@,
            "bin"@,
            rscript_executable_for(os@),
        ],
{
    let mut v: Vec<String> = Vec::new();
    v.push(String::from_str(platform_dir(os, arch)));
    v.push(String::from_str("r"));
    v.push(String::from_str("bin"));
    v.push(String::from_str(rscript_executable(os)));
    v
}

/// The bundled Python executable, relative to the bundled engines root:
/// the embeddable layout puts it at the tree root on windows, under `bin`
/// elsewhere.
pub fn bundled_python_segments(os: &str, arch: &str) -> (r: Vec<String>)
    ensures
        os@ == "windows"@ ==> strs_model(r@) =~= seq![
            platform_dir_for(os@, arch@),
            "python"@,
            python_executable_for(os@),
        ],
        os@ != "windows"@ ==> strs_model(r@) =~= seq![
            platform_dir_for(os@, arch@),
            "python"@,
            "bin"@,
            python_executable_for(os@),
        ],
{
    let mut v: Vec<String> = Vec::new();
    v.push(String::from_str(platform_dir(os, arch)));
    v.push(String::from_str("python"));
    if str_eq(os, "windows") {
        v.push(String::from_str(python_executable(os)));
    } else {
        v.push(String::from_str("bin"));
        v.push(String::from_str(python_executable(os)));
    }
    v
}

/// The bundled R package library, relative to the bundled engines root.
pub fn bundled_r_library_segments(os: &str, arch: &str) -> (r: Vec<String>)
    ensures
        strs_model(r@) =~= seq![platform_dir_for(os@, arch@), "r"@, "library"@],
{
    let mut v: Vec<String> = Vec::new();
    v.push(String::from_str(platform_dir(os, arch)));
    v.push(String::from_str("r"));
    v.push(String::from_str("library"));
    v
}

/// The bundled Python site-packages on windows, relative to the root.
pub fn bundled_site_packages_windows_segments(arch: &str) -> (r: Vec<String>)
    ensures
        strs_model(r@) =~= seq![
            platform_dir_for("windows"@, arch@),
            "python"@,
            "Lib"@,
            "site-packages"@,
        ],
{
    let mut v: Vec<String> = Vec::new();
    v.push(String::from_str(platform_dir("windows", arch)));
    v.push(String::from_str("python"));
    v.push(String::from_str("Lib"));
    v.push(String::from_str("site-packages"));
    v
}

/// The bundled Python library directory on unix systems, under which a
/// per-version directory holds `site-packages`.
pub fn bundled_python_lib_segments(os: &str, arch: &str) -> (r: Vec<String>)
    ensures
        strs_model(r@) =~= seq![platform_dir_for(os@, arch@), "python"@, "lib"@],
{
    let mut v: Vec<String> = Vec::new();
    v.push(String::from_str(platform_dir(os, arch)));
    v.push(String::from_str("python"));
    v.push(String::from_str("lib"));
    v
}

/// Whether a string starts with a prefix.
pub open spec fn has_prefix(s: Seq<char>, p: Seq<char>) -> bool {
    s.len() >= p.len() && s.subrange(0, p.len() as int) == p
}

/// Whether a string starts with a prefix.
#[verifier::loop_isolation(false)]
pub fn str_has_prefix(s: &str, p: &str) -> (r: bool)
    ensures
        r == has_prefix(s@, p@),
{
    let n = s.unicode_len();
    let m = p.unicode_len();
    if n < m {
        proof {
            assert(!has_prefix(s@, p@));
        }
        return false;
    }
    let mut i: usize = 0;
    while i < m
        invariant
            n as nat == s@.len(),
            m as nat == p@.len(),
            m <= n,
            i <= m,
            forall|j: int| 0 <= j < i ==> s@[j] == p@[j],
        decreases m - i,
    {
        if s.get_char(i) != p.get_char(i) {
            proof {
                assert(s@.subrange(0, p@.len() as int)[i as int] != p@[i as int]);
            }
            return false;
        }
        i = i + 1;
    }
    proof {
        assert(s@.subrange(0, p@.len() as int) =~= p@);
    }
    true
}

/// The first lib entry that begins with "python" and has `site-packages`
/// beneath it: the per-version directory the unix site-packages probe
/// descends into.  The caller reports, per entry, whether `site-packages`
/// exists under it.
#[verifier::loop_isolation(false)]
pub fn pick_python_dir(names: &Vec<String>, has_site_packages: &Vec<bool>) -> (r: Option<usize>)
    requires
        names@.len() == has_site_packages@.len(),
    ensures
        match r {
            Some(i) => i < names@.len() && has_prefix(names@[i as int]@, "python"@)
                && has_site_packages@[i as int] && forall|j: int|
                0 <= j < i ==> !(has_prefix((#[trigger] names@[j])@, "python"@)
                    && has_site_packages@[j]),
            None => forall|j: int|
                0 <= j < names@.len() ==> !(has_prefix((#[trigger] names@[j])@, "python"@)
                    && has_site_packages@[j]),
        },
{
    let mut i: usize = 0;
    while i < names.len()
        invariant
            names@.len() == has_site_packages@.len(),
            i <= names.len(),
            forall|j: int|
                0 <= j < i ==> !(has_prefix((#[trigger] names@[j])@, "python"@)
                    && has_site_packages@[j]),
        decreases names.len() - i,
    {
        if str_has_prefix(names[i].as_str(), "python") && has_site_packages[i] {
            return Some(i);
        }
        i = i + 1;
    }
    None
}

/// The fallback piece tried when no per-version directory is found.
pub fn python_lib_fallback_segments() -> (r: Vec<String>)
    ensures
        strs_model(r@) =~= seq!["python3"@, "site-packages"@],
{
    segs2("python3", "site-packages")
}

/// The environment variable naming the windows program-files directory.
pub fn windows_program_files_var() -> (r: &'static str)
    ensures
        r@ == "ProgramFiles"@,
{
    "ProgramFiles"
}

/// The environment variable naming the windows local application data
/// directory.
pub fn windows_local_app_data_var() -> (r: &'static str)
    ensures
        r@ == "LOCALAPPDATA"@,
{
    "LOCALAPPDATA"
}

/// Where the windows R installs live, relative to the program-files
/// directory: each entry of this directory is one installed version.
pub fn windows_r_root_segments() -> (r: Vec<String>)
    ensures
        strs_model(r@) =~= seq!["R"@],
{
    segs1("R")
}

/// The interpreter inside one windows R version directory.
pub fn windows_rscript_entry_segments() -> (r: Vec<String>)
    ensures
        strs_model(r@) =~= seq!["bin"@, "Rscript.exe"@],
{
    segs2("bin", "Rscript.exe")
}

/// Where the windows Python installs live, relative to the local
/// application data directory.
pub fn windows_python_root_segments() -> (r: Vec<String>)
    ensures
        strs_model(r@) =~= seq!["Programs"@, "Python"@],
{
    segs2("Programs", "Python")
}

/// The interpreter inside one windows Python version directory.
pub fn windows_python_entry_segments() -> (r: Vec<String>)
    ensures
        strs_model(r@) =~= seq!["python.exe"@],
{
    segs1("python.exe")
}

/// The well-known install locations probed for Rscript per platform, in
/// order, after the search path.  The windows fallback is not a fixed
/// list: it scans the installed R versions, with the rule given by
/// [`windows_r_root_segments`] and [`windows_rscript_entry_segments`] and
/// the first existing interpreter winning.
pub fn rscript_fallback_paths(os: &str) -> (r: Vec<String>)
    ensures
        os@ == "macos"@ ==> strs_model(r@) =~= seq![
            "/usr/local/bin/Rscript"@,
            "/opt/homebrew/bin/Rscript"@,
            "/Library/Frameworks/R.framework/Versions/Current/Resources/bin/Rscript"@,
            "/opt/R/arm64/bin/Rscript"@,
            "/opt/R/x86_64/bin/Rscript"@,
        ],
        os@ != "macos"@ ==> strs_model(r@) =~= Seq::<Seq<char>>::empty(),
{
    let mut v: Vec<String> = Vec::new();
    if str_eq(os, "macos") {
        v.push(String::from_str("/usr/local/bin/Rscript"));
        v.push(String::from_str("/opt/homebrew/bin/Rscript"));
        v.push(
            String::from_str(
                "/Library/Frameworks/R.framework/Versions/Current/Resources/bin/Rscript",
            ),
        );
        v.push(String::from_str("/opt/R/arm64/bin/Rscript"));
        v.push(String::from_str("/opt/R/x86_64/bin/Rscript"));
    }
    v
}

/// The well-known install locations probed for Python per platform, in
/// order, after the search path.  The windows fallback scans the installed
/// Python versions instead, with the rule given by
/// [`windows_python_root_segments`] and [`windows_python_entry_segments`].
pub fn python_fallback_paths(os: &str) -> (r: Vec<String>)
    ensures
        os@ == "macos"@ ==> strs_model(r@) =~= seq![
            "/usr/local/bin/python3"@,
            "/opt/homebrew/bin/python3"@,
            "/usr/bin/python3"@,
            "/Library/Frameworks/Python.framework/Versions/Current/bin/python3"@,
        ],
        os@ != "macos"@ ==> strs_model(r@) =~= Seq::<Seq<char>>::empty(),
{
    let mut v: Vec<String> = Vec::new();
    if str_eq(os, "macos") {
        v.push(String::from_str("/usr/local/bin/python3"));
        v.push(String::from_str("/opt/homebrew/bin/python3"));
        v.push(String::from_str("/usr/bin/python3"));
        v.push(
            String::from_str("/Library/Frameworks/Python.framework/Versions/Current/bin/python3"),
        );
    }
    v
}

/// The index of the first existing candidate, under the discovery rule
/// that the first existing location wins and nothing after it is taken.
#[verifier::loop_isolation(false)]
pub fn first_existing(exists_flags: &Vec<bool>) -> (r: Option<usize>)
    ensures
        match r {
            Some(i) => i < exists_flags@.len() && exists_flags@[i as int] && forall|j: int|
                0 <= j < i ==> !(#[trigger] exists_flags@[j]),
            None => forall|j: int| 0 <= j < exists_flags@.len() ==> !(#[trigger] exists_flags@[j]),
        },
{
    let mut i: usize = 0;
    while i < exists_flags.len()
        invariant
            i <= exists_flags.len(),
            forall|j: int| 0 <= j < i ==> !(#[trigger] exists_flags@[j]),
        decreases exists_flags.len() - i,
    {
        if exists_flags[i] {
            return Some(i);
        }
        i = i + 1;
    }
    None
}

} // verus!
