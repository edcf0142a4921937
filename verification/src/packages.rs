//! Package bookkeeping: the packages each engine needs, the one-line
//! scripts that probe for them, and the install command lines.

use vstd::prelude::*;
use vstd::string::StringExecFns;

use crate::json::strs_model;
use crate::text::spec_join;
use crate::text::join_strs;
use crate::text::str_eq;

verus! {

/// The R packages the analysis scripts rely on.
pub fn r_required_packages() -> (r: Vec<String>)
    ensures
        strs_model(r@) =~= seq![
            "jsonlite"@,
            "psych"@,
            "lavaan"@,
            "lme4"@,
            "boot"@,
            "mediation"@,
        ],
{
    let mut v: Vec<String> = Vec::new();
    v.push(String::from_str("jsonlite"));
    v.push(String::from_str("psych"));
    v.push(String::from_str("lavaan"));
    v.push(String::from_str("lme4"));
    v.push(String::from_str("boot"));
    v.push(String::from_str("mediation"));
    v
}

/// The Python packages the analysis scripts rely on.
pub fn python_required_packages() -> (r: Vec<String>)
    ensures
        strs_model(r@) =~= seq![
            "pandas"@,
            "numpy"@,
            "scipy"@,
            "statsmodels"@,
            "semopy"@,
            "factor_analyzer"@,
            "pingouin"@,
        ],
{
    let mut v: Vec<String> = Vec::new();
    v.push(String::from_str("pandas"));
    v.push(String::from_str("numpy"));
    v.push(String::from_str("scipy"));
    v.push(String::from_str("statsmodels"));
    v.push(String::from_str("semopy"));
    v.push(String::from_str("factor_analyzer"));
    v.push(String::from_str("pingouin"));
    v
}

/// The one-line R script that exits nonzero when a package is missing.
pub open spec fn r_check_text(pkg: Seq<char>) -> Seq<char> {
    "if (!requireNamespace('"@ + pkg + "', quietly = TRUE)) quit(status = 1)"@
}

/// Builds the R package probe script.
pub fn r_package_check_script(pkg: &str) -> (r: String)
    ensures
        r@ == r_check_text(pkg@),
{
    let mut out = String::from_str("if (!requireNamespace('");
    out.append(pkg);
    out.append("', quietly = TRUE)) quit(status = 1)");
    proof {
        assert(out@ =~= r_check_text(pkg@));
    }
    out
}

/// The one-line Python script that exits nonzero when a package is
/// missing.
pub open spec fn python_check_text(pkg: Seq<char>) -> Seq<char> {
    "import importlib.util; exit(0 if importlib.util.find_spec('"@ + pkg + "') else 1)"@
}

/// Builds the Python package probe script.
pub fn python_package_check_script(pkg: &str) -> (r: String)
    ensures
        r@ == python_check_text(pkg@),
{
    let mut out = String::from_str("import importlib.util; exit(0 if importlib.util.find_spec('");
    out.append(pkg);
    out.append("') else 1)");
    proof {
        assert(out@ =~= python_check_text(pkg@));
    }
    out
}

/// The packages whose probes failed, in order.
pub open spec fn missing_list(pkgs: Seq<Seq<char>>, present: Seq<bool>) -> Seq<Seq<char>>
    decreases pkgs.len(),
{
    if pkgs.len() == 0 {
        Seq::empty()
    } else {
        missing_list(pkgs.drop_last(), present.drop_last()) + (if present.last() {
            Seq::empty()
        } else {
            seq![pkgs.last()]
        })
    }
}

/// Picks the packages whose probes failed, keeping their order.
#[verifier::loop_isolation(false)]
pub fn missing_packages(pkgs: &Vec<String>, present: &Vec<bool>) -> (r: Vec<String>)
    requires
        pkgs@.len() == present@.len(),
    ensures
        strs_model(r@) == missing_list(strs_model(pkgs@), present@),
{
    let ghost mp = strs_model(pkgs@);
    let mut out: Vec<String> = Vec::new();
    let mut i: usize = 0;
    while i < pkgs.len()
        invariant
            pkgs@.len() == present@.len(),
            i <= pkgs.len(),
            strs_model(out@) == missing_list(mp.subrange(0, i as int), present@.subrange(0, i as int)),
        decreases pkgs.len() - i,
    {
        let ghost ppre = mp.subrange(0, i as int);
        let ghost pcur = mp.subrange(0, i + 1 as int);
        let ghost bpre = present@.subrange(0, i as int);
        let ghost bcur = present@.subrange(0, i + 1 as int);
        proof {
            assert(pcur.drop_last() =~= ppre);
            assert(bcur.drop_last() =~= bpre);
            assert(pcur.last() == mp[i as int]);
            assert(bcur.last() == present@[i as int]);
            assert(mp[i as int] == pkgs@[i as int]@);
        }
        if !present[i] {
            out.push(pkgs[i].clone());
        }
        proof {
            assert(strs_model(out@) =~= missing_list(pcur, bcur));
        }
        i = i + 1;
    }
    proof {
        assert(mp.subrange(0, pkgs.len() as int) =~= mp);
        assert(present@.subrange(0, present.len() as int) =~= present@);
    }
    out
}

/// The one-line R script installing the required packages.
pub open spec fn r_install_text(pkgs: Seq<Seq<char>>) -> Seq<char> {
    "install.packages(c('"@ + spec_join(pkgs, "', '"@)
        + "'), repos = 'https://cloud.r-project.org/')"@
}

/// Builds the R package install script.
pub fn r_install_script(pkgs: &Vec<String>) -> (r: String)
    ensures
        r@ == r_install_text(strs_model(pkgs@)),
{
    let joined = join_strs(pkgs, "', '");
    let mut out = String::from_str("install.packages(c('");
    out.append(joined.as_str());
    out.append("'), repos = 'https://cloud.r-project.org/')");
    proof {
        assert(pkgs@.map_values(|s: String| s@) =~= strs_model(pkgs@));
        assert(out@ =~= r_install_text(strs_model(pkgs@)));
    }
    out
}

/// The arguments handed to the Python interpreter to install the required
/// packages: pip in user mode, with the trusted hosts that work around
/// certificate trouble on windows, then the packages.
#[verifier::loop_isolation(false)]
pub fn pip_install_args(os: &str, pkgs: &Vec<String>) -> (r: Vec<String>)
    ensures
        os@ == "windows"@ ==> strs_model(r@) =~= seq![
            "-m"@,
            "pip"@,
            "install"@,
            "--user"@,
            "--trusted-host"@,
            "pypi.org"@,
            "--trusted-host"@,
            "pypi.python.org"@,
            "--trusted-host"@,
            "files.pythonhosted.org"@,
        ] + strs_model(pkgs@),
        os@ != "windows"@ ==> strs_model(r@) =~= seq!["-m"@, "pip"@, "install"@, "--user"@]
            + strs_model(pkgs@),
{
    let mut v: Vec<String> = Vec::new();
    v.push(String::from_str("-m"));
    v.push(String::from_str("pip"));
    v.push(String::from_str("install"));
    v.push(String::from_str("--user"));
    if str_eq(os, "windows") {
        v.push(String::from_str("--trusted-host"));
        v.push(String::from_str("pypi.org"));
        v.push(String::from_str("--trusted-host"));
        v.push(String::from_str("pypi.python.org"));
        v.push(String::from_str("--trusted-host"));
        v.push(String::from_str("files.pythonhosted.org"));
    }
    let ghost head = strs_model(v@);
    let mut i: usize = 0;
    while i < pkgs.len()
        invariant
            i <= pkgs.len(),
            strs_model(v@) == head + strs_model(pkgs@).subrange(0, i as int),
        decreases pkgs.len() - i,
    {
        let ghost v0 = v@;
        v.push(pkgs[i].clone());
        proof {
            assert(v@.len() == v0.len() + 1);
            assert(forall|j: int| 0 <= j < v0.len() ==> v@[j] == #[trigger] v0[j]);
            assert((v@[v0.len() as int])@ == pkgs@[i as int]@);
            assert(strs_model(v@) =~= strs_model(v0).push(pkgs@[i as int]@));
            assert(strs_model(pkgs@)[i as int] == pkgs@[i as int]@);
            assert(head + strs_model(pkgs@).subrange(0, i + 1 as int) =~= (head + strs_model(
                pkgs@,
            ).subrange(0, i as int)).push(strs_model(pkgs@)[i as int]));
            assert(strs_model(v@) =~= head + strs_model(pkgs@).subrange(0, i + 1 as int));
        }
        i = i + 1;
    }
    proof {
        assert(strs_model(pkgs@).subrange(0, pkgs.len() as int) =~= strs_model(pkgs@));
        assert(head + strs_model(pkgs@) =~= strs_model(v@));
    }
    v
}

/// Install state of the engines and their packages, as reported to the
/// caller.
#[derive(Debug)]
pub struct EngineInstallStatus {
    pub r_installed: bool,
    pub r_version: Option<String>,
    pub r_packages_installed: bool,
    pub r_missing_packages: Vec<String>,
    pub python_installed: bool,
    pub python_version: Option<String>,
    pub python_packages_installed: bool,
    pub python_missing_packages: Vec<String>,
    pub homebrew_installed: bool,
    pub winget_available: bool,
}

} // verus!
