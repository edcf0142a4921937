//! Engine selection and the records exchanged with the host application.

use vstd::prelude::*;
use vstd::string::StrSliceExecFns;
use vstd::string::StringExecFns;

use crate::json::JsonValue;
use crate::parse::is_ws_char;
use crate::text::lower_chars;
use crate::text::push_char;
use crate::text::str_eq;
use crate::text::to_ascii_lower;

verus! {

/// One of the two interchangeable computation engines.
#[derive(Debug, Clone, Copy, PartialEq, Eq, Structural)]
pub enum Engine {
    R,
    Python,
}

/// Which engine a request names, after lowercasing; `None` otherwise.
pub open spec fn engine_for(s: Seq<char>) -> Option<Engine> {
    if lower_chars(s) == "r"@ {
        Some(Engine::R)
    } else if lower_chars(s) == "python"@ {
        Some(Engine::Python)
    } else {
        None
    }
}

/// Recognizes the engine a request names, case-insensitively.
pub fn parse_engine(s: &str) -> (r: Option<Engine>)
    ensures
        r == engine_for(s@),
{
    let lowered = to_ascii_lower(s);
    if str_eq(lowered.as_str(), "r") {
        Some(Engine::R)
    } else if str_eq(lowered.as_str(), "python") {
        Some(Engine::Python)
    } else {
        None
    }
}

/// The message reported for a request naming no known engine.
pub open spec fn unknown_engine_message(s: Seq<char>) -> Seq<char> {
    "Unknown engine '"@ + s + "'. Expected 'r' or 'python'."@
}

/// Builds the message for a request naming no known engine.
pub fn build_unknown_engine_message(s: &str) -> (r: String)
    ensures
        r@ == unknown_engine_message(s@),
{
    let mut out = String::from_str("Unknown engine '");
    out.append(s);
    out.append("'. Expected 'r' or 'python'.");
    proof {
        assert(out@ =~= unknown_engine_message(s@));
    }
    out
}

/// An analysis request as the caller hands it over.
#[derive(Debug)]
pub struct AnalysisRequest {
    /// Identifies which analysis to run (e.g. "descriptives", "ttest").
    pub spec_id: String,
    /// Named variables passed into the script environment.
    pub variables: Vec<(String, JsonValue)>,
    /// Arbitrary options forwarded to the script.
    pub options: JsonValue,
    /// Which engine to use: "r" or "python".
    pub engine: String,
    /// Rows of data.
    pub data: Vec<JsonValue>,
    /// Dataset name, for reference only.
    pub dataset_name: String,
}

/// The raw outcome of one subprocess run.
#[derive(Debug)]
pub struct EngineResult {
    pub stdout: String,
    pub stderr: String,
    pub exit_code: i32,
    pub success: bool,
}

/// Assembles the raw outcome of a subprocess run; a missing exit code
/// becomes -1.
pub fn engine_result_from(stdout: String, stderr: String, code: Option<i32>, success: bool) -> (r:
    EngineResult)
    ensures
        r.stdout@ == stdout@,
        r.stderr@ == stderr@,
        code matches Some(c) ==> r.exit_code == c,
        code is None ==> r.exit_code == -1,
        r.success == success,
{
    EngineResult {
        stdout,
        stderr,
        exit_code: match code {
            Some(c) => c,
            None => -1,
        },
        success,
    }
}

/// Availability and versions of the two engines.
#[derive(Debug)]
pub struct EngineStatus {
    pub r_available: bool,
    pub python_available: bool,
    pub r_version: Option<String>,
    pub python_version: Option<String>,
}

/// The text up to the first line break.
pub open spec fn first_line_of(s: Seq<char>) -> Seq<char>
    decreases s.len(),
{
    if s.len() == 0 {
        Seq::empty()
    } else if s[0] == '\n' {
        Seq::empty()
    } else {
        seq![s[0]] + first_line_of(s.drop_first())
    }
}

/// A break-free prefix that ends at a break or at the end is the first
/// line.
proof fn lemma_first_line_prefix(s: Seq<char>, k: int)
    requires
        0 <= k <= s.len(),
        forall|j: int| 0 <= j < k ==> s[j] != '\n',
        k == s.len() || s[k] == '\n',
    ensures
        first_line_of(s) == s.subrange(0, k),
    decreases s.len(),
{
    if k == 0 {
        assert(s.subrange(0, 0) =~= Seq::<char>::empty());
    } else {
        let t = s.drop_first();
        assert(forall|j: int| 0 <= j < k - 1 ==> t[j] == s[j + 1]);
        lemma_first_line_prefix(t, k - 1);
        assert(seq![s[0]] + t.subrange(0, k - 1) =~= s.subrange(0, k));
    }
}

/// The text up to the first line break.
#[verifier::loop_isolation(false)]
pub fn first_line(s: &str) -> (r: String)
    ensures
        r@ == first_line_of(s@),
{
    let n = s.unicode_len();
    let mut out = String::new();
    let mut i: usize = 0;
    while i < n
        invariant
            n as nat == s@.len(),
            i <= n,
            out@ == s@.subrange(0, i as int),
            forall|j: int| 0 <= j < i ==> s@[j] != '\n',
        decreases n - i,
    {
        let c = s.get_char(i);
        if c == '\n' {
            proof {
                lemma_first_line_prefix(s@, i as int);
            }
            return out;
        }
        push_char(&mut out, c);
        proof {
            assert(out@ =~= s@.subrange(0, i + 1 as int));
        }
        i = i + 1;
    }
    proof {
        lemma_first_line_prefix(s@, n as int);
    }
    out
}

/// The text with its leading whitespace removed.
pub open spec fn drop_leading_ws(s: Seq<char>) -> Seq<char>
    decreases s.len(),
{
    if s.len() > 0 && is_ws_char(s[0]) {
        drop_leading_ws(s.drop_first())
    } else {
        s
    }
}

/// The text with its trailing whitespace removed.
pub open spec fn drop_trailing_ws(s: Seq<char>) -> Seq<char>
    decreases s.len(),
{
    if s.len() > 0 && is_ws_char(s.last()) {
        drop_trailing_ws(s.drop_last())
    } else {
        s
    }
}

/// The text with surrounding whitespace removed.
pub open spec fn trimmed(s: Seq<char>) -> Seq<char> {
    drop_trailing_ws(drop_leading_ws(s))
}

/// A whitespace prefix that ends at a non-whitespace character (or at the
/// end) is exactly what the leading trim removes.
proof fn lemma_drop_leading_at(s: Seq<char>, a: int)
    requires
        0 <= a <= s.len(),
        forall|j: int| 0 <= j < a ==> is_ws_char(s[j]),
        a == s.len() || !is_ws_char(s[a]),
    ensures
        drop_leading_ws(s) == s.skip(a),
    decreases s.len(),
{
    if a == 0 {
        assert(s.skip(0) =~= s);
    } else {
        let t = s.drop_first();
        assert(forall|j: int| 0 <= j < a - 1 ==> t[j] == s[j + 1]);
        lemma_drop_leading_at(t, a - 1);
        assert(t.skip(a - 1) =~= s.skip(a));
    }
}

/// A whitespace suffix that begins after a non-whitespace character (or at
/// the start) is exactly what the trailing trim removes.
proof fn lemma_drop_trailing_at(s: Seq<char>, b: int)
    requires
        0 <= b <= s.len(),
        forall|j: int| b <= j < s.len() ==> is_ws_char(s[j]),
        b == 0 || !is_ws_char(s[b - 1]),
    ensures
        drop_trailing_ws(s) == s.subrange(0, b),
    decreases s.len(),
{
    if b == s.len() {
        assert(s.subrange(0, b) =~= s);
    } else {
        let t = s.drop_last();
        assert(forall|j: int| 0 <= j < s.len() - 1 ==> t[j] == s[j]);
        lemma_drop_trailing_at(t, b);
        assert(t.subrange(0, b) =~= s.subrange(0, b));
    }
}

/// The text with surrounding whitespace removed.
#[verifier::loop_isolation(false)]
pub fn trim_ascii(s: &str) -> (r: String)
    ensures
        r@ == trimmed(s@),
{
    let n = s.unicode_len();
    let mut a: usize = 0;
    while a < n
        invariant
            n as nat == s@.len(),
            a <= n,
            forall|j: int| 0 <= j < a ==> is_ws_char(s@[j]),
        decreases n - a,
    {
        let c = s.get_char(a);
        if !(c == ' ' || c == '\t' || c == '\n' || c == '\r') {
            break ;
        }
        a = a + 1;
    }
    if a == n {
        proof {
            lemma_drop_leading_at(s@, a as int);
            assert(s@.skip(n as int) =~= Seq::<char>::empty());
        }
        let r = String::new();
        return r;
    }
    let mut b: usize = n;
    while b > a
        invariant
            n as nat == s@.len(),
            a <= b <= n,
            forall|j: int| b <= j < n ==> is_ws_char(s@[j]),
        decreases b,
    {
        let c = s.get_char(b - 1);
        if !(c == ' ' || c == '\t' || c == '\n' || c == '\r') {
            break ;
        }
        b = b - 1;
    }
    proof {
        assert(!is_ws_char(s@[a as int]));
        assert(b > a);
        assert(!is_ws_char(s@[b - 1]));
    }
    let mut out = String::new();
    let mut i: usize = a;
    while i < b
        invariant
            n as nat == s@.len(),
            a <= i <= b <= n,
            out@ == s@.subrange(a as int, i as int),
        decreases b - i,
    {
        push_char(&mut out, s.get_char(i));
        proof {
            assert(out@ =~= s@.subrange(a as int, i + 1 as int));
        }
        i = i + 1;
    }
    proof {
        lemma_drop_leading_at(s@, a as int);
        let skipped = s@.skip(a as int);
        assert(forall|j: int| 0 <= j < skipped.len() ==> skipped[j] == s@[a + j]);
        lemma_drop_trailing_at(skipped, b - a);
        assert(skipped.subrange(0, b - a) =~= s@.subrange(a as int, b as int));
        assert(out@ == trimmed(s@));
    }
    out
}

/// The wrapper entry script of an engine, relative to the scripts root.
pub fn wrapper_segments(engine: Engine) -> (r: Vec<String>)
    ensures
        engine is R ==> crate::json::strs_model(r@) =~= seq!["r-scripts"@, "wrapper.R"@],
        engine is Python ==> crate::json::strs_model(r@) =~= seq![
            "python-scripts"@,
            "wrapper.py"@,
        ],
{
    let mut v: Vec<String> = Vec::new();
    match engine {
        Engine::R => {
            v.push(String::from_str("r-scripts"));
            v.push(String::from_str("wrapper.R"));
        },
        Engine::Python => {
            v.push(String::from_str("python-scripts"));
            v.push(String::from_str("wrapper.py"));
        },
    }
    v
}

/// The analysis script's file name under an engine's scripts directory.
pub open spec fn script_file_text(name: Seq<char>, engine: Engine) -> Seq<char> {
    name + (if engine is R {
        ".R"@
    } else {
        ".py"@
    })
}

/// Builds the analysis script's file name.
pub fn script_file_name(name: &str, engine: Engine) -> (r: String)
    ensures
        r@ == script_file_text(name@, engine),
{
    let mut out = String::from_str(name);
    match engine {
        Engine::R => out.append(".R"),
        Engine::Python => out.append(".py"),
    }
    proof {
        assert(out@ =~= script_file_text(name@, engine));
    }
    out
}

/// The placeholder shown when the script file cannot be read.
pub fn unable_to_read_message(name: &str, engine: Engine) -> (r: String)
    ensures
        r@ == "# Unable to read "@ + script_file_text(name@, engine),
{
    let mut out = String::from_str("# Unable to read ");
    let file = script_file_name(name, engine);
    out.append(file.as_str());
    proof {
        assert(out@ =~= "# Unable to read "@ + script_file_text(name@, engine));
    }
    out
}

/// The message reported when an engine's wrapper script is not at its
/// place.
pub fn wrapper_missing_message(engine: Engine, path: &str) -> (r: String)
    ensures
        engine is R ==> r@ == "R wrapper not found at: "@ + path@,
        engine is Python ==> r@ == "Python wrapper not found at: "@ + path@,
{
    let mut out = match engine {
        Engine::R => String::from_str("R wrapper not found at: "),
        Engine::Python => String::from_str("Python wrapper not found at: "),
    };
    out.append(path);
    out
}

/// The message reported when an engine's interpreter cannot be found.
pub fn interpreter_missing_message(engine: Engine) -> (r: String)
    ensures
        engine is R ==> r@ == "Rscript not found. Please install R first."@,
        engine is Python ==> r@ == "Python not found. Please install Python first."@,
{
    match engine {
        Engine::R => String::from_str("Rscript not found. Please install R first."),
        Engine::Python => String::from_str("Python not found. Please install Python first."),
    }
}

/// The environment variable carrying the scripts directory to the "r"
/// wrapper, which resolves script names relative to it.
pub fn script_dir_env_var() -> (r: &'static str)
    ensures
        r@ == "METHOD_STUDIO_SCRIPT_DIR"@,
{
    "METHOD_STUDIO_SCRIPT_DIR"
}

/// Assembles the engine status from the two version probes: each engine is
/// available when its probe ran and succeeded, and then reports the first
/// line of what R printed to its diagnostic stream, and Python's trimmed
/// output.
pub fn build_engine_status(r_probe: Option<(bool, String)>, py_probe: Option<(bool, String)>) -> (r:
    EngineStatus)
    ensures
        r.r_available == (match r_probe {
            Some(p) => p.0,
            None => false,
        }),
        r.python_available == (match py_probe {
            Some(p) => p.0,
            None => false,
        }),
        r.r_available <==> r.r_version is Some,
        r.python_available <==> r.python_version is Some,
        r_probe matches Some(p) ==> (p.0 ==> (match r.r_version {
            Some(v) => v@ == first_line_of(p.1@),
            None => false,
        })),
        py_probe matches Some(p) ==> (p.0 ==> (match r.python_version {
            Some(v) => v@ == trimmed(p.1@),
            None => false,
        })),
{
    let (r_available, r_version) = match r_probe {
        Some((ok, text)) => {
            if ok {
                (true, Some(first_line(text.as_str())))
            } else {
                (false, None)
            }
        },
        None => (false, None),
    };
    let (python_available, python_version) = match py_probe {
        Some((ok, text)) => {
            if ok {
                (true, Some(trim_ascii(text.as_str())))
            } else {
                (false, None)
            }
        },
        None => (false, None),
    };
    EngineStatus { r_available, python_available, r_version, python_version }
}

} // verus!
