//! Run configuration: the knobs the embedding loads at startup and the
//! pure derivations the pipeline makes from them.
//!
//! Loading the configuration file and consulting the process
//! environment are the embedding's work; everything computed from the
//! loaded values — the effective ignore patterns, the project-marker
//! file names, the summary file name — is specified and verified here.

use vstd::prelude::*;

use crate::text::{chars_of, lit_at, push_char, spec_lit_at, string_of_chars};

verus! {

/// Options for the hosted text-generation backend.
#[derive(Debug)]
pub struct GeminiConfig {}

/// Options for the API-compatible text-generation backend.
#[derive(Debug)]
pub struct OpenAIConfig {}

/// The run configuration; every field is optional and absent fields
/// fall back to built-in defaults.
#[derive(Debug)]
pub struct Config {
    pub llm_provider: Option<String>,
    pub ollama_model: Option<String>,
    pub gemini_model: Option<String>,
    pub openai_model: Option<String>,
    pub custom_openai_url: Option<String>,
    pub custom_prompt: Option<String>,
    pub custom_gemini_config: Option<GeminiConfig>,
    pub custom_openai_config: Option<OpenAIConfig>,
    pub summary_output_path: Option<String>,
    pub summary_filename_format: Option<String>,
    pub custom_ignore_paths: Option<Vec<String>>,
    pub code_identifiers: Option<Vec<String>>,
}

/// `s` with every non-overlapping occurrence of `pat` (left to right)
/// replaced by `sub`, scanning from position `i`.
pub open spec fn spec_replace_from(s: Seq<char>, pat: Seq<char>, sub: Seq<char>, i: int) -> Seq<
    char,
>
    decreases s.len() - i,
{
    if i < 0 || i >= s.len() {
        Seq::empty()
    } else if pat.len() >= 1 && spec_lit_at(s, i, pat) {
        sub + spec_replace_from(s, pat, sub, i + pat.len())
    } else {
        seq![s[i]] + spec_replace_from(s, pat, sub, i + 1)
    }
}

/// `s` with every occurrence of `pat` replaced by `sub`.
pub open spec fn spec_replace(s: Seq<char>, pat: Seq<char>, sub: Seq<char>) -> Seq<char> {
    spec_replace_from(s, pat, sub, 0)
}

/// Executable twin of `spec_replace` for a non-empty pattern.
#[verifier::loop_isolation(false)]
fn replace_all(s: &str, pat: &str, sub: &str) -> (r: String)
    requires
        pat@.len() >= 1,
    ensures
        r@ == spec_replace(s@, pat@, sub@),
{
    let v = chars_of(s);
    let n = v.len();
    let m = pat.unicode_len();
    let mut r = String::new();
    let mut i: usize = 0;
    while i < n
        invariant
            i <= n,
            spec_replace(v@, pat@, sub@) == r@ + spec_replace_from(v@, pat@, sub@, i as int),
        decreases n - i,
    {
        if lit_at(&v, i, pat) {
            r.append(sub);
            i = i + m;
        } else {
            push_char(&mut r, v[i]);
            i = i + 1;
        }
    }
    proof {
        assert(spec_replace(v@, pat@, sub@) =~= r@);
    }
    r
}

/// The built-in ignore patterns every run excludes.
pub open spec fn spec_default_ignore_patterns() -> Seq<Seq<char>> {
    seq![
        "node_modules"@,
        "target"@,
        "dist"@,
        "build"@,
        ".git"@,
        ".*ignore"@,
        "*.log"@,
        "*.tmp"@,
        "*.temp"@,
        "*.swp"@,
        "*.bak"@,
    ]
}

/// The built-in project-marker file names.
pub open spec fn spec_default_code_identifiers() -> Seq<Seq<char>> {
    seq!["Cargo.toml"@, "package.json"@, "setup.py"@, "requirements.txt"@]
}

/// An exact copy of a string list.
fn copy_strings(v: &Vec<String>) -> (r: Vec<String>)
    ensures
        r@ == v@,
{
    let n = v.len();
    let mut r: Vec<String> = Vec::new();
    let mut k: usize = 0;
    while k < n
        invariant
            k <= n == v@.len(),
            r@ =~= v@.subrange(0, k as int),
        decreases n - k,
    {
        r.push(v[k].clone());
        k = k + 1;
        proof {
            assert(r@ =~= v@.subrange(0, k as int));
        }
    }
    proof {
        assert(v@.subrange(0, n as int) =~= v@);
    }
    r
}

impl Config {
    fn default_ignore_patterns() -> (r: Vec<String>)
        ensures
            r@.map_values(|x: String| x@) =~= spec_default_ignore_patterns(),
    {
        let mut r: Vec<String> = Vec::new();
        r.push("node_modules".to_owned());
        r.push("target".to_owned());
        r.push("dist".to_owned());
        r.push("build".to_owned());
        r.push(".git".to_owned());
        r.push(".*ignore".to_owned());
        r.push("*.log".to_owned());
        r.push("*.tmp".to_owned());
        r.push("*.temp".to_owned());
        r.push("*.swp".to_owned());
        r.push("*.bak".to_owned());
        r
    }

    /// The effective ignore patterns: the configured ones, if any,
    /// followed by the built-in defaults.
    pub fn get_custom_ignore_paths(&self) -> (r: Vec<String>)
        ensures
            r@.map_values(|x: String| x@) == (match self.custom_ignore_paths {
                Some(v) => v@.map_values(|x: String| x@),
                None => Seq::<Seq<char>>::empty(),
            }) + spec_default_ignore_patterns(),
    {
        let mut ignore_paths: Vec<String> = match &self.custom_ignore_paths {
            Some(v) => copy_strings(v),
            None => Vec::new(),
        };
        let mut defaults = Config::default_ignore_patterns();
        let ghost head = ignore_paths@.map_values(|x: String| x@);
        ignore_paths.append(&mut defaults);
        proof {
            assert(ignore_paths@.map_values(|x: String| x@) =~= head
                + spec_default_ignore_patterns());
            if self.custom_ignore_paths is None {
                assert(head =~= Seq::<Seq<char>>::empty());
            }
        }
        ignore_paths
    }

    /// The project-marker file names that identify a code directory:
    /// the configured list, or the built-in defaults.
    pub fn get_code_identifiers(&self) -> (r: Vec<String>)
        ensures
            r@.map_values(|x: String| x@) == (match self.code_identifiers {
                Some(v) => v@.map_values(|x: String| x@),
                None => spec_default_code_identifiers(),
            }),
    {
        match &self.code_identifiers {
            Some(v) => copy_strings(v),
            None => {
                let mut r: Vec<String> = Vec::new();
                r.push("Cargo.toml".to_owned());
                r.push("package.json".to_owned());
                r.push("setup.py".to_owned());
                r.push("requirements.txt".to_owned());
                proof {
                    assert(r@.map_values(|x: String| x@) =~= spec_default_code_identifiers());
                }
                r
            },
        }
    }

    /// The summary file's name: the configured format with its
    /// `{folder}` and `{date}` markers substituted, or the default
    /// `summary-<folder>-<date>.md` spelling.  The rendered date comes
    /// in as a plain value.
    pub fn get_summary_filename(&self, folder_name: &str, date_str: &str) -> (r: String)
        ensures
            r@ == match self.summary_filename_format {
                Some(f) => spec_replace(
                    spec_replace(f@, "{folder}"@, folder_name@),
                    "{date}"@,
                    date_str@,
                ),
                None => "summary-"@ + folder_name@ + "-"@ + date_str@ + ".md"@,
            },
    {
        proof {
            reveal_strlit("{folder}");
            reveal_strlit("{date}");
        }
        match &self.summary_filename_format {
            Some(f) => {
                let step = replace_all(f.as_str(), "{folder}", folder_name);
                replace_all(step.as_str(), "{date}", date_str)
            },
            None => {
                let mut r = String::new();
                r.append("summary-");
                r.append(folder_name);
                r.append("-");
                r.append(date_str);
                r.append(".md");
                r
            },
        }
    }
}

} // verus!
