//! The resolved configuration a front end hands to the conversion pipeline,
//! and the validation applied to it before any work starts.

use vstd::prelude::*;
use crate::patterns::{spec_valid_pattern, forbidden_pattern_char};
use crate::text::chars_of;

verus! {

/// Whether each selected file becomes its own archive and document, or the
/// whole tree is compressed into one archive.
#[derive(Clone, Copy, PartialEq, Eq, Structural, Debug)]
pub enum Mode {
    Individual,
    Compressed,
}

/// How the encryption secret is obtained.
#[derive(Clone, Copy, PartialEq, Eq, Structural, Debug)]
pub enum PasswordMode {
    /// A fresh 16-character alphanumeric secret.
    Random,
    /// A secret supplied and confirmed by the caller.
    Manual,
    /// The current local time as fourteen digits.
    Timestamp,
    /// No secret: archive layers are written unencrypted.
    Disabled,
}

/// How many archive wrappers enclose the payload.
#[derive(Clone, Copy, PartialEq, Eq, Structural, Debug)]
pub enum Layer {
    /// The payload bytes pass through unchanged; not an archive at all.
    Passthrough,
    /// One archive layer wraps the payload.
    Single,
    /// An inner archive holds the payload and an outer archive holds the
    /// inner one.
    Double,
}

/// The AES key length used when a layer is encrypted.
#[derive(Clone, Copy, PartialEq, Eq, Structural, Debug)]
pub enum AesLevel {
    Aes128,
    Aes192,
    Aes256,
}

/// How archive members are stored.
#[derive(Clone, Copy, PartialEq, Eq, Structural, Debug)]
pub enum CompressionKind {
    Stored,
    Deflated,
}

/// What configuration validation can reject.
#[derive(Clone, Debug)]
pub enum ConfigError {
    /// The input root does not exist; holds the offending path.
    InputNotFound(String),
    /// A malformed includes pattern; holds the pattern.
    InvalidIncludePattern(String),
    /// A malformed excludes pattern; holds the pattern.
    InvalidExcludePattern(String),
    /// The passthrough layer plan was chosen for whole-tree compression.
    LayerNotAllowed,
}

/// The fully resolved configuration bundle; whichever front end is active
/// populates the same fields.
#[derive(Clone, Debug)]
pub struct AppConfig {
    pub input: String,
    pub output: String,
    pub is_compressed: bool,
    pub compress: bool,
    pub includes: Vec<String>,
    pub excludes: Option<Vec<String>>,
    pub password_mode: PasswordMode,
    pub display_password: bool,
    pub layer: Layer,
    pub encryption_method: AesLevel,
    pub no_progress: bool,
    /// Size cap in bytes; a larger file is skipped, not an error.
    pub max_size: Option<u64>,
}

/// Decides whether a selection pattern is well-formed.
pub fn is_valid_pattern(pattern: &str) -> (r: bool)
    ensures
        r == spec_valid_pattern(pattern@),
{
    let cs = chars_of(pattern);
    if cs.len() == 0 {
        return false;
    }
    let mut i: usize = 0;
    while i < cs.len()
        invariant
            i <= cs.len(),
            cs@ == pattern@,
            forall|k: int| 0 <= k < i ==> !forbidden_pattern_char(pattern@[k]),
        decreases cs.len() - i,
    {
        let c = cs[i];
        let bad = c == '/' || c == '\\' || c == ':' || c == '?' || c == '"' || c == '<' || c == '>'
            || c == '|';
        if bad {
            return false;
        }
        i = i + 1;
    }
    true
}

/// The index of the first malformed pattern in a list, or the list's length
/// when every pattern is well-formed.
pub open spec fn first_bad_pattern(ps: Seq<String>) -> int
    decreases ps.len(),
{
    if ps.len() == 0 {
        0
    } else if !spec_valid_pattern(ps[0]@) {
        0
    } else {
        1 + first_bad_pattern(ps.skip(1))
    }
}

proof fn lemma_first_bad_pattern(ps: Seq<String>, i: int)
    requires
        0 <= i <= ps.len(),
        forall|k: int| 0 <= k < i ==> spec_valid_pattern(ps[k]@),
    ensures
        i == ps.len() ==> first_bad_pattern(ps) == ps.len(),
        i < ps.len() && !spec_valid_pattern(ps[i]@) ==> first_bad_pattern(ps) == i,
    decreases i,
{
    if i == 0 {
        if ps.len() > 0 && spec_valid_pattern(ps[0]@) {
        }
    } else {
        assert(spec_valid_pattern(ps[0]@));
        assert(forall|k: int| 0 <= k < i - 1 ==> ps.skip(1)[k] == ps[k + 1]);
        lemma_first_bad_pattern(ps.skip(1), i - 1);
        assert(ps.skip(1).len() == ps.len() - 1);
        if i < ps.len() && !spec_valid_pattern(ps[i]@) {
            assert(ps.skip(1)[i - 1] == ps[i]);
        }
    }
}

/// Every pattern of the list is well-formed.
pub open spec fn all_patterns_valid(ps: Seq<String>) -> bool {
    forall|i: int| 0 <= i < ps.len() ==> spec_valid_pattern(ps[i]@)
}

fn find_bad_pattern(ps: &Vec<String>) -> (r: Option<usize>)
    ensures
        r is Some ==> r.unwrap() == first_bad_pattern(ps@) && r.unwrap() < ps@.len()
            && !spec_valid_pattern(ps@[r.unwrap() as int]@),
        r is None ==> all_patterns_valid(ps@) && first_bad_pattern(ps@) == ps@.len(),
{
    let mut i: usize = 0;
    while i < ps.len()
        invariant
            i <= ps@.len(),
            forall|k: int| 0 <= k < i ==> spec_valid_pattern(ps@[k]@),
        decreases ps.len() - i,
    {
        if !is_valid_pattern(ps[i].as_str()) {
            proof {
                lemma_first_bad_pattern(ps@, i as int);
            }
            return Some(i);
        }
        i = i + 1;
    }
    proof {
        lemma_first_bad_pattern(ps@, ps@.len() as int);
    }
    None
}

/// Checks every includes pattern and every excludes pattern, rejecting the first malformed
/// one; includes patterns are checked before excludes patterns.
pub fn validate_file_patterns(includes: &Vec<String>, excludes: &Option<Vec<String>>) -> (r: Result<
    (),
    ConfigError,
>)
    ensures
        r is Ok <==> (all_patterns_valid(includes@) && (excludes matches Some(e)
            ==> all_patterns_valid(e@))),
        !all_patterns_valid(includes@) ==> (r matches Err(ConfigError::InvalidIncludePattern(p))
            && p@ == includes@[first_bad_pattern(includes@)]@),
        all_patterns_valid(includes@) && (excludes matches Some(e) && !all_patterns_valid(e@)) ==> (
        r matches Err(ConfigError::InvalidExcludePattern(p)) && (excludes matches Some(e) && p@
            == e@[first_bad_pattern(e@)]@)),
{
    match find_bad_pattern(includes) {
        Some(i) => {
            return Err(ConfigError::InvalidIncludePattern(includes[i].clone()));
        },
        None => {},
    }
    match excludes {
        Some(ex) => {
            match find_bad_pattern(ex) {
                Some(i) => Err(ConfigError::InvalidExcludePattern(ex[i].clone())),
                None => Ok(()),
            }
        },
        None => Ok(()),
    }
}

/// Confirms that the input root was found on disk; the caller reports
/// whether it exists, since the library itself never touches the file
/// system.
pub fn validate_input_path(input: &str, input_exists: bool) -> (r: Result<(), ConfigError>)
    ensures
        r is Ok <==> input_exists,
        !input_exists ==> (r matches Err(ConfigError::InputNotFound(p)) && p@ == input@),
{
    if input_exists {
        Ok(())
    } else {
        Err(ConfigError::InputNotFound(input.to_owned()))
    }
}

/// Validates a resolved configuration before any conversion work: the input
/// root must exist, every pattern must be well-formed, and whole-tree
/// compression cannot use the passthrough layer plan.
pub fn validate_cli_args(config: &AppConfig, input_exists: bool) -> (r: Result<(), ConfigError>)
    ensures
        r is Ok <==> (input_exists && all_patterns_valid(config.includes@) && (config.excludes
            matches Some(e) ==> all_patterns_valid(e@)) && !(config.is_compressed && config.layer
            == Layer::Passthrough)),
        !input_exists ==> (r matches Err(ConfigError::InputNotFound(p)) && p@ == config.input@),
        input_exists && !all_patterns_valid(config.includes@) ==> (r matches Err(
            ConfigError::InvalidIncludePattern(p),
        ) && p@ == config.includes@[first_bad_pattern(config.includes@)]@),
        input_exists && all_patterns_valid(config.includes@) && (config.excludes matches Some(e)
            && !all_patterns_valid(e@)) ==> (r matches Err(ConfigError::InvalidExcludePattern(p))
            && (config.excludes matches Some(e) && p@ == e@[first_bad_pattern(e@)]@)),
        input_exists && all_patterns_valid(config.includes@) && (config.excludes matches Some(e)
            ==> all_patterns_valid(e@)) && config.is_compressed && config.layer
            == Layer::Passthrough ==> r matches Err(ConfigError::LayerNotAllowed),
{
    validate_input_path(config.input.as_str(), input_exists)?;
    validate_file_patterns(&config.includes, &config.excludes)?;
    if config.is_compressed && config.layer == Layer::Passthrough {
        return Err(ConfigError::LayerNotAllowed);
    }
    Ok(())
}

/// The progress-suppression default when the front end does not ask.
pub fn get_no_progress_option() -> (r: bool)
    ensures
        r == false,
{
    false
}

/// The log level default when the front end does not ask.
pub fn get_log_level_option() -> (r: String)
    ensures
        r@ == "info"@,
{
    String::from_str("info")
}

/// The built-in configuration used when a front end asks for the defaults:
/// whole-tree compression into a single encrypted layer with a random,
/// displayed secret.
pub struct DefaultConfigAdapter {
    pub input: String,
    pub output: String,
}

impl DefaultConfigAdapter {
    /// Remembers the two paths the defaults are applied to.
    pub fn new(input: String, output: String) -> (r: DefaultConfigAdapter)
        ensures
            r.input == input,
            r.output == output,
    {
        DefaultConfigAdapter { input, output }
    }

    /// The default configuration bundle.
    pub fn get_config(&self) -> (r: AppConfig)
        ensures
            r.input == self.input,
            r.output == self.output,
            r.is_compressed == true,
            r.compress == true,
            r.includes@.len() == 1 && r.includes@[0]@ == "*"@,
            r.excludes is None,
            r.password_mode == PasswordMode::Random,
            r.display_password == true,
            r.layer == Layer::Single,
            r.encryption_method == AesLevel::Aes256,
            r.no_progress == false,
            r.max_size is None,
    {
        let mut includes: Vec<String> = Vec::new();
        includes.push(String::from_str("*"));
        AppConfig {
            input: self.input.clone(),
            output: self.output.clone(),
            is_compressed: true,
            compress: true,
            includes,
            excludes: None,
            password_mode: PasswordMode::Random,
            display_password: true,
            layer: Layer::Single,
            encryption_method: AesLevel::Aes256,
            no_progress: false,
            max_size: None,
        }
    }
}

/// Carries the input and output paths while an interactive front end asks
/// the remaining questions.
pub struct InteractiveConfigAdapter {
    pub input: String,
    pub output: String,
}

impl InteractiveConfigAdapter {
    /// Remembers the two paths the prompted answers are joined with.
    pub fn new(input: String, output: String) -> (r: InteractiveConfigAdapter)
        ensures
            r.input == input,
            r.output == output,
    {
        InteractiveConfigAdapter { input, output }
    }
}

} // verus!
