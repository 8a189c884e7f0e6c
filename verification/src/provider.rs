//! Embedding providers' settings: the values read from the environment,
//! their defaults and limits, and the providers' fixed parameters.
//!
//! Computing embeddings (floating point) is the caller's; here is what
//! decides which provider runs and with what settings.

use vstd::prelude::*;
use crate::text::{is_whitespace, lowercase, push_str, str_eq, to_chars, to_lowercase, trim, trim_string, truncate_to_chars, truncated};

verus! {

/// Model used when none is named.
pub const DEFAULT_FASTEMBED_MODEL: &'static str = "minilm";
/// Batch size of the built-in provider when none is given.
pub const DEFAULT_FASTEMBED_BATCH_SIZE: usize = 4;
/// Largest batch size of the built-in provider.
pub const MAX_FASTEMBED_BATCH_SIZE: usize = 1024;
/// Characters of a text embedded by the built-in provider when none is given.
pub const DEFAULT_FASTEMBED_MAX_CHARS: usize = 2000;
/// Batch size of the command provider.
pub const DEFAULT_COMMAND_BATCH_SIZE: usize = 64;
/// Dimension of the vectors of the dummy provider used by indexing.
pub const DEFAULT_EMBEDDING_DIM: usize = 384;

/// Embedding models of the built-in provider.
#[derive(Debug, Clone, Copy, PartialEq, Eq, Structural)]
pub enum EmbeddingModel {
    AllMiniLML6V2,
}

impl EmbeddingModel {
    /// The model's name.
    pub fn to_string(&self) -> (s: String)
        ensures
            s@ == "all-MiniLM-L6-v2"@,
    {
        String::from_str("all-MiniLM-L6-v2")
    }
}

/// Settings of the built-in provider.
#[derive(Debug, Clone, Copy, PartialEq, Eq, Structural)]
pub struct EmbeddingProviderConfig {
    pub model: EmbeddingModel,
    pub batch_size: usize,
    pub max_chars: usize,
    /// Whether vectors are scaled to unit length.
    pub normalize: bool,
}

impl Default for EmbeddingProviderConfig {
    fn default() -> (c: EmbeddingProviderConfig)
        ensures
            c == (EmbeddingProviderConfig { model: EmbeddingModel::AllMiniLML6V2, batch_size: 4, max_chars: 2000, normalize: true }),
    {
        EmbeddingProviderConfig {
            model: EmbeddingModel::AllMiniLML6V2,
            batch_size: DEFAULT_FASTEMBED_BATCH_SIZE,
            max_chars: DEFAULT_FASTEMBED_MAX_CHARS,
            normalize: true,
        }
    }
}

/// An environment variable as read.
#[derive(Debug)]
pub enum EnvValue<'a> {
    /// Not set.
    Unset,
    /// Set, but not valid Unicode.
    Unreadable,
    /// Set to this text.
    Text(&'a str),
}

/// Why provider settings were refused.
#[derive(Debug, Clone, PartialEq, Eq)]
pub enum ProviderError {
    /// The model named (in lower case) is not supported.
    UnsupportedModel(String),
    /// The variable holds a value of the wrong form.
    InvalidValue { name: String, value: String },
    /// The variable is not valid Unicode.
    Unreadable { name: String },
}

impl ProviderError {
    /// The error's message.
    pub fn message(&self) -> (m: String)
        ensures
            m@ == match self {
                ProviderError::UnsupportedModel(other) => "Unsupported FASTEMBED_MODEL '"@ + other@ + "'. Supported value: minilm"@,
                ProviderError::InvalidValue { name, value } => "Invalid "@ + name@ + " value: "@ + value@,
                ProviderError::Unreadable { name } => "Failed to read "@ + name@,
            },
    {
        let mut m = String::new();
        match self {
            ProviderError::UnsupportedModel(other) => {
                push_str(&mut m, "Unsupported FASTEMBED_MODEL '");
                push_str(&mut m, other.as_str());
                push_str(&mut m, "'. Supported value: minilm");
            },
            ProviderError::InvalidValue { name, value } => {
                push_str(&mut m, "Invalid ");
                push_str(&mut m, name.as_str());
                push_str(&mut m, " value: ");
                push_str(&mut m, value.as_str());
            },
            ProviderError::Unreadable { name } => {
                push_str(&mut m, "Failed to read ");
                push_str(&mut m, name.as_str());
            },
        }
        m
    }
}

/// Whether a (lower-case) model name stands for the supported model.
pub open spec fn is_minilm_name(v: Seq<char>) -> bool {
    v == "minilm"@ || v == "all-minilm-l6-v2"@ || v == "allminilm-l6-v2"@ || v == "sentence-transformers/all-minilm-l6-v2"@
}

/// The model a `FASTEMBED_MODEL` text names: the default when blank, the
/// supported model by any of its names (in any case), else the rejected
/// name in lower case.
pub open spec fn model_named(raw: Seq<char>) -> Result<EmbeddingModel, Seq<char>> {
    let v = trim(raw);
    if v.len() == 0 {
        Ok(EmbeddingModel::AllMiniLML6V2)
    } else if is_minilm_name(lowercase(v)) {
        Ok(EmbeddingModel::AllMiniLML6V2)
    } else {
        Err(lowercase(v))
    }
}

/// Reads the model setting (`FASTEMBED_MODEL`; `minilm` when unset).
pub fn parse_model_value(raw: EnvValue) -> (r: Result<EmbeddingModel, ProviderError>)
    ensures
        match raw {
            EnvValue::Text(t) => match model_named(t@) {
                Ok(m) => r == Ok::<EmbeddingModel, ProviderError>(m),
                Err(v) => r matches Err(ProviderError::UnsupportedModel(s)) && s@ == v,
            },
            _ => r == Ok::<EmbeddingModel, ProviderError>(EmbeddingModel::AllMiniLML6V2),
        },
{
    let text = match raw {
        EnvValue::Text(t) => t,
        _ => return Ok(EmbeddingModel::AllMiniLML6V2),
    };
    let value = trim_string(text);
    if value.as_str().is_empty() {
        return Ok(EmbeddingModel::AllMiniLML6V2);
    }
    let l = to_lowercase(value.as_str());
    let s = l.as_str();
    if str_eq(s, "minilm") || str_eq(s, "all-minilm-l6-v2") || str_eq(s, "allminilm-l6-v2")
        || str_eq(s, "sentence-transformers/all-minilm-l6-v2") {
        Ok(EmbeddingModel::AllMiniLML6V2)
    } else {
        Err(ProviderError::UnsupportedModel(l))
    }
}

/// Value of a decimal digit character.
pub open spec fn digit_value(c: char) -> int {
    (c as int) - ('0' as int)
}

/// Whether `c` is a decimal digit.
pub open spec fn is_digit(c: char) -> bool {
    '0' <= c && c <= '9'
}

/// The number written by a string of digits.
pub open spec fn digits_value(d: Seq<char>) -> int
    decreases d.len(),
{
    if d.len() == 0 {
        0
    } else {
        digits_value(d.drop_last()) * 10 + digit_value(d.last())
    }
}

/// A text without its leading `+`, if any.
pub open spec fn unsigned_digits(s: Seq<char>) -> Seq<char> {
    if s.len() > 0 && s[0] == '+' { s.skip(1) } else { s }
}

/// Whether every character is a decimal digit.
pub open spec fn all_digits(d: Seq<char>) -> bool {
    forall|i: int| 0 <= i < d.len() ==> is_digit(#[trigger] d[i])
}

/// The unsigned number a text writes, as `usize::from_str` reads it: an
/// optional `+`, then one or more digits, with a value that fits.
pub open spec fn parsed_usize(s: Seq<char>) -> Option<usize> {
    let d = unsigned_digits(s);
    if d.len() > 0 && all_digits(d) && digits_value(d) <= usize::MAX {
        Some(digits_value(d) as usize)
    } else {
        None
    }
}

proof fn lemma_digits_monotone(d: Seq<char>, k: int)
    requires
        0 <= k <= d.len(),
        forall|i: int| 0 <= i < d.len() ==> is_digit(#[trigger] d[i]),
    ensures
        digits_value(d.take(k)) <= digits_value(d),
        digits_value(d.take(k)) >= 0,
    decreases d.len() - k,
{
    if k < d.len() {
        lemma_digits_monotone(d, k + 1);
        assert(d.take(k + 1).drop_last() =~= d.take(k));
        assert(is_digit(d[k]));
        lemma_digits_nonneg(d.take(k));
    } else {
        assert(d.take(k) =~= d);
        lemma_digits_nonneg(d);
    }
}

proof fn lemma_digits_nonneg(d: Seq<char>)
    requires
        forall|i: int| 0 <= i < d.len() ==> is_digit(#[trigger] d[i]),
    ensures
        digits_value(d) >= 0,
    decreases d.len(),
{
    if d.len() > 0 {
        lemma_digits_nonneg(d.drop_last());
        assert(is_digit(d[d.len() - 1]));
    }
}

/// Reads an unsigned decimal number.
pub fn parse_usize_text(s: &str) -> (r: Option<usize>)
    ensures
        r == parsed_usize(s@),
{
    let cv = to_chars(s);
    let start: usize = if cv.len() > 0 && cv[0] == '+' { 1 } else { 0 };
    let ghost d = unsigned_digits(s@);
    assert(d =~= cv@.skip(start as int));
    if start >= cv.len() {
        return None;
    }
    let mut value: usize = 0;
    let mut i: usize = start;
    while i < cv.len()
        invariant
            start <= i <= cv@.len(),
            d =~= cv@.skip(start as int),
            d == unsigned_digits(s@),
            forall|k: int| 0 <= k < i - start ==> is_digit(#[trigger] d[k]),
            value == digits_value(d.take(i - start)),
        decreases cv@.len() - i,
    {
        let c = cv[i];
        if !('0' <= c && c <= '9') {
            proof {
                assert(d[i - start] == c);
                assert(!is_digit(d[i - start]));
                assert(!all_digits(d));
            }
            return None;
        }
        let dv = (c as u32 - '0' as u32) as usize;
        assert(d.take(i - start + 1).drop_last() =~= d.take(i - start));
        assert(d[i - start] == c);
        proof {
            lemma_digits_nonneg(d.take(i - start));
        }
        if value > (usize::MAX - dv) / 10 {
            proof {
                assert(digits_value(d.take(i - start + 1)) == value * 10 + dv);
                assert(value * 10 + dv > usize::MAX) by (nonlinear_arith)
                    requires
                        value > (usize::MAX - dv) / 10,
                        dv <= 9,
                ;
                if all_digits(d) {
                    lemma_digits_monotone(d, i - start + 1);
                    assert(digits_value(d) > usize::MAX);
                }
            }
            return None;
        }
        assert(value * 10 + dv <= usize::MAX) by (nonlinear_arith)
            requires
                value <= (usize::MAX - dv) / 10,
                dv <= 9,
        ;
        value = value * 10 + dv;
        i += 1;
    }
    assert(d.take(d.len() as int) =~= d);
    Some(value)
}

/// Reads a size setting: the default when unset or blank, else the number
/// written, else an error naming the variable and the (trimmed) value.
pub open spec fn usize_setting(raw_text: Option<Seq<char>>, default: usize) -> Option<usize> {
    match raw_text {
        None => Some(default),
        Some(t) => if trim(t).len() == 0 {
            Some(default)
        } else {
            parsed_usize(trim(t))
        },
    }
}

/// Reads a size setting from the environment value `raw` of variable `name`.
pub fn parse_usize_value(name: &str, raw: EnvValue, default: usize) -> (r: Result<usize, ProviderError>)
    ensures
        match raw {
            EnvValue::Unset => r == Ok::<usize, ProviderError>(default),
            EnvValue::Unreadable => r matches Err(ProviderError::Unreadable { name: n }) && n@ == name@,
            EnvValue::Text(t) => match usize_setting(Some(t@), default) {
                Some(v) => r == Ok::<usize, ProviderError>(v),
                None => r matches Err(ProviderError::InvalidValue { name: n, value: v }) && n@ == name@ && v@ == trim(t@),
            },
        },
{
    let text = match raw {
        EnvValue::Unset => return Ok(default),
        EnvValue::Unreadable => return Err(ProviderError::Unreadable { name: String::from_str(name) }),
        EnvValue::Text(t) => t,
    };
    let value = trim_string(text);
    if value.as_str().is_empty() {
        return Ok(default);
    }
    match parse_usize_text(value.as_str()) {
        Some(v) => Ok(v),
        None => Err(ProviderError::InvalidValue { name: String::from_str(name), value }),
    }
}

/// A switch setting: the default when blank; `1`, `true`, `yes`, `on` turn
/// it on and `0`, `false`, `no`, `off` off (in any case).
pub open spec fn bool_setting(t: Seq<char>, default: bool) -> Option<bool> {
    let v = lowercase(trim(t));
    if v.len() == 0 {
        Some(default)
    } else if v == "1"@ || v == "true"@ || v == "yes"@ || v == "on"@ {
        Some(true)
    } else if v == "0"@ || v == "false"@ || v == "no"@ || v == "off"@ {
        Some(false)
    } else {
        None
    }
}

/// Reads a switch setting from the environment value `raw` of variable `name`.
pub fn parse_bool_value(name: &str, raw: EnvValue, default: bool) -> (r: Result<bool, ProviderError>)
    ensures
        match raw {
            EnvValue::Unset => r == Ok::<bool, ProviderError>(default),
            EnvValue::Unreadable => r matches Err(ProviderError::Unreadable { name: n }) && n@ == name@,
            EnvValue::Text(t) => match bool_setting(t@, default) {
                Some(b) => r == Ok::<bool, ProviderError>(b),
                None => r matches Err(ProviderError::InvalidValue { name: n, value: v }) && n@ == name@
                    && v@ == lowercase(trim(t@)),
            },
        },
{
    let text = match raw {
        EnvValue::Unset => return Ok(default),
        EnvValue::Unreadable => return Err(ProviderError::Unreadable { name: String::from_str(name) }),
        EnvValue::Text(t) => t,
    };
    let trimmed = trim_string(text);
    let value = to_lowercase(trimmed.as_str());
    let v = value.as_str();
    if v.is_empty() {
        return Ok(default);
    }
    if str_eq(v, "1") || str_eq(v, "true") || str_eq(v, "yes") || str_eq(v, "on") {
        Ok(true)
    } else if str_eq(v, "0") || str_eq(v, "false") || str_eq(v, "no") || str_eq(v, "off") {
        Ok(false)
    } else {
        Err(ProviderError::InvalidValue { name: String::from_str(name), value })
    }
}

/// Batch size brought into range: zero becomes the default, and sizes above
/// the maximum are clamped to it.
pub open spec fn normalized_batch_size(b: usize) -> usize {
    if b == 0 {
        4
    } else if b > 1024 {
        1024
    } else {
        b
    }
}

/// Brings a batch size into range.
pub fn normalize_batch_size(batch_size: usize) -> (r: usize)
    ensures
        r == normalized_batch_size(batch_size),
{
    let mut b = batch_size;
    if b == 0 {
        b = DEFAULT_FASTEMBED_BATCH_SIZE;
    }
    if b > MAX_FASTEMBED_BATCH_SIZE {
        b = MAX_FASTEMBED_BATCH_SIZE;
    }
    b
}

/// A character limit of zero means the default.
pub fn normalize_max_chars(max_chars: usize) -> (r: usize)
    ensures
        r == if max_chars == 0 { 2000 } else { max_chars },
{
    if max_chars == 0 {
        DEFAULT_FASTEMBED_MAX_CHARS
    } else {
        max_chars
    }
}

/// The environment values the built-in provider reads.
pub struct ProviderEnv<'a> {
    /// `FASTEMBED_MODEL`
    pub model: EnvValue<'a>,
    /// `FASTEMBED_BATCH_SIZE`
    pub batch_size: EnvValue<'a>,
    /// `FASTEMBED_MAX_CHARS`
    pub max_chars: EnvValue<'a>,
    /// `FASTEMBED_NORMALIZE`
    pub normalize: EnvValue<'a>,
}

/// A size setting as read from the environment (none when refused).
pub open spec fn env_usize(v: EnvValue, default: usize) -> Option<usize> {
    match v {
        EnvValue::Unset => Some(default),
        EnvValue::Unreadable => None,
        EnvValue::Text(t) => usize_setting(Some(t@), default),
    }
}

/// A switch setting as read from the environment (none when refused).
pub open spec fn env_bool(v: EnvValue, default: bool) -> Option<bool> {
    match v {
        EnvValue::Unset => Some(default),
        EnvValue::Unreadable => None,
        EnvValue::Text(t) => bool_setting(t@, default),
    }
}

/// Whether the model setting is accepted (an unset or unreadable one means
/// the default).
pub open spec fn env_model_ok(v: EnvValue) -> bool {
    match v {
        EnvValue::Text(t) => model_named(t@) is Ok,
        _ => true,
    }
}

/// The value of an optional override, or a default.
pub open spec fn override_or(v: Option<usize>, d: usize) -> usize {
    match v {
        Some(x) => x,
        None => d,
    }
}

/// Settings of the built-in provider from the environment, with optional
/// overrides of the batch size and character limit that the environment
/// in turn overrides. Settings are read model first, then batch size,
/// character limit and normalisation; the first bad one is the error.
pub fn provider_config_from_env(
    batch_size_override: Option<usize>,
    max_chars_override: Option<usize>,
    env: ProviderEnv,
) -> (r: Result<EmbeddingProviderConfig, ProviderError>)
    ensures
        r is Ok <==> (env_model_ok(env.model)
            && env_usize(env.batch_size, override_or(batch_size_override, 4)) is Some
            && env_usize(env.max_chars, override_or(max_chars_override, 2000)) is Some
            && env_bool(env.normalize, true) is Some),
        r matches Ok(c) ==> {
            &&& c.model == EmbeddingModel::AllMiniLML6V2
            &&& Some(c.batch_size) == match env_usize(env.batch_size, override_or(batch_size_override, 4)) {
                Some(v) => Some(normalized_batch_size(v)),
                None => None,
            }
            &&& Some(c.max_chars) == match env_usize(env.max_chars, override_or(max_chars_override, 2000)) {
                Some(v) => Some(if v == 0 { 2000 } else { v }),
                None => None,
            }
            &&& Some(c.normalize) == env_bool(env.normalize, true)
        },
{
    let model = parse_model_value(env.model)?;
    let batch_default = match batch_size_override {
        Some(b) => b,
        None => DEFAULT_FASTEMBED_BATCH_SIZE,
    };
    let batch_size = normalize_batch_size(parse_usize_value("FASTEMBED_BATCH_SIZE", env.batch_size, batch_default)?);
    let chars_default = match max_chars_override {
        Some(m) => m,
        None => DEFAULT_FASTEMBED_MAX_CHARS,
    };
    let max_chars = normalize_max_chars(parse_usize_value("FASTEMBED_MAX_CHARS", env.max_chars, chars_default)?);
    let normalize = parse_bool_value("FASTEMBED_NORMALIZE", env.normalize, true)?;
    Ok(EmbeddingProviderConfig { model, batch_size, max_chars, normalize })
}

/// Each text cut to at most `max_chars` characters.
pub fn truncate_texts(texts: &[String], max_chars: usize) -> (r: Vec<String>)
    ensures
        r@.len() == texts@.len(),
        forall|i: int| 0 <= i < texts@.len() ==> (#[trigger] r@[i])@ == truncated(texts@[i]@, max_chars),
{
    let mut out: Vec<String> = Vec::new();
    let mut i: usize = 0;
    while i < texts.len()
        invariant
            i <= texts@.len(),
            out@.len() == i,
            forall|k: int| 0 <= k < i ==> (#[trigger] out@[k])@ == truncated(texts@[k]@, max_chars),
        decreases texts@.len() - i,
    {
        out.push(truncate_to_chars(texts[i].as_str(), max_chars));
        i += 1;
    }
    out
}

/// A provider that runs an external command.
#[derive(Debug, Clone)]
pub struct CommandProvider {
    /// Shell command run for each batch.
    pub command: String,
    /// Model identifier passed to the command.
    pub model: String,
    pub batch_size: usize,
}

impl CommandProvider {
    /// A command provider with the default batch size.
    pub fn new(command: String, model: String) -> (p: CommandProvider)
        ensures
            p.command == command,
            p.model == model,
            p.batch_size == 64,
    {
        CommandProvider { command, model, batch_size: DEFAULT_COMMAND_BATCH_SIZE }
    }

    /// The model identifier.
    pub fn model_id(&self) -> (m: &str)
        ensures
            m@ == self.model@,
    {
        self.model.as_str()
    }
}

/// A provider of zero vectors, for tests and as a fallback.
#[derive(Debug, Clone)]
pub struct DummyProvider {
    pub model: String,
    /// Length of each vector.
    pub dimension: usize,
    pub batch_size: usize,
}

impl DummyProvider {
    /// A dummy provider of vectors of length `dimension`.
    pub fn new(dimension: usize) -> (p: DummyProvider)
        ensures
            p.model@ == "dummy"@,
            p.dimension == dimension,
            p.batch_size == 4,
    {
        DummyProvider { model: String::from_str("dummy"), dimension, batch_size: DEFAULT_FASTEMBED_BATCH_SIZE }
    }

    /// The model identifier.
    pub fn model_id(&self) -> (m: &str)
        ensures
            m@ == self.model@,
    {
        self.model.as_str()
    }
}

} // verus!
