//! Inference request/response events and their redaction.
//!
//! Redaction is applied before an event is emitted, in a fixed order: PII
//! patterns are stripped from the prompt and response, then the configured
//! fields are hashed, then the prompt and response are truncated.

use vstd::prelude::*;
use crate::event::Timestamp;
use crate::text::{
    chars_of, concat3, is_longest_fitting_prefix, longest_fitting_prefix, push_str_chars,
    str_eq, string_from_chars, string_from_prefix, to_owned_string, utf8_len,
};

verus! {

/// Maximum response body size before truncation (1 MB).
pub const MAX_RESPONSE_BYTES: usize = 1048576;

/// Default bounded channel capacity.
pub const INFERENCE_CHANNEL_CAPACITY: usize = 1000;

/// A structured inference event captured by the proxy hook.
#[derive(Debug, Clone, PartialEq, Eq)]
pub struct InferenceEvent {
    /// Unique identifier for request correlation.
    pub request_id: String,
    /// When the inference request was initiated (UTC).
    pub timestamp: Timestamp,
    /// The model provider (e.g., "openai", "anthropic", "local").
    pub model_provider: String,
    /// The specific model used (e.g., "gpt-4", "llama-3-70b").
    pub model: String,
    /// The prompt/request content sent to the model.
    pub prompt: String,
    /// The response content received from the model.
    pub response: String,
    /// Number of prompt tokens (if reported by provider).
    pub prompt_tokens: Option<u64>,
    /// Number of completion tokens (if reported by provider).
    pub completion_tokens: Option<u64>,
    /// Request latency in milliseconds.
    pub latency_ms: u64,
    /// HTTP status code of the upstream response.
    pub status_code: u16,
    /// Whether the request resulted in an error.
    pub error: bool,
    /// Whether the response was truncated.
    pub truncated: bool,
}

/// Configuration for inference event redaction. The default redacts
/// nothing: the operator opts in.
#[derive(Debug, Clone, PartialEq, Eq)]
pub struct RedactionConfig {
    /// Whether to strip PII patterns (emails, phone numbers, SSNs, card
    /// numbers) from prompt and response content.
    pub strip_pii: bool,
    /// Fields to SHA-256 hash (valid: "prompt", "response", "model", "provider").
    pub hash_fields: Vec<String>,
    /// Maximum number of bytes to keep in prompt/response content; longer
    /// content is cut and marked with "[TRUNCATED]".
    pub truncate_tokens: Option<usize>,
}

impl Default for RedactionConfig {
    /// No redaction.
    fn default() -> (r: Self)
        ensures
            !r.strip_pii,
            r.hash_fields@.len() == 0,
            r.truncate_tokens is None,
    {
        RedactionConfig { strip_pii: false, hash_fields: Vec::new(), truncate_tokens: None }
    }
}

/// A field name that can be hashed.
pub open spec fn hashable_field(f: Seq<char>) -> bool {
    f == "prompt"@ || f == "response"@ || f == "model"@ || f == "provider"@
}

/// The warning for a field name that cannot be hashed.
pub open spec fn unknown_field_warning(f: Seq<char>) -> Seq<char> {
    "Redaction field '"@ + f
        + "' is not a valid InferenceEvent field. Valid fields: prompt, response, model, provider."@
}

/// The warnings for the unknown fields of `fields`, in order.
pub open spec fn field_warnings(fields: Seq<String>) -> Seq<Seq<char>>
    decreases fields.len(),
{
    if fields.len() == 0 {
        Seq::empty()
    } else {
        let rest = field_warnings(fields.drop_last());
        if hashable_field(fields.last()@) {
            rest
        } else {
            rest.push(unknown_field_warning(fields.last()@))
        }
    }
}

fn is_hashable_field(f: &str) -> (r: bool)
    ensures
        r == hashable_field(f@),
{
    str_eq(f, "prompt") || str_eq(f, "response") || str_eq(f, "model") || str_eq(f, "provider")
}

impl RedactionConfig {
    /// A config with no redaction (the default).
    pub fn none() -> (r: Self)
        ensures
            !r.strip_pii,
            r.hash_fields@.len() == 0,
            r.truncate_tokens is None,
    {
        RedactionConfig { strip_pii: false, hash_fields: Vec::new(), truncate_tokens: None }
    }

    /// One warning per unknown field name in `hash_fields`, in order.
    pub fn validate(&self) -> (r: Vec<String>)
        ensures
            r@.map_values(|w: String| w@) == field_warnings(self.hash_fields@),
    {
        let mut r: Vec<String> = Vec::new();
        let mut i: usize = 0;
        while i < self.hash_fields.len()
            invariant
                i <= self.hash_fields@.len(),
                r@.map_values(|w: String| w@) == field_warnings(self.hash_fields@.take(i as int)),
            decreases self.hash_fields.len() - i,
        {
            let ghost before = r@;
            let f = self.hash_fields[i].as_str();
            if !is_hashable_field(f) {
                let w = concat3(
                    "Redaction field '",
                    f,
                    "' is not a valid InferenceEvent field. Valid fields: prompt, response, model, provider.",
                );
                r.push(w);
            }
            proof {
                let t = self.hash_fields@.take(i + 1);
                assert(t.drop_last() =~= self.hash_fields@.take(i as int));
                assert(r@.map_values(|w: String| w@) =~= field_warnings(t));
            }
            i = i + 1;
        }
        assert(self.hash_fields@.take(i as int) =~= self.hash_fields@);
        r
    }
}

// ---------------------------------------------------------------------------
// Outside computations: regular expressions and SHA-256
// ---------------------------------------------------------------------------

/// Whether `regex::Regex::new` accepts a pattern.
pub uninterp spec fn regex_compiles(pattern: Seq<char>) -> bool;

/// What `regex::Regex::replace_all` gives for a (compiling) pattern, a text
/// and a replacement.
pub uninterp spec fn regex_replaced(pattern: Seq<char>, text: Seq<char>, replacement: Seq<char>) -> Seq<
    char,
>;

/// The lowercase hex SHA-256 digest of a string's UTF-8 bytes.
pub uninterp spec fn sha256_hex(input: Seq<char>) -> Seq<char>;

/// Calls `regex::Regex::new` and reports whether it succeeded. The result
/// is named `regex_compiles` of the pattern; nothing more is claimed.
#[verifier::external_body]
fn is_valid_regex(pattern: &str) -> (r: bool)
    ensures
        r == regex_compiles(pattern@),
{
    regex::Regex::new(pattern).is_ok()
}

/// Compiles `pattern` with `regex::Regex::new` (which succeeds, by the
/// precondition) and calls `replace_all` on `text`. The result is named
/// `regex_replaced` of the three arguments; nothing more is claimed.
#[verifier::external_body]
fn regex_replace_all(pattern: &str, text: &str, replacement: &str) -> (r: String)
    requires
        regex_compiles(pattern@),
    ensures
        r@ == regex_replaced(pattern@, text@, replacement@),
{
    match regex::Regex::new(pattern) {
        Ok(re) => re.replace_all(text, replacement).into_owned(),
        Err(_) => text.to_owned(),
    }
}

/// Calls `sha2::Sha256::digest` on the string's bytes and writes the digest
/// in lowercase hex. The result is named `sha256_hex` of the input; nothing
/// more is claimed.
#[verifier::external_body]
fn sha256_hex_digest(input: &str) -> (r: String)
    ensures
        r@ == sha256_hex(input@),
{
    format!("{:x}", <sha2::Sha256 as sha2::Digest>::digest(input.as_bytes()))
}

// ---------------------------------------------------------------------------
// Redaction steps
// ---------------------------------------------------------------------------

/// Email addresses.
pub open spec fn email_pattern() -> Seq<char> {
    "[a-zA-Z0-9._%+-]+@[a-zA-Z0-9.-]+\\.[a-zA-Z]{2,}"@
}

/// US phone numbers: (555) 123-4567, 555-123-4567, +1-555-123-4567, ...
pub open spec fn phone_pattern() -> Seq<char> {
    "(?:\\+?1[-.\\s]?)?\\(?\\d{3}\\)?[-.\\s]?\\d{3}[-.\\s]?\\d{4}"@
}

/// US Social Security numbers: 123-45-6789.
pub open spec fn ssn_pattern() -> Seq<char> {
    "\\b\\d{3}-\\d{2}-\\d{4}\\b"@
}

/// Card numbers: sixteen digits in groups of four, optionally separated.
pub open spec fn card_pattern() -> Seq<char> {
    "\\b\\d{4}[-\\s]?\\d{4}[-\\s]?\\d{4}[-\\s]?\\d{4}\\b"@
}

/// One replacement step: every match of `pattern` in `text` becomes
/// `replacement` (a pattern that did not compile would leave the text as it
/// is; the four patterns used here compile).
pub open spec fn replaced_if_valid(pattern: Seq<char>, text: Seq<char>, replacement: Seq<char>) -> Seq<
    char,
> {
    if regex_compiles(pattern) {
        regex_replaced(pattern, text, replacement)
    } else {
        text
    }
}

/// The text with PII replaced by markers: emails, then phone numbers, then
/// SSNs, then card numbers.
pub open spec fn pii_stripped(text: Seq<char>) -> Seq<char> {
    let t1 = replaced_if_valid(email_pattern(), text, "[EMAIL_REDACTED]"@);
    let t2 = replaced_if_valid(phone_pattern(), t1, "[PHONE_REDACTED]"@);
    let t3 = replaced_if_valid(ssn_pattern(), t2, "[SSN_REDACTED]"@);
    replaced_if_valid(card_pattern(), t3, "[CC_REDACTED]"@)
}

fn replace_if_valid(pattern: &str, text: String, replacement: &str) -> (r: String)
    ensures
        r@ == replaced_if_valid(pattern@, text@, replacement@),
{
    if is_valid_regex(pattern) {
        regex_replace_all(pattern, text.as_str(), replacement)
    } else {
        text
    }
}

/// Strip PII patterns from text: emails, US phone numbers, SSNs and card
/// numbers, each replaced by a marker.
pub fn strip_pii(text: &str) -> (r: String)
    ensures
        r@ == pii_stripped(text@),
{
    let t0 = to_owned_string(text);
    let t1 = replace_if_valid(
        "[a-zA-Z0-9._%+-]+@[a-zA-Z0-9.-]+\\.[a-zA-Z]{2,}",
        t0,
        "[EMAIL_REDACTED]",
    );
    let t2 = replace_if_valid(
        "(?:\\+?1[-.\\s]?)?\\(?\\d{3}\\)?[-.\\s]?\\d{3}[-.\\s]?\\d{4}",
        t1,
        "[PHONE_REDACTED]",
    );
    let t3 = replace_if_valid("\\b\\d{3}-\\d{2}-\\d{4}\\b", t2, "[SSN_REDACTED]");
    replace_if_valid("\\b\\d{4}[-\\s]?\\d{4}[-\\s]?\\d{4}[-\\s]?\\d{4}\\b", t3, "[CC_REDACTED]")
}

/// The hashed form of a field: `sha256:` and the hex digest.
pub open spec fn hashed(text: Seq<char>) -> Seq<char> {
    "sha256:"@ + sha256_hex(text)
}

/// SHA-256 hash a string: `sha256:` followed by the hex digest.
pub fn sha256_hash(input: &str) -> (r: String)
    ensures
        r@ == hashed(input@),
{
    let d = sha256_hex_digest(input);
    let mut r = to_owned_string("sha256:");
    push_str_chars(&mut r, d.as_str());
    r
}

/// The marker appended to truncated content.
pub open spec fn truncation_marker() -> Seq<char> {
    "[TRUNCATED]"@
}

/// Content cut to at most `max` bytes: unchanged when it fits, otherwise the
/// longest prefix of whole characters that fits, followed by the marker.
pub open spec fn truncated_content(text: Seq<char>, max: int) -> Seq<char> {
    if utf8_len(text) <= max {
        text
    } else {
        text.take(choose|k: int| is_longest_fitting_prefix(text, k, max)) + truncation_marker()
    }
}

/// Truncate content to at most `max_chars` bytes, at a character boundary,
/// appending "[TRUNCATED]" when anything was cut.
pub fn truncate_content(text: &str, max_chars: usize) -> (r: String)
    ensures
        r@ == truncated_content(text@, max_chars as int),
{
    let v = chars_of(text);
    let (k, _bytes) = longest_fitting_prefix(&v, max_chars);
    if k == v.len() {
        assert(v@.take(k as int) =~= v@);
        return string_from_chars(&v);
    }
    proof {
        crate::text::lemma_utf8_len_take_monotone(v@, k + 1, v@.len() as int);
        assert(v@.take(v@.len() as int) =~= v@);
        let c = choose|j: int| is_longest_fitting_prefix(v@, j, max_chars as int);
        crate::text::lemma_longest_fitting_prefix_unique(v@, c, k as int, max_chars as int);
    }
    let mut r = string_from_prefix(&v, k);
    push_str_chars(&mut r, "[TRUNCATED]");
    r
}

// ---------------------------------------------------------------------------
// The pipeline
// ---------------------------------------------------------------------------

/// The four redactable fields of an event: prompt, response, model,
/// provider.
pub type RedactedFields = (Seq<char>, Seq<char>, Seq<char>, Seq<char>);

/// The fields after hashing those named in `names`, in order (a name given
/// twice hashes twice; an unknown name is skipped).
pub open spec fn hash_step(f: RedactedFields, names: Seq<String>) -> RedactedFields
    decreases names.len(),
{
    if names.len() == 0 {
        f
    } else {
        let g = hash_step(f, names.drop_last());
        let n = names.last()@;
        if n == "prompt"@ {
            (hashed(g.0), g.1, g.2, g.3)
        } else if n == "response"@ {
            (g.0, hashed(g.1), g.2, g.3)
        } else if n == "model"@ {
            (g.0, g.1, hashed(g.2), g.3)
        } else if n == "provider"@ {
            (g.0, g.1, g.2, hashed(g.3))
        } else {
            g
        }
    }
}

/// The redactable fields after the whole pipeline: PII strip, then field
/// hash, then truncation.
pub open spec fn redacted_fields(e: InferenceEvent, c: RedactionConfig) -> RedactedFields {
    let f0: RedactedFields = (e.prompt@, e.response@, e.model@, e.model_provider@);
    let f1: RedactedFields = if c.strip_pii {
        (pii_stripped(f0.0), pii_stripped(f0.1), f0.2, f0.3)
    } else {
        f0
    };
    let f2 = hash_step(f1, c.hash_fields@);
    match c.truncate_tokens {
        Some(m) => (truncated_content(f2.0, m as int), truncated_content(f2.1, m as int), f2.2, f2.3),
        None => f2,
    }
}

/// The event's redactable fields.
pub open spec fn fields_of(e: InferenceEvent) -> RedactedFields {
    (e.prompt@, e.response@, e.model@, e.model_provider@)
}

/// Every field other than the redactable ones is the same in both events.
pub open spec fn same_other_fields(a: InferenceEvent, b: InferenceEvent) -> bool {
    &&& a.request_id == b.request_id
    &&& a.timestamp == b.timestamp
    &&& a.prompt_tokens == b.prompt_tokens
    &&& a.completion_tokens == b.completion_tokens
    &&& a.latency_ms == b.latency_ms
    &&& a.status_code == b.status_code
    &&& a.error == b.error
    &&& a.truncated == b.truncated
}

/// Apply redaction to an inference event: PII strip, then field hash, then
/// truncation. Fields other than prompt, response, model and provider are
/// copied unchanged.
pub fn redact_inference_event(event: &InferenceEvent, config: &RedactionConfig) -> (r:
    InferenceEvent)
    ensures
        fields_of(r) == redacted_fields(*event, *config),
        same_other_fields(r, *event),
{
    let mut prompt = event.prompt.clone();
    let mut response = event.response.clone();
    let mut model = event.model.clone();
    let mut provider = event.model_provider.clone();
    if config.strip_pii {
        prompt = strip_pii(prompt.as_str());
        response = strip_pii(response.as_str());
    }
    let ghost f1: RedactedFields = (prompt@, response@, model@, provider@);
    let mut i: usize = 0;
    while i < config.hash_fields.len()
        invariant
            i <= config.hash_fields@.len(),
            (prompt@, response@, model@, provider@) == hash_step(
                f1,
                config.hash_fields@.take(i as int),
            ),
        decreases config.hash_fields.len() - i,
    {
        let name = config.hash_fields[i].as_str();
        if str_eq(name, "prompt") {
            prompt = sha256_hash(prompt.as_str());
        } else if str_eq(name, "response") {
            response = sha256_hash(response.as_str());
        } else if str_eq(name, "model") {
            model = sha256_hash(model.as_str());
        } else if str_eq(name, "provider") {
            provider = sha256_hash(provider.as_str());
        }
        proof {
            let t = config.hash_fields@.take(i + 1);
            assert(t.drop_last() =~= config.hash_fields@.take(i as int));
        }
        i = i + 1;
    }
    assert(config.hash_fields@.take(i as int) =~= config.hash_fields@);
    if let Some(max) = config.truncate_tokens {
        prompt = truncate_content(prompt.as_str(), max);
        response = truncate_content(response.as_str(), max);
    }
    InferenceEvent {
        request_id: event.request_id.clone(),
        timestamp: event.timestamp,
        model_provider: provider,
        model,
        prompt,
        response,
        prompt_tokens: event.prompt_tokens,
        completion_tokens: event.completion_tokens,
        latency_ms: event.latency_ms,
        status_code: event.status_code,
        error: event.error,
        truncated: event.truncated,
    }
}

/// With the default config, redaction changes nothing.
pub proof fn lemma_no_redaction_is_identity(e: InferenceEvent, c: RedactionConfig)
    requires
        !c.strip_pii,
        c.hash_fields@.len() == 0,
        c.truncate_tokens is None,
    ensures
        redacted_fields(e, c) == fields_of(e),
{
}

/// Hash names that are not fields change nothing.
pub proof fn lemma_unknown_hash_fields_skipped(f: RedactedFields, names: Seq<String>)
    requires
        forall|i: int| 0 <= i < names.len() ==> !hashable_field(#[trigger] names[i]@),
    ensures
        hash_step(f, names) == f,
    decreases names.len(),
{
    if names.len() > 0 {
        lemma_unknown_hash_fields_skipped(f, names.drop_last());
        assert(!hashable_field(names[names.len() - 1]@));
    }
}

/// Truncation keeps content within the limit plus the marker, and leaves
/// content that fits untouched.
pub proof fn lemma_truncation_bound(text: Seq<char>, max: int)
    requires
        max >= 0,
    ensures
        utf8_len(text) <= max ==> truncated_content(text, max) == text,
        utf8_len(text) > max ==> utf8_len(truncated_content(text, max)) <= max + utf8_len(
            truncation_marker(),
        ),
{
    if utf8_len(text) > max {
        crate::text::lemma_longest_fitting_prefix_exists(text, max);
        let k = choose|k: int| is_longest_fitting_prefix(text, k, max);
        crate::text::lemma_utf8_len_concat(text.take(k), truncation_marker());
    }
}

/// `text` hashed `n` times over.
pub open spec fn hashed_times(text: Seq<char>, n: nat) -> Seq<char>
    decreases n,
{
    if n == 0 {
        text
    } else {
        hashed(hashed_times(text, (n - 1) as nat))
    }
}

/// How many of `names` are `name`.
pub open spec fn occurrences(names: Seq<String>, name: Seq<char>) -> nat
    decreases names.len(),
{
    if names.len() == 0 {
        0
    } else {
        occurrences(names.drop_last(), name) + if names.last()@ == name {
            1nat
        } else {
            0nat
        }
    }
}

proof fn lemma_hash_step_counts(f: RedactedFields, names: Seq<String>)
    ensures
        hash_step(f, names) == (
            hashed_times(f.0, occurrences(names, "prompt"@)),
            hashed_times(f.1, occurrences(names, "response"@)),
            hashed_times(f.2, occurrences(names, "model"@)),
            hashed_times(f.3, occurrences(names, "provider"@)),
        ),
    decreases names.len(),
{
    reveal_strlit("prompt");
    reveal_strlit("response");
    reveal_strlit("model");
    reveal_strlit("provider");
    if names.len() > 0 {
        lemma_hash_step_counts(f, names.drop_last());
        assert("prompt"@[0] != "response"@[0] && "prompt"@[0] != "model"@[0]);
        assert("prompt"@[3] != "provider"@[3]);
        assert("response"@[0] != "model"@[0] && "response"@[0] != "provider"@[0]);
        assert("model"@[0] != "provider"@[0]);
    }
}

/// Field hashing is per named field: prompt, response, model and provider
/// are each hashed once for every time their own name appears in
/// `hash_fields`, and a field whose name does not appear keeps its value
/// after PII stripping (prompt and response are then truncated).
pub proof fn lemma_hashing_is_per_named_field(e: InferenceEvent, c: RedactionConfig)
    ensures
        ({
            let strip = |t: Seq<char>| if c.strip_pii {
                pii_stripped(t)
            } else {
                t
            };
            let cut = |t: Seq<char>| match c.truncate_tokens {
                Some(m) => truncated_content(t, m as int),
                None => t,
            };
            redacted_fields(e, c) == (
                cut(hashed_times(strip(e.prompt@), occurrences(c.hash_fields@, "prompt"@))),
                cut(hashed_times(strip(e.response@), occurrences(c.hash_fields@, "response"@))),
                hashed_times(e.model@, occurrences(c.hash_fields@, "model"@)),
                hashed_times(e.model_provider@, occurrences(c.hash_fields@, "provider"@)),
            )
        }),
        occurrences(c.hash_fields@, "response"@) == 0 && c.truncate_tokens is None ==> redacted_fields(
            e,
            c,
        ).1 == (if c.strip_pii {
            pii_stripped(e.response@)
        } else {
            e.response@
        }),
{
    let f0: RedactedFields = (e.prompt@, e.response@, e.model@, e.model_provider@);
    let f1: RedactedFields = if c.strip_pii {
        (pii_stripped(f0.0), pii_stripped(f0.1), f0.2, f0.3)
    } else {
        f0
    };
    lemma_hash_step_counts(f1, c.hash_fields@);
}

// ---------------------------------------------------------------------------
// Dropped events
// ---------------------------------------------------------------------------

/// Count of events dropped because the inference channel was full.
#[derive(Debug)]
pub struct DroppedEvents {
    count: u64,
}

impl DroppedEvents {
    /// The count, as a number.
    pub closed spec fn value(&self) -> nat {
        self.count as nat
    }

    /// A counter at zero.
    pub fn new() -> (r: Self)
        ensures
            r.value() == 0,
    {
        DroppedEvents { count: 0 }
    }

    /// The current count of dropped inference events.
    pub fn dropped_event_count(&self) -> (r: u64)
        ensures
            r == self.value(),
    {
        self.count
    }

    /// Record a dropped event. Returns whether this drop should be reported
    /// (the first, then every hundredth: counts 1, 101, 201, …). The count
    /// saturates at `u64::MAX`.
    pub fn record_dropped_event(&mut self) -> (report: bool)
        ensures
            final(self).value() == if old(self).value() < u64::MAX {
                old(self).value() + 1
            } else {
                old(self).value()
            },
            report == (final(self).value() % 100 == 1),
    {
        if self.count < u64::MAX {
            self.count = self.count + 1;
        }
        self.count % 100 == 1
    }

    /// Reset the count to zero.
    pub fn reset_dropped_count(&mut self)
        ensures
            final(self).value() == 0,
    {
        self.count = 0;
    }
}

} // verus!
