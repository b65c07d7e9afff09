//! The data exchanged with the chat and transcription service, and the
//! rules that shape requests and read replies.

use vstd::prelude::*;

use crate::text::{
    chars_of, decimal, decimal_chars, extend_chars, rfind, rfind_chars, slice_chars, starts_with,
    string_of, text_or_empty, trim, trim_chars, trim_seq, trim_start_chars, trim_start_seq,
    opt_text, lemma_trim_idempotent,
};

verus! {

/// Base address of the service when none is configured.
pub const DEFAULT_BASE_URL: &'static str = "https://api.openai.com/v1";

/// Model that writes templates when none is configured.
pub const DEFAULT_TEMPLATE_MODEL: &'static str = "gpt-5.2";

/// Model that transcribes speech when none is configured.
pub const DEFAULT_TRANSCRIBE_MODEL: &'static str = "gpt-4o-transcribe";

/// The fence that opens and closes a Markdown code block.
pub open spec fn fence() -> Seq<char> {
    seq!['`', '`', '`']
}

/// The reply text with surrounding whitespace and a Markdown code fence
/// removed: when the trimmed text opens with a fence, what follows it (from
/// its first non-whitespace character) up to the last fence, trimmed, or all
/// of it trimmed where no closing fence follows.
pub open spec fn stripped_fences(text: Seq<char>) -> Seq<char> {
    let trimmed = trim_seq(text);
    if starts_with(trimmed, fence()) {
        let body = trim_start_seq(trimmed.skip(3));
        match rfind(body, fence()) {
            Some(end) => trim_seq(body.take(end as int)),
            None => trim_seq(body),
        }
    } else {
        trimmed
    }
}

/// A reply that does not open with a fence is only trimmed.
pub proof fn law_unfenced_reply_is_trimmed(text: Seq<char>)
    requires
        !starts_with(trim_seq(text), fence()),
    ensures
        stripped_fences(text) == trim_seq(text),
{
}

/// What remains of a reply has no surrounding whitespace left.
pub proof fn law_stripped_reply_is_trimmed(text: Seq<char>)
    ensures
        trim_seq(stripped_fences(text)) == stripped_fences(text),
{
    let trimmed = trim_seq(text);
    if starts_with(trimmed, fence()) {
        let body = trim_start_seq(trimmed.skip(3));
        match rfind(body, fence()) {
            Some(end) => lemma_trim_idempotent(body.take(end as int)),
            None => lemma_trim_idempotent(body),
        }
    } else {
        lemma_trim_idempotent(text);
    }
}

/// Removes surrounding whitespace and a Markdown code fence from a reply.
pub fn strip_fences(text: String) -> (r: String)
    ensures
        r@ == stripped_fences(text@),
{
    let all = chars_of(text.as_str());
    let trimmed = trim_chars(all.as_slice());
    let fence_chars: Vec<char> = vec!['`', '`', '`'];
    assert(fence_chars@ =~= fence());
    if crate::text::matches_at_exec(trimmed.as_slice(), fence_chars.as_slice(), 0) {
        let rest = slice_chars(trimmed.as_slice(), 3, trimmed.len());
        assert(rest@ =~= trimmed@.skip(3));
        let body = trim_start_chars(rest.as_slice());
        match rfind_chars(body.as_slice(), fence_chars.as_slice()) {
            Some(end) => {
                let head = slice_chars(body.as_slice(), 0, end);
                assert(head@ =~= body@.take(end as int));
                let t = trim_chars(head.as_slice());
                string_of(t.as_slice())
            },
            None => {
                let t = trim_chars(body.as_slice());
                string_of(t.as_slice())
            },
        }
    } else {
        string_of(trimmed.as_slice())
    }
}

/// How the chat service is asked to shape its reply.
#[derive(Clone, Copy, Debug)]
pub enum ChatResponseFormat {
    JsonObject,
}

/// The `response_format` entry of a chat request.
#[derive(Clone, Debug)]
pub struct ChatResponseFormatRequest {
    pub kind: String,
}

impl ChatResponseFormat {
    /// The request entry that asks for this format.
    pub fn into_request(self) -> (r: ChatResponseFormatRequest)
        ensures
            r.kind@ == "json_object"@,
    {
        match self {
            ChatResponseFormat::JsonObject => ChatResponseFormatRequest {
                kind: "json_object".to_owned(),
            },
        }
    }
}

/// A recorded audio segment to be transcribed.
#[derive(Debug)]
pub struct AudioFile {
    pub name: String,
    pub bytes: Vec<u8>,
}

/// The file name under which segment `sequence_id` is sent.
pub open spec fn segment_file_name(sequence_id: u64) -> Seq<char> {
    seq!['s', 'e', 'g', 'm', 'e', 'n', 't', '-'] + decimal(sequence_id as nat) + seq![
        '.',
        'w',
        'a',
        'v',
    ]
}

impl AudioFile {
    /// An audio file with the given name and contents.
    pub fn new(name: String, bytes: Vec<u8>) -> (r: AudioFile)
        ensures
            r.name == name,
            r.bytes == bytes,
    {
        AudioFile { name, bytes }
    }

    /// Whether there is any audio to transcribe; an empty file is answered
    /// with empty text without asking the service.
    pub fn has_audio(&self) -> (b: bool)
        ensures
            b == (self.bytes@.len() > 0),
    {
        self.bytes.len() > 0
    }

    /// The file that carries the audio of segment `sequence_id`, named
    /// `segment-<sequence_id>.wav`.
    pub fn for_segment(sequence_id: u64, bytes: Vec<u8>) -> (r: AudioFile)
        ensures
            r.name@ == segment_file_name(sequence_id),
            r.bytes == bytes,
    {
        let mut name: Vec<char> = vec!['s', 'e', 'g', 'm', 'e', 'n', 't', '-'];
        let digits = decimal_chars(sequence_id);
        extend_chars(&mut name, digits.as_slice());
        let suffix: Vec<char> = vec!['.', 'w', 'a', 'v'];
        extend_chars(&mut name, suffix.as_slice());
        assert(name@ =~= segment_file_name(sequence_id));
        AudioFile::new(string_of(name.as_slice()), bytes)
    }
}

/// One message of a chat conversation.
#[derive(Clone, Debug)]
pub struct ChatMessage {
    pub role: String,
    pub content: String,
}

impl ChatMessage {
    /// A message from the system role.
    pub fn system(content: String) -> (r: ChatMessage)
        ensures
            r.role@ == "system"@,
            r.content == content,
    {
        ChatMessage { role: "system".to_owned(), content }
    }

    /// A message from the user role.
    pub fn user(content: String) -> (r: ChatMessage)
        ensures
            r.role@ == "user"@,
            r.content == content,
    {
        ChatMessage { role: "user".to_owned(), content }
    }
}


/// A reply of the chat service.
#[derive(Debug)]
pub struct ChatCompletionResponse {
    pub choices: Vec<ChatChoice>,
}

/// One candidate answer of a chat reply.
#[derive(Debug)]
pub struct ChatChoice {
    pub message: Option<ChatMessageResponse>,
}

/// The message of a chat reply candidate.
#[derive(Debug)]
pub struct ChatMessageResponse {
    pub content: Option<String>,
}

/// The content of the first candidate of a reply, or nothing where the
/// reply has no candidate, the candidate no message or the message no content.
pub open spec fn first_reply_content(choices: Seq<ChatChoice>) -> Seq<char> {
    if choices.len() > 0 {
        match choices[0].message {
            Some(m) => text_or_empty(m.content),
            None => Seq::empty(),
        }
    } else {
        Seq::empty()
    }
}

impl ChatCompletionResponse {
    /// The text of the reply: the first candidate's content with
    /// surrounding whitespace and code fences removed.
    pub fn reply_text(&self) -> (r: String)
        ensures
            r@ == stripped_fences(first_reply_content(self.choices@)),
            self.choices@.len() > 0 && (self.choices@[0].message matches Some(m) && m.content
                is Some) ==> r@ == stripped_fences(
                self.choices@[0].message->0.content->0@,
            ),
    {
        proof {
            if self.choices@.len() > 0 && (self.choices@[0].message matches Some(m)
                && m.content is Some) {
                law_reply_reads_first_choice(
                    self.choices@,
                    self.choices@[0].message->0.content->0,
                );
            }
        }
        let content = if self.choices.len() > 0 {
            match &self.choices[0].message {
                Some(m) => match &m.content {
                    Some(c) => c.clone(),
                    None => String::new(),
                },
                None => String::new(),
            }
        } else {
            String::new()
        };
        strip_fences(content)
    }
}

/// A reply whose first candidate carries content `c` is read as `c`,
/// whatever the other candidates and however many there are.
pub proof fn law_reply_reads_first_choice(choices: Seq<ChatChoice>, c: String)
    requires
        choices.len() >= 1,
        choices[0].message matches Some(m) && m.content == Some(c),
    ensures
        first_reply_content(choices) == c@,
{
}

/// A reply without candidates, or whose first candidate has no content, is
/// read as empty text.
pub proof fn law_reply_without_content_is_empty(choices: Seq<ChatChoice>)
    requires
        choices.len() == 0 || choices[0].message is None || choices[0].message->0.content is None,
    ensures
        first_reply_content(choices) == Seq::<char>::empty(),
{
}

/// A reply of the transcription service.
#[derive(Debug)]
pub struct AudioResponse {
    pub text: Option<String>,
}

impl AudioResponse {
    /// The transcribed text, trimmed; empty where the reply holds none.
    pub fn transcript(&self) -> (r: String)
        ensures
            r@ == trim_seq(text_or_empty(self.text)),
    {
        match &self.text {
            Some(t) => trim(t.as_str()),
            None => {
                assert(trim_seq(Seq::<char>::empty()) =~= Seq::<char>::empty());
                String::new()
            },
        }
    }
}

// ---------------------------------------------------------------------------
// Service configuration
// ---------------------------------------------------------------------------

/// The serialization of the URL that `url::Url::parse` makes of the text
/// `input`, or nothing where the text is not an absolute URL.
pub uninterp spec fn url_parse_text(input: Seq<char>) -> Option<Seq<char>>;

/// The serialization of the URL that `url::Url::join` makes of the reference
/// `input` resolved against the URL serialized as `base`, or nothing where
/// it fails.
pub uninterp spec fn url_join_text(base: Seq<char>, input: Seq<char>) -> Option<Seq<char>>;

/// Parses an absolute URL and gives back its serialization.
///
/// Trusted: calls `url::Url::parse` and converts the parsed URL to its text
/// with `as_str`. The contract claims that the result is what
/// `url_parse_text` names for the input: parsing with the default options
/// depends on the text alone.
#[verifier::external_body]
fn parse_url_text(input: &str) -> (r: Option<String>)
    ensures
        opt_text(r) == url_parse_text(input@),
{
    url::Url::parse(input).ok().map(|u| u.as_str().to_owned())
}

/// Resolves `input` against the URL serialized as `base` and gives back the
/// serialization of the result.
///
/// Trusted: calls `url::Url::join` on the URL that `url::Url::parse` reads
/// back from `base` (the serialization of a parsed URL parses to that same
/// URL), and converts the result to its text with `as_str`. The contract
/// claims that the result is what `url_join_text` names for the two texts;
/// it states nothing where `base` is not a serialization `url::Url::parse`
/// accepts, beyond the name.
#[verifier::external_body]
fn join_url_text(base: &str, input: &str) -> (r: Option<String>)
    ensures
        opt_text(r) == url_join_text(base@, input@),
{
    url::Url::parse(base).ok().and_then(|u| u.join(input).ok()).map(|u| u.as_str().to_owned())
}

/// `s` without its trailing `'/'` characters.
pub open spec fn without_trailing_slashes(s: Seq<char>) -> Seq<char>
    decreases s.len(),
{
    if s.len() > 0 && s.last() == '/' {
        without_trailing_slashes(s.drop_last())
    } else {
        s
    }
}

/// The base address that is parsed: the configured one, or the default,
/// with its trailing slashes replaced by exactly one.
pub open spec fn configured_base_url(base_url: Option<Seq<char>>) -> Seq<char> {
    let base = match base_url {
        Some(b) => b,
        None => DEFAULT_BASE_URL@,
    };
    without_trailing_slashes(base).push('/')
}

/// The template model: the primary setting, else the legacy one, else the default.
pub open spec fn chosen_template_model(
    primary: Option<Seq<char>>,
    legacy: Option<Seq<char>>,
) -> Seq<char> {
    match primary {
        Some(m) => m,
        None => match legacy {
            Some(m) => m,
            None => DEFAULT_TEMPLATE_MODEL@,
        },
    }
}

/// The transcription model: the setting, else the default.
pub open spec fn chosen_transcribe_model(setting: Option<Seq<char>>) -> Seq<char> {
    match setting {
        Some(m) => m,
        None => DEFAULT_TRANSCRIBE_MODEL@,
    }
}

/// The template model set by `TEMPLIFY_TEMPLATE_MODEL` is used whatever
/// `OPENAI_TEMPLATE_MODEL` says; only where it is unset does the legacy
/// setting apply, and only where both are unset the default.
pub proof fn law_template_model_precedence(primary: Option<Seq<char>>, legacy: Option<Seq<char>>)
    ensures
        primary matches Some(m) ==> chosen_template_model(primary, legacy) == m,
        legacy matches Some(l) ==> (primary is None ==> chosen_template_model(primary, legacy)
            == l),
        primary is None && legacy is None ==> chosen_template_model(primary, legacy)
            == DEFAULT_TEMPLATE_MODEL@,
{
}

/// The transcription model set by `TEMPLIFY_TRANSCRIBE_MODEL` is used; only
/// where it is unset does the default apply.
pub proof fn law_transcribe_model_precedence(setting: Option<Seq<char>>)
    ensures
        setting matches Some(m) ==> chosen_transcribe_model(setting) == m,
        setting is None ==> chosen_transcribe_model(setting) == DEFAULT_TRANSCRIBE_MODEL@,
{
}

/// Why the service configuration could not be set up.
#[derive(Debug)]
pub enum ConfigError {
    /// No API key was given.
    MissingApiKey,
    /// The base address is not a valid URL.
    InvalidBaseUrl,
    /// A request address could not be formed from the base address.
    InvalidEndpoint,
}

impl ConfigError {
    /// The explanation shown to the user.
    pub fn message(&self) -> (r: String)
        ensures
            self is MissingApiKey ==> r@
                == "OPENAI_API_KEY is not set. Provide it via environment or .env file."@,
            self is InvalidBaseUrl ==> r@ == "OPENAI_BASE_URL is not a valid URL"@,
            self is InvalidEndpoint ==> r@ == "Failed to build OpenAI request URL"@,
    {
        match self {
            ConfigError::MissingApiKey => "OPENAI_API_KEY is not set. Provide it via environment or .env file.".to_owned(),
            ConfigError::InvalidBaseUrl => "OPENAI_BASE_URL is not a valid URL".to_owned(),
            ConfigError::InvalidEndpoint => "Failed to build OpenAI request URL".to_owned(),
        }
    }
}

/// Settings of the chat and transcription service. The base address is
/// kept as the serialization of the parsed URL.
#[derive(Clone, Debug)]
pub struct OpenAiConfig {
    pub api_key: String,
    pub base_url: String,
    pub template_model: String,
    pub transcribe_model: String,
}

/// `v` without its trailing `'/'` characters.
fn trim_trailing_slashes(v: &[char]) -> (r: Vec<char>)
    ensures
        r@ == without_trailing_slashes(v@),
{
    let mut j: usize = v.len();
    assert(v@.subrange(0, v.len() as int) =~= v@);
    while j > 0 && v[j - 1] == '/'
        invariant
            j <= v.len(),
            without_trailing_slashes(v@) == without_trailing_slashes(v@.subrange(0, j as int)),
        decreases j,
    {
        assert(v@.subrange(0, j as int).drop_last() =~= v@.subrange(0, j - 1));
        j -= 1;
    }
    slice_chars(v, 0, j)
}

impl OpenAiConfig {
    /// The configuration from the values of the environment settings
    /// `OPENAI_API_KEY`, `OPENAI_BASE_URL`, `TEMPLIFY_TEMPLATE_MODEL`,
    /// `OPENAI_TEMPLATE_MODEL` and `TEMPLIFY_TRANSCRIBE_MODEL`, each absent
    /// where it is not set.
    pub fn from_env(
        api_key: Option<String>,
        base_url: Option<String>,
        template_model: Option<String>,
        legacy_template_model: Option<String>,
        transcribe_model: Option<String>,
    ) -> (r: Result<OpenAiConfig, ConfigError>)
        ensures
            r is Ok <==> api_key is Some && url_parse_text(
                configured_base_url(opt_text(base_url)),
            ) is Some,
            r matches Err(e) ==> (e is MissingApiKey <==> api_key is None),
            r matches Err(e) ==> (e is InvalidBaseUrl <==> api_key is Some),
            r matches Ok(c) ==> {
                &&& c.api_key == api_key->0
                &&& Some(c.base_url@) == url_parse_text(configured_base_url(opt_text(base_url)))
                &&& c.template_model@ == chosen_template_model(
                    opt_text(template_model),
                    opt_text(legacy_template_model),
                )
                &&& c.transcribe_model@ == chosen_transcribe_model(opt_text(transcribe_model))
            },
            r matches Ok(c) ==> (template_model matches Some(m) ==> c.template_model@ == m@),
            r matches Ok(c) ==> (legacy_template_model matches Some(l) ==> (template_model is None
                ==> c.template_model@ == l@)),
            r matches Ok(c) ==> (template_model is None && legacy_template_model is None
                ==> c.template_model@ == DEFAULT_TEMPLATE_MODEL@),
            r matches Ok(c) ==> (transcribe_model matches Some(m) ==> c.transcribe_model@ == m@),
            r matches Ok(c) ==> (transcribe_model is None ==> c.transcribe_model@
                == DEFAULT_TRANSCRIBE_MODEL@),
    {
        proof {
            law_template_model_precedence(opt_text(template_model), opt_text(legacy_template_model));
            law_transcribe_model_precedence(opt_text(transcribe_model));
        }
        let api_key = match api_key {
            Some(k) => k,
            None => return Err(ConfigError::MissingApiKey),
        };
        let base_chars = match &base_url {
            Some(b) => chars_of(b.as_str()),
            None => chars_of(DEFAULT_BASE_URL),
        };
        let mut normalized = trim_trailing_slashes(base_chars.as_slice());
        normalized.push('/');
        let normalized_text = string_of(normalized.as_slice());
        let parsed = match parse_url_text(normalized_text.as_str()) {
            Some(u) => u,
            None => return Err(ConfigError::InvalidBaseUrl),
        };
        let template_model = match template_model {
            Some(m) => m,
            None => match legacy_template_model {
                Some(m) => m,
                None => DEFAULT_TEMPLATE_MODEL.to_owned(),
            },
        };
        let transcribe_model = match transcribe_model {
            Some(m) => m,
            None => DEFAULT_TRANSCRIBE_MODEL.to_owned(),
        };
        Ok(OpenAiConfig { api_key, base_url: parsed, template_model, transcribe_model })
    }

    /// The address of the service endpoint `path`, resolved against the
    /// base address.
    pub fn endpoint(&self, path: &str) -> (r: Result<String, ConfigError>)
        ensures
            r is Ok <==> url_join_text(self.base_url@, path@) is Some,
            r matches Ok(t) ==> url_join_text(self.base_url@, path@) == Some(t@),
            r matches Err(e) ==> e is InvalidEndpoint,
    {
        match join_url_text(self.base_url.as_str(), path) {
            Some(u) => Ok(u),
            None => Err(ConfigError::InvalidEndpoint),
        }
    }
}

} // verus!
