//! The commands of the program and the decisions taken on them before and
//! after the outside work (speech, clipboard, chat service) is done.

use vstd::prelude::*;

use crate::openai::OpenAiConfig;
use crate::store::{TemplateRecord, TemplateStore};
use crate::template_service::TemplateBuildInput;
use crate::text::{chars_eq, chars_of, extend_chars, string_of, trim, trim_seq};

verus! {

/// The settings the program runs with.
#[derive(Debug)]
pub struct AppConfig {
    pub command: CliCommand,
    pub openai: OpenAiConfig,
    pub data_dir: std::path::PathBuf,
}

/// What the program was asked to do.
#[derive(Debug, Clone)]
pub enum CliCommand {
    New(NewTemplateCommand),
    Get(GetTemplateCommand),
    Show(ShowTemplateCommand),
}

/// Create a template and save it under a key.
#[derive(Debug, Clone)]
pub struct NewTemplateCommand {
    pub key: String,
    pub prompt: Option<String>,
    pub device_index: Option<usize>,
    pub force: bool,
}

/// Render the template saved under a key with positional parameters.
#[derive(Debug, Clone)]
pub struct GetTemplateCommand {
    pub key: String,
    pub params: Vec<String>,
}

/// Show the template saved under a key.
#[derive(Debug, Clone)]
pub struct ShowTemplateCommand {
    pub key: String,
}

/// Why a command was refused.
#[derive(Debug)]
pub enum CommandError {
    /// Neither a description nor clipboard text was given for a new template.
    EmptyInput,
    /// A template is already saved under the key and overwriting was not asked for.
    KeyExists(String),
    /// No template is saved under the key.
    NotFound(String),
}

/// The explanation of a refusal shown to the user.
pub open spec fn command_error_message(e: CommandError) -> Seq<char> {
    match e {
        CommandError::EmptyInput => "Template input is empty. Voice transcription returned no text and clipboard is empty."@,
        CommandError::KeyExists(key) => "Template key '"@ + key@
            + "' already exists. Use --force to overwrite."@,
        CommandError::NotFound(key) => "Template key '"@ + key@ + "' not found"@,
    }
}

impl CommandError {
    /// The explanation shown to the user.
    pub fn message(&self) -> (r: String)
        ensures
            r@ == command_error_message(*self),
    {
        match self {
            CommandError::EmptyInput => "Template input is empty. Voice transcription returned no text and clipboard is empty.".to_owned(),
            CommandError::KeyExists(key) => {
                let mut text = chars_of("Template key '");
                let k = chars_of(key.as_str());
                extend_chars(&mut text, k.as_slice());
                let tail = chars_of("' already exists. Use --force to overwrite.");
                extend_chars(&mut text, tail.as_slice());
                string_of(text.as_slice())
            },
            CommandError::NotFound(key) => {
                let mut text = chars_of("Template key '");
                let k = chars_of(key.as_str());
                extend_chars(&mut text, k.as_slice());
                let tail = chars_of("' not found");
                extend_chars(&mut text, tail.as_slice());
                string_of(text.as_slice())
            },
        }
    }
}

/// Decides whether a new template may be requested, and from what: the
/// description and the clipboard text, both trimmed. Refused where both are
/// empty, or where the key is taken and overwriting was not asked for.
pub fn plan_new_template(
    store: &TemplateStore,
    cmd: &NewTemplateCommand,
    description: &str,
    clipboard_text: &str,
) -> (r: Result<TemplateBuildInput, CommandError>)
    ensures
        r matches Ok(input) ==> input.user_request@ == trim_seq(description@)
            && input.source_data@ == trim_seq(clipboard_text@),
        (r matches Err(CommandError::EmptyInput)) <==> (trim_seq(description@).len() == 0
            && trim_seq(clipboard_text@).len() == 0),
        r matches Err(CommandError::KeyExists(k)) ==> k@ == cmd.key@,
        (r is Err && !(r matches Err(CommandError::EmptyInput))) <==> (!(trim_seq(
            description@,
        ).len() == 0 && trim_seq(clipboard_text@).len() == 0) && store@.contains_key(cmd.key@)
            && !cmd.force),
        !(r matches Err(CommandError::NotFound(_))),
{
    let user_request = trim(description);
    let source_data = trim(clipboard_text);
    if user_request.as_str().is_empty() && source_data.as_str().is_empty() {
        return Err(CommandError::EmptyInput);
    }
    if store.contains(cmd.key.as_str()) && !cmd.force {
        return Err(CommandError::KeyExists(cmd.key.clone()));
    }
    Ok(TemplateBuildInput { user_request, source_data })
}

/// The template saved under `key`, or the refusal that names the missing key.
pub fn find_template<'a>(store: &'a TemplateStore, key: &str) -> (r: Result<
    &'a TemplateRecord,
    CommandError,
>)
    ensures
        r is Ok <==> store@.contains_key(key@),
        r matches Ok(rec) ==> *rec == store@[key@],
        r matches Err(e) ==> (e matches CommandError::NotFound(k) && k@ == key@),
{
    match store.get(key) {
        Some(rec) => Ok(rec),
        None => Err(CommandError::NotFound(key.to_owned())),
    }
}

/// Whether an optional name is the given one.
pub open spec fn name_is(name: Option<String>, expected: Seq<char>) -> bool {
    name matches Some(n) && n@ == expected
}

/// How many levels above the program's directory its project directory
/// lies, given the names of that directory and of each of its ancestors
/// (nearest first; absent where a component has no name): one where the
/// program lies in a `bin` directory that has a parent, two where it lies
/// in `target/release` and that has a parent, none otherwise.
pub open spec fn project_dir_depth_of(names: Seq<Option<String>>) -> Option<nat> {
    if names.len() >= 2 && name_is(names[0], "bin"@) {
        Some(1)
    } else if names.len() >= 3 && name_is(names[0], "release"@) && name_is(names[1], "target"@) {
        Some(2)
    } else {
        None
    }
}

/// Whether an optional name is the given one.
fn name_matches(name: &Option<String>, expected: &str) -> (b: bool)
    ensures
        b == name_is(*name, expected@),
{
    match name {
        Some(n) => {
            let a = chars_of(n.as_str());
            let b = chars_of(expected);
            chars_eq(a.as_slice(), b.as_slice())
        },
        None => false,
    }
}

/// The number of levels from the program's directory up to its project
/// directory, where the data directory lies; none where the data directory
/// is to be found in the working directory instead.
pub fn project_dir_depth(names: &[Option<String>]) -> (r: Option<usize>)
    ensures
        match r {
            Some(d) => project_dir_depth_of(names@) == Some(d as nat),
            None => project_dir_depth_of(names@) is None,
        },
{
    if names.len() >= 2 && name_matches(&names[0], "bin") {
        Some(1)
    } else if names.len() >= 3 && name_matches(&names[0], "release") && name_matches(
        &names[1],
        "target",
    ) {
        Some(2)
    } else {
        None
    }
}

} // verus!
