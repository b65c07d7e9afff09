//! Rendering of templates, the prompt that asks for a new template, and the
//! record built from the service's answer.

use vstd::prelude::*;

use crate::openai::ChatMessage;
use crate::store::TemplateRecord;
use crate::text::{
    chars_of, contains, contains_chars, decimal, decimal_chars, lemma_absent_by_first_char,
    lemma_decimal_has_no_dollar, lemma_decimal_injective, lemma_decimal_len_monotone,
    lemma_decimal_digits, lemma_decimal_value, lemma_replace_plain_prefix, is_digit,
    lemma_replace_absent, matches_at, opt_str_text, replace_all, replace_all_chars,
    starts_with, string_of, trim, trim_chars, trim_seq, extend_chars,
};

verus! {

/// The placeholder that stands for the clipboard text.
pub open spec fn paste_marker() -> Seq<char> {
    seq!['$', 'P', 'A', 'S', 'T', 'E']
}

/// The placeholder `$<n>` for the `n`-th positional parameter.
pub open spec fn placeholder(n: nat) -> Seq<char> {
    seq!['$'] + decimal(n)
}

/// `s` after replacing `$n`, `$n-1`, ..., `$1` in that order, each by the
/// parameter at its position (`$k` by `params[k - 1]`).
pub open spec fn replace_params(s: Seq<char>, params: Seq<Seq<char>>, n: nat) -> Seq<char>
    decreases n,
{
    if n == 0 {
        s
    } else {
        replace_params(
            replace_all(s, placeholder(n), params[n - 1]),
            params,
            (n - 1) as nat,
        )
    }
}

/// The texts of a list of strings.
pub open spec fn texts(params: Seq<String>) -> Seq<Seq<char>> {
    params.map_values(|p: String| p@)
}

/// The rendered template: `$PASTE` replaced by the clipboard text where
/// one is given, then the positional placeholders from the highest index
/// down, so that `$1` never takes the start of `$10`.
pub open spec fn rendered(
    template: Seq<char>,
    params: Seq<Seq<char>>,
    paste: Option<Seq<char>>,
) -> Seq<char> {
    let pasted = match paste {
        Some(p) => replace_all(template, paste_marker(), p),
        None => template,
    };
    replace_params(pasted, params, params.len())
}

/// The characters of `$PASTE`.
fn paste_marker_chars() -> (r: Vec<char>)
    ensures
        r@ == paste_marker(),
{
    let r: Vec<char> = vec!['$', 'P', 'A', 'S', 'T', 'E'];
    assert(r@ =~= paste_marker());
    r
}

/// The characters of the placeholder `$<n>`.
fn placeholder_chars(n: usize) -> (r: Vec<char>)
    ensures
        r@ == placeholder(n as nat),
        r@.len() > 0,
{
    let mut r: Vec<char> = vec!['$'];
    let digits = decimal_chars(n as u64);
    extend_chars(&mut r, digits.as_slice());
    assert(r@ =~= placeholder(n as nat));
    r
}

/// Whether the template uses the clipboard placeholder `$PASTE`.
pub fn template_uses_paste(template: &str) -> (b: bool)
    ensures
        b == contains(template@, paste_marker()),
{
    let t = chars_of(template);
    let marker = paste_marker_chars();
    contains_chars(t.as_slice(), marker.as_slice())
}

/// The instructions that open the conversation asking for a template.
pub const SYSTEM_PROMPT: &'static str = "Generate Templify template records. Return strictly valid JSON with exactly two fields: description and template.";

/// The guidance that closes the request for a template.
pub const PROMPT_INSTRUCTIONS: &'static str = "Interpret `user_request` as the intent for how input data should be transformed into a reusable template. \
Treat `data` as source content used to understand structure, variable parts, and what should become placeholders. \
Build the template according to user intent, not by copying the request text. \
The `description` field must be a short English description of what the final rendered data represents and what role runtime parameters play in this template. \
The description must focus on the template result, not on the generation process. \
The `template` field must be final render-ready output text only, with no extra explanations, labels, metadata, or markdown fences. \
The template may be technical or non-technical, but it must be usable by direct replacement only. \
Replacement is raw string substitution with no preprocessing, escaping, or type conversion. \
So template structure must already define correct placement context for placeholders (quotes, separators, wrappers, casting, and parameter position) to keep final output valid. \
For structured formats (SQL/JSON/query/config/code), keep exact syntax so direct replacement works correctly. \
Use `$PASTE` for clipboard text and `$1..$N` for positional runtime parameters when needed, and do not invent placeholders when they are not required. \
Do not copy literal `data` into `template` unless it is explicitly requested. \
Return only valid JSON with exactly these fields: {\"description\":\"...\",\"template\":\"...\"}";

/// What a new template is made from: the user's request and the data it is
/// about.
#[derive(Debug)]
pub struct TemplateBuildInput {
    pub user_request: String,
    pub source_data: String,
}

/// The fields that the chat service answers a template request with.
#[derive(Debug)]
pub struct TemplateGenerationPayload {
    pub description: String,
    pub template: String,
}

/// The request line of the prompt: the trimmed request, or `<empty>`.
pub open spec fn request_text(user_request: Seq<char>) -> Seq<char> {
    if trim_seq(user_request).len() == 0 {
        "<empty>"@
    } else {
        trim_seq(user_request)
    }
}

/// The data section of the prompt: the trimmed data under its heading, or a
/// note that there is none.
pub open spec fn data_section(source_data: Seq<char>) -> Seq<char> {
    if trim_seq(source_data).len() == 0 {
        "data: <empty>"@
    } else {
        "data (for understanding only; never copy literally):\n"@ + trim_seq(source_data)
    }
}

/// The user message that asks for a template.
pub open spec fn prompt_user_content(user_request: Seq<char>, source_data: Seq<char>) -> Seq<char> {
    "Input:\nuser_request: "@ + request_text(user_request) + "\n"@ + data_section(source_data)
        + "\n\n"@ + PROMPT_INSTRUCTIONS@
}

/// The conversation that asks the chat service for a template: the
/// instructions as the system message, then the request and its data.
pub fn build_prompt_messages(input: &TemplateBuildInput) -> (r: Vec<ChatMessage>)
    ensures
        r@.len() == 2,
        r@[0].role@ == "system"@,
        r@[0].content@ == SYSTEM_PROMPT@,
        r@[1].role@ == "user"@,
        r@[1].content@ == prompt_user_content(input.user_request@, input.source_data@),
        trim_seq(input.source_data@).len() > 0 ==> contains(
            r@[1].content@,
            "data (for understanding only; never copy literally):\n"@ + trim_seq(
                input.source_data@,
            ),
        ),
        trim_seq(input.user_request@).len() > 0 ==> starts_with(
            r@[1].content@,
            "Input:\nuser_request: "@ + trim_seq(input.user_request@) + "\n"@,
        ),
{
    proof {
        if trim_seq(input.source_data@).len() > 0 {
            law_prompt_carries_data(input.user_request@, input.source_data@);
        }
        if trim_seq(input.user_request@).len() > 0 {
            law_prompt_opens_with_request(input.user_request@, input.source_data@);
        }
    }
    let request = chars_of(input.user_request.as_str());
    let request = trim_chars(request.as_slice());
    let request_part = if request.len() == 0 {
        chars_of("<empty>")
    } else {
        request
    };
    let data = chars_of(input.source_data.as_str());
    let data = trim_chars(data.as_slice());
    let section = if data.len() == 0 {
        chars_of("data: <empty>")
    } else {
        let mut heading = chars_of("data (for understanding only; never copy literally):\n");
        extend_chars(&mut heading, data.as_slice());
        heading
    };
    let mut content = chars_of("Input:\nuser_request: ");
    extend_chars(&mut content, request_part.as_slice());
    let newline = chars_of("\n");
    extend_chars(&mut content, newline.as_slice());
    extend_chars(&mut content, section.as_slice());
    let blank_line = chars_of("\n\n");
    extend_chars(&mut content, blank_line.as_slice());
    let instructions = chars_of(PROMPT_INSTRUCTIONS);
    extend_chars(&mut content, instructions.as_slice());
    let mut messages: Vec<ChatMessage> = Vec::new();
    messages.push(ChatMessage::system(SYSTEM_PROMPT.to_owned()));
    messages.push(ChatMessage::user(string_of(content.as_slice())));
    messages
}

/// Renders and records templates.
pub struct TemplateService;

impl TemplateService {
    /// A service.
    pub fn new() -> (r: TemplateService) {
        TemplateService
    }

    /// The record saved under `key` for the service's answer: its
    /// description and template with surrounding whitespace removed, stamped
    /// with `created_at` (the current time, from `now_timestamp`).
    pub fn build_record(
        &self,
        key: &str,
        payload: &TemplateGenerationPayload,
        created_at: u64,
    ) -> (r: TemplateRecord)
        ensures
            r.key@ == key@,
            r.description@ == trim_seq(payload.description@),
            r.template@ == trim_seq(payload.template@),
            r.created_at == created_at,
    {
        let template = trim(payload.template.as_str());
        let description = trim(payload.description.as_str());
        TemplateRecord { key: key.to_owned(), description, template, created_at }
    }

    /// Fills in a template: `$PASTE` becomes the clipboard text where one is
    /// given, and `$1`, `$2`, ... become the positional parameters.
    pub fn render(&self, template: &str, params: &[String], paste: Option<&str>) -> (r: String)
        ensures
            r@ == rendered(template@, texts(params@), opt_str_text(paste)),
    {
        let ghost ps = texts(params@);
        let mut current = chars_of(template);
        match paste {
            Some(p) => {
                let value = chars_of(p);
                let marker = paste_marker_chars();
                current = replace_all_chars(current.as_slice(), marker.as_slice(), value.as_slice());
            },
            None => {},
        }
        let ghost pasted = current@;
        // Replace high indexes first to avoid "$1" mutating "$10".
        let mut index: usize = params.len();
        while index > 0
            invariant
                index <= params.len(),
                ps == texts(params@),
                replace_params(current@, ps, index as nat) == replace_params(
                    pasted,
                    ps,
                    params.len() as nat,
                ),
            decreases index,
        {
            let placeholder = placeholder_chars(index);
            let value = chars_of(params[index - 1].as_str());
            assert(value@ == ps[index - 1]);
            current = replace_all_chars(current.as_slice(), placeholder.as_slice(), value.as_slice());
            index -= 1;
        }
        string_of(current.as_slice())
    }
}

// ---------------------------------------------------------------------------
// Laws of rendering
// ---------------------------------------------------------------------------

/// Replacing placeholders leaves text that holds no `'$'` unchanged.
proof fn lemma_params_leave_plain_text(s: Seq<char>, params: Seq<Seq<char>>, n: nat)
    requires
        !s.contains('$'),
    ensures
        replace_params(s, params, n) == s,
    decreases n,
{
    if n > 0 {
        lemma_absent_by_first_char(s, placeholder(n));
        lemma_replace_absent(s, placeholder(n), params[n - 1]);
        lemma_params_leave_plain_text(s, params, (n - 1) as nat);
    }
}

/// A template without any `'$'` renders to itself, whatever the parameters
/// and the clipboard text.
pub proof fn law_plain_template_unchanged(
    template: Seq<char>,
    params: Seq<Seq<char>>,
    paste: Option<Seq<char>>,
)
    requires
        !template.contains('$'),
    ensures
        rendered(template, params, paste) == template,
{
    if let Some(p) = paste {
        lemma_absent_by_first_char(template, paste_marker());
        lemma_replace_absent(template, paste_marker(), p);
    }
    lemma_params_leave_plain_text(template, params, params.len());
}

/// The placeholder `$j` does not occur in the placeholder `$k` for `j > k`.
proof fn lemma_higher_placeholder_absent(j: nat, k: nat)
    requires
        j > k,
    ensures
        !contains(placeholder(k), placeholder(j)),
{
    lemma_decimal_len_monotone(k, j);
    lemma_decimal_has_no_dollar(k);
    let pk = placeholder(k);
    let pj = placeholder(j);
    assert forall|i: int| !matches_at(pk, pj, i) by {
        if matches_at(pk, pj, i) {
            if i > 0 {
                assert(pk.subrange(i, i + pj.len())[0] == pk[i]);
                assert(pk[i] == decimal(k)[i - 1]);
                assert(decimal(k).contains(pk[i]));
            } else {
                assert(pk.subrange(0, pj.len() as int) =~= pk);
                assert(decimal(j) =~= pj.drop_first());
                assert(decimal(k) =~= pk.drop_first());
                lemma_decimal_injective(j, k);
            }
        }
    }
}

/// Replacing the placeholders `$n` down to `$(k+1)` leaves `$k` as it is.
proof fn lemma_higher_params_skip(k: nat, params: Seq<Seq<char>>, n: nat)
    requires
        k <= n,
    ensures
        replace_params(placeholder(k), params, n) == replace_params(placeholder(k), params, k),
    decreases n,
{
    if n > k {
        lemma_higher_placeholder_absent(n, k);
        lemma_replace_absent(placeholder(k), placeholder(n), params[n - 1]);
        lemma_higher_params_skip(k, params, (n - 1) as nat);
    }
}

/// The template `$k` renders to the `k`-th parameter, provided no parameter
/// holds a `'$'`: the higher placeholders (`$10` beside `$1`) are replaced
/// first and the lower ones never reach into the inserted text.
pub proof fn law_placeholder_takes_its_parameter(params: Seq<Seq<char>>, k: nat)
    requires
        1 <= k <= params.len(),
        forall|i: int| 0 <= i < params.len() ==> !(#[trigger] params[i]).contains('$'),
    ensures
        rendered(placeholder(k), params, None) == params[k - 1],
{
    lemma_higher_params_skip(k, params, params.len());
    let pk = placeholder(k);
    assert(starts_with(pk, pk)) by {
        assert(pk.subrange(0, pk.len() as int) =~= pk);
    }
    assert(pk.skip(pk.len() as int) =~= Seq::<char>::empty());
    assert(replace_all(Seq::<char>::empty(), pk, params[k - 1]) =~= Seq::<char>::empty());
    assert(replace_all(pk, pk, params[k - 1]) == params[k - 1] + replace_all(
        Seq::<char>::empty(),
        pk,
        params[k - 1],
    ));
    assert(replace_all(pk, pk, params[k - 1]) =~= params[k - 1]);
    lemma_params_leave_plain_text(params[k - 1], params, (k - 1) as nat);
}

/// The template `$PASTE` renders to the clipboard text, provided it holds
/// no `'$'`, whatever the parameters.
pub proof fn law_paste_takes_clipboard(params: Seq<Seq<char>>, clipboard: Seq<char>)
    requires
        !clipboard.contains('$'),
    ensures
        rendered(paste_marker(), params, Some(clipboard)) == clipboard,
{
    let m = paste_marker();
    assert(starts_with(m, m)) by {
        assert(m.subrange(0, m.len() as int) =~= m);
    }
    assert(m.skip(m.len() as int) =~= Seq::<char>::empty());
    assert(replace_all(Seq::<char>::empty(), m, clipboard) =~= Seq::<char>::empty());
    assert(replace_all(m, m, clipboard) == clipboard + replace_all(
        Seq::<char>::empty(),
        m,
        clipboard,
    ));
    assert(replace_all(m, m, clipboard) =~= clipboard);
    lemma_params_leave_plain_text(clipboard, params, params.len());
}

/// A placeholder begins with `'$'`, is at least two characters long, and
/// holds nothing but digits after its `'$'`.
proof fn lemma_placeholder_shape(n: nat)
    ensures
        placeholder(n)[0] == '$',
        placeholder(n).len() >= 2,
        forall|k: int| 1 <= k < placeholder(n).len() ==> is_digit(#[trigger] placeholder(n)[k]),
{
    lemma_decimal_digits(n);
    lemma_decimal_value(n);
    assert forall|k: int| 1 <= k < placeholder(n).len() implies is_digit(
        #[trigger] placeholder(n)[k],
    ) by {
        assert(placeholder(n)[k] == decimal(n)[k - 1]);
    }
}

/// Replacing a placeholder works on the text before and the text after a
/// `$PASTE` separately and keeps the `$PASTE` between them: no placeholder
/// overlaps a `$PASTE`.
proof fn lemma_replace_splits_at_paste_marker(a: Seq<char>, b: Seq<char>, n: nat, rep: Seq<char>)
    ensures
        replace_all(a + paste_marker() + b, placeholder(n), rep) == replace_all(
            a,
            placeholder(n),
            rep,
        ) + paste_marker() + replace_all(b, placeholder(n), rep),
    decreases a.len(),
{
    let pat = placeholder(n);
    let m = paste_marker();
    let s = a + m + b;
    lemma_placeholder_shape(n);
    if a.len() == 0 {
        assert(s =~= m + b);
        if starts_with(s, pat) {
            assert(s[1] == s.subrange(0, pat.len() as int)[1]);
            assert(s[1] == 'P');
        }
        let p5 = seq!['P', 'A', 'S', 'T', 'E'];
        assert(s.drop_first() =~= p5 + b);
        assert(!p5.contains(pat[0])) by {
            assert forall|k: int| 0 <= k < 5 implies p5[k] != '$' by {}
        }
        lemma_replace_plain_prefix(p5, b, pat, rep);
        assert(replace_all(a, pat, rep) =~= Seq::<char>::empty());
        assert(seq![s[0]] + (p5 + replace_all(b, pat, rep)) =~= replace_all(a, pat, rep) + m
            + replace_all(b, pat, rep));
    } else if starts_with(s, pat) {
        if pat.len() > a.len() {
            let k = a.len() as int;
            assert(s[k] == s.subrange(0, pat.len() as int)[k]);
            assert(s[k] == '$');
            assert(is_digit(pat[k]));
        }
        assert(a.subrange(0, pat.len() as int) =~= s.subrange(0, pat.len() as int));
        assert(starts_with(a, pat));
        let rest = a.skip(pat.len() as int);
        assert(s.skip(pat.len() as int) =~= rest + m + b);
        lemma_replace_splits_at_paste_marker(rest, b, n, rep);
        assert(rep + (replace_all(rest, pat, rep) + m + replace_all(b, pat, rep)) =~= (rep
            + replace_all(rest, pat, rep)) + m + replace_all(b, pat, rep));
    } else {
        if starts_with(a, pat) {
            assert(a.subrange(0, pat.len() as int) =~= s.subrange(0, pat.len() as int));
        }
        let rest = a.drop_first();
        assert(s.drop_first() =~= rest + m + b);
        lemma_replace_splits_at_paste_marker(rest, b, n, rep);
        assert(s[0] == a[0]);
        assert(seq![a[0]] + (replace_all(rest, pat, rep) + m + replace_all(b, pat, rep)) =~= (
        seq![a[0]] + replace_all(rest, pat, rep)) + m + replace_all(b, pat, rep));
    }
}

/// Replacing the placeholders `$n` down to `$1` works on either side of a
/// `$PASTE` separately and keeps the `$PASTE`.
proof fn lemma_params_split_at_paste_marker(
    a: Seq<char>,
    b: Seq<char>,
    params: Seq<Seq<char>>,
    n: nat,
)
    ensures
        replace_params(a + paste_marker() + b, params, n) == replace_params(a, params, n)
            + paste_marker() + replace_params(b, params, n),
    decreases n,
{
    if n > 0 {
        lemma_replace_splits_at_paste_marker(a, b, n, params[n - 1]);
        lemma_params_split_at_paste_marker(
            replace_all(a, placeholder(n), params[n - 1]),
            replace_all(b, placeholder(n), params[n - 1]),
            params,
            (n - 1) as nat,
        );
    }
}

/// Without clipboard text, every `$PASTE` of a template is kept where it
/// stands: the text before it and the text after it render as each would
/// alone, with the `$PASTE` between them, whatever the parameters.
pub proof fn law_paste_marker_kept_without_clipboard(
    before: Seq<char>,
    after: Seq<char>,
    params: Seq<Seq<char>>,
)
    ensures
        rendered(before + paste_marker() + after, params, None) == rendered(before, params, None)
            + paste_marker() + rendered(after, params, None),
{
    lemma_params_split_at_paste_marker(before, after, params, params.len());
}

/// With no parameters and no clipboard text, a template renders to itself.
pub proof fn law_no_values_no_change(template: Seq<char>)
    ensures
        rendered(template, Seq::empty(), None) == template,
{
}

/// `$PASTE` holds its only `'$'` in front.
proof fn lemma_paste_marker_shape()
    ensures
        paste_marker().len() == 6,
        paste_marker()[0] == '$',
        forall|k: int| 1 <= k < 6 ==> #[trigger] paste_marker()[k] != '$',
{
    let m = paste_marker();
    assert(m[1] == 'P' && m[2] == 'A' && m[3] == 'S' && m[4] == 'T' && m[5] == 'E');
}

/// Replacing every `$PASTE` works on the text before and the text after one
/// `$PASTE` separately, and puts the replacement in its place.
#[verifier::rlimit(40)]
proof fn lemma_paste_splits(a: Seq<char>, b: Seq<char>, c: Seq<char>)
    ensures
        replace_all(a + paste_marker() + b, paste_marker(), c) == replace_all(
            a,
            paste_marker(),
            c,
        ) + c + replace_all(b, paste_marker(), c),
    decreases a.len(),
{
    let m = paste_marker();
    let s = a + m + b;
    lemma_paste_marker_shape();
    if a.len() == 0 {
        assert(s =~= m + b);
        assert(s.subrange(0, 6) =~= m);
        assert(s.skip(6) =~= b);
        assert(replace_all(a, m, c) =~= Seq::<char>::empty());
        assert(c + replace_all(b, m, c) =~= replace_all(a, m, c) + c + replace_all(b, m, c));
    } else if starts_with(s, m) {
        assert(a.len() >= 6) by {
            if a.len() < 6 {
                let k = a.len() as int;
                assert(s[k] == s.subrange(0, 6)[k]);
                assert(s[k] == m[0]);
                assert(m[k] != '$');
            }
        }
        assert(a.subrange(0, 6) =~= s.subrange(0, 6));
        assert(starts_with(a, m));
        let rest = a.skip(6);
        assert(s.skip(6) =~= rest + m + b);
        lemma_paste_splits(rest, b, c);
        assert(c + (replace_all(rest, m, c) + c + replace_all(b, m, c)) =~= (c + replace_all(
            rest,
            m,
            c,
        )) + c + replace_all(b, m, c));
    } else {
        if starts_with(a, m) {
            assert(a.subrange(0, 6) =~= s.subrange(0, 6));
        }
        let rest = a.drop_first();
        assert(s.drop_first() =~= rest + m + b);
        lemma_paste_splits(rest, b, c);
        assert(s[0] == a[0]);
        assert(seq![a[0]] + (replace_all(rest, m, c) + c + replace_all(b, m, c)) =~= (seq![a[0]]
            + replace_all(rest, m, c)) + c + replace_all(b, m, c));
    }
}

/// With clipboard text `c` and no parameters, every `$PASTE` becomes `c`:
/// the text before and the text after any one `$PASTE` render as each would
/// alone, with `c` in its place.
pub proof fn law_paste_fills_every_marker(before: Seq<char>, after: Seq<char>, c: Seq<char>)
    ensures
        rendered(before + paste_marker() + after, Seq::empty(), Some(c)) == rendered(
            before,
            Seq::empty(),
            Some(c),
        ) + c + rendered(after, Seq::empty(), Some(c)),
{
    lemma_paste_splits(before, after, c);
}

/// The data heading of the prompt.
pub open spec fn data_heading() -> Seq<char> {
    "data (for understanding only; never copy literally):\n"@
}

/// Whenever the trimmed data is not empty, the user message carries it
/// under its heading, whatever the request.
pub proof fn law_prompt_carries_data(user_request: Seq<char>, source_data: Seq<char>)
    requires
        trim_seq(source_data).len() > 0,
    ensures
        contains(
            prompt_user_content(user_request, source_data),
            data_heading() + trim_seq(source_data),
        ),
{
    let front = "Input:\nuser_request: "@ + request_text(user_request) + "\n"@;
    let part = data_heading() + trim_seq(source_data);
    let content = prompt_user_content(user_request, source_data);
    assert(content =~= front + part + ("\n\n"@ + PROMPT_INSTRUCTIONS@));
    assert(content.subrange(front.len() as int, (front.len() + part.len()) as int) =~= part);
    assert(matches_at(content, part, front.len() as int));
}

/// Whenever the trimmed request is not empty, the user message opens with it
/// on its request line, whatever the data.
pub proof fn law_prompt_opens_with_request(user_request: Seq<char>, source_data: Seq<char>)
    requires
        trim_seq(user_request).len() > 0,
    ensures
        starts_with(
            prompt_user_content(user_request, source_data),
            "Input:\nuser_request: "@ + trim_seq(user_request) + "\n"@,
        ),
{
    let line = "Input:\nuser_request: "@ + trim_seq(user_request) + "\n"@;
    let content = prompt_user_content(user_request, source_data);
    assert(content =~= line + (data_section(source_data) + "\n\n"@ + PROMPT_INSTRUCTIONS@));
    assert(content.subrange(0, line.len() as int) =~= line);
}

} // verus!
