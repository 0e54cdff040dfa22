use vstd::prelude::*;

use crate::ai::{AIEvaluation, AIProviderType};
use crate::json::{json_array_text, parse_texts, texts_of_json, texts_to_json};
use crate::config::ProviderConfig;
use crate::numeric::{signed_decimal_text, write_i32};
use crate::optimizations::{is_blank, trimmed};
use crate::parsers::{lower_of, parser_for, DocumentParser, DocumentParserFactory};
use crate::models::AIProvider;
use crate::text::{append_chars, chars_of, opt_text};

verus! {

/// The largest document accepted, in bytes.
pub const MAX_FILE_SIZE: usize = 104857600;

/// The number of characters of the first document kept as the snippet.
pub const SNIPPET_CHARS: usize = 500;

pub const TOO_LARGE_MESSAGE: &'static str = "File size exceeds maximum limit (100MB)";

pub const UNSUPPORTED_PREFIX: &'static str = "Unsupported file type: ";

/// The text after the last `.` of a file name, or the whole name when it
/// holds none.
pub open spec fn extension_of(name: Seq<char>) -> Seq<char>
    decreases name.len(),
{
    if name.len() == 0 {
        name
    } else if name.last() == '.' {
        Seq::empty()
    } else {
        extension_of(name.drop_last()).push(name.last())
    }
}

/// The extension of a file name.
pub fn file_extension(filename: &str) -> (r: String)
    ensures
        r@ == extension_of(filename@),
{
    let v = chars_of(filename);
    let mut start: usize = v.len();
    assert(v@.take(v.len() as int) == v@);
    assert(v@.subrange(v.len() as int, v.len() as int) == Seq::<char>::empty());
    assert(extension_of(v@) + Seq::<char>::empty() == extension_of(v@));
    while start > 0 && v[start - 1] != '.'
        invariant
            start <= v.len(),
            extension_of(v@) == extension_of(v@.take(start as int)) + v@.subrange(
                start as int,
                v.len() as int,
            ),
        decreases start,
    {
        let ghost p = v@.take(start as int);
        assert(p.drop_last() == v@.take(start - 1));
        assert(v@.subrange(start - 1, v.len() as int) == seq![p.last()] + v@.subrange(
            start as int,
            v.len() as int,
        ));
        start = start - 1;
    }
    proof {
        if start > 0 {
            assert(v@.take(start as int).last() == '.');
        }
    }
    let mut tail: Vec<char> = Vec::new();
    let mut k = start;
    while k < v.len()
        invariant
            start <= k <= v.len(),
            tail@ == v@.subrange(start as int, k as int),
        decreases v.len() - k,
    {
        tail.push(v[k]);
        k = k + 1;
    }
    let mut r = String::new();
    append_chars(&mut r, &tail);
    assert(extension_of(v@.take(start as int)) == Seq::<char>::empty());
    r
}

/// Why an upload is refused before it is stored.
#[derive(Debug, PartialEq, Eq)]
pub enum UploadRejection {
    /// No extractor handles the extension (given in lower case).
    UnsupportedType(String),
    /// The file exceeds the size limit.
    TooLarge,
}

/// Checks an upload by its name and size, and picks its extractor.
pub fn upload_format(filename: &str, size: usize) -> (r: Result<DocumentParser, UploadRejection>)
    ensures
        ({
            let ext = lower_of(extension_of(filename@));
            match parser_for(ext) {
                None => r matches Err(UploadRejection::UnsupportedType(e)) && e@ == ext,
                Some(p) => if size > MAX_FILE_SIZE {
                    r == Err::<DocumentParser, UploadRejection>(UploadRejection::TooLarge)
                } else {
                    r == Ok::<DocumentParser, UploadRejection>(p)
                },
            }
        }),
{
    let ext = file_extension(filename);
    let lower = crate::parsers::lowercase_text(ext.as_str());
    match DocumentParserFactory::parser_for_lowercase(lower.as_str()) {
        None => Err(UploadRejection::UnsupportedType(lower)),
        Some(p) => if size > MAX_FILE_SIZE {
            Err(UploadRejection::TooLarge)
        } else {
            Ok(p)
        },
    }
}

pub open spec fn texts_of(contents: Seq<Option<String>>) -> Seq<Option<Seq<char>>> {
    contents.map_values(|o: Option<String>| opt_text(o))
}

/// The documents' texts, each followed by a blank line.
pub open spec fn quiz_context(contents: Seq<Option<Seq<char>>>) -> Seq<char>
    decreases contents.len(),
{
    if contents.len() == 0 {
        Seq::empty()
    } else {
        quiz_context(contents.drop_last()) + match contents.last() {
            Some(t) => t + seq!['\n', '\n'],
            None => Seq::empty(),
        }
    }
}

/// The first text of the documents that is not empty, if any.
pub open spec fn first_text(contents: Seq<Option<Seq<char>>>) -> Option<Seq<char>>
    decreases contents.len(),
{
    if contents.len() == 0 {
        None
    } else {
        match first_text(contents.drop_last()) {
            Some(t) => Some(t),
            None => match contents.last() {
                Some(t) => if t.len() > 0 {
                    Some(t)
                } else {
                    None
                },
                None => None,
            },
        }
    }
}

/// The snippet shown with a question: the first 500 characters of the first
/// text, followed by `...` when that text is longer than 500 bytes.
pub open spec fn quiz_snippet(contents: Seq<Option<Seq<char>>>) -> Seq<char> {
    match first_text(contents) {
        Some(t) => t.take(if t.len() < 500 { t.len() as int } else { 500 }) + if vstd::utf8::encode_utf8(t).len() > 500 {
            "..."@
        } else {
            Seq::empty()
        },
        None => Seq::empty(),
    }
}

fn snippet_of(text: &String) -> (r: String)
    ensures
        r@ == text@.take(if text@.len() < 500 { text@.len() as int } else { 500 }) + if vstd::utf8::encode_utf8(text@).len() > 500 {
            "..."@
        } else {
            Seq::<char>::empty()
        },
{
    let v = chars_of(text.as_str());
    let n = if v.len() < SNIPPET_CHARS {
        v.len()
    } else {
        SNIPPET_CHARS
    };
    let mut head: Vec<char> = Vec::new();
    let mut i: usize = 0;
    while i < n
        invariant
            i <= n <= v.len(),
            head@ == v@.take(i as int),
        decreases n - i,
    {
        head.push(v[i]);
        i = i + 1;
    }
    let mut r = String::new();
    append_chars(&mut r, &head);
    if text.as_str().as_bytes().len() > SNIPPET_CHARS {
        r.append("...");
    } else {
        assert(r@ + Seq::<char>::empty() == r@);
    }
    r
}

/// The context that questions and grading are grounded in, and the snippet
/// stored with a question, from the documents' extracted texts in order.
pub fn build_quiz_context(contents: &Vec<Option<String>>) -> (r: (String, String))
    ensures
        r.0@ == quiz_context(texts_of(contents@)),
        r.1@ == quiz_snippet(texts_of(contents@)),
{
    let ghost views = texts_of(contents@);
    let mut context = String::new();
    let mut snippet = String::new();
    let mut found = false;
    let mut i: usize = 0;
    while i < contents.len()
        invariant
            i <= contents.len(),
            views == texts_of(contents@),
            context@ == quiz_context(views.take(i as int)),
            found == first_text(views.take(i as int)) is Some,
            snippet@ == quiz_snippet(views.take(i as int)),
        decreases contents.len() - i,
    {
        let ghost pre = views.take(i as int);
        assert(views.take(i + 1).drop_last() == pre);
        assert(views.take(i + 1).last() == views[i as int]);
        match &contents[i] {
            Some(t) => {
                context.append(t.as_str());
                context.append("\n\n");
                proof {
                    reveal_strlit("\n\n");
                }
                assert(context@ == quiz_context(pre) + (t@ + seq!['\n', '\n']));
                if !found && t.as_str().as_bytes().len() > 0 {
                    snippet = snippet_of(t);
                    found = true;
                }
            },
            None => {},
        }
        i = i + 1;
    }
    assert(views.take(contents.len() as int) == views);
    (context, snippet)
}

/// Whether a context holds more than white space.
pub fn context_is_usable(context: &str) -> (r: bool)
    ensures
        r == (trimmed(context@).len() > 0),
{
    !is_blank(context)
}

pub const OPENAI_MESSAGE: &'static str = "OpenAI provider not yet implemented";

pub const NO_API_KEY_MESSAGE: &'static str = "API key not configured for DeepSeek";

pub const NO_API_URL_MESSAGE: &'static str = "API URL not configured for Local AI";

/// Why stored settings name no provider that can be built.
#[derive(Debug, PartialEq, Eq)]
pub enum SettingsIssue {
    /// The provider has no client yet.
    NotImplemented(String),
    /// A setting the provider needs is missing.
    Missing(String),
}

/// The settings that a provider's factory is handed: the credential or the
/// address, the model when one is stored, the output-token bound and the
/// temperature as text.
pub fn provider_settings(
    provider: AIProvider,
    api_key: Option<String>,
    api_url: Option<String>,
    model_name: Option<String>,
    max_tokens: i32,
    temperature: String,
) -> (r: Result<(AIProviderType, ProviderConfig), SettingsIssue>)
    ensures
        provider == AIProvider::OpenAI ==> r matches Err(SettingsIssue::NotImplemented(_)),
        provider == AIProvider::DeepSeek && api_key is None ==> r matches Err(SettingsIssue::Missing(_)),
        provider == AIProvider::Local && api_url is None ==> r matches Err(SettingsIssue::Missing(_)),
        provider == AIProvider::DeepSeek && api_key is Some ==> (r matches Ok((t, c)) && t == AIProviderType::DeepSeek
            && c.setting("api_key"@) == Some(api_key->0@)),
        provider == AIProvider::Local && api_url is Some ==> (r matches Ok((t, c)) && t == AIProviderType::Local
            && c.setting("api_url"@) == Some(api_url->0@)),
        r matches Ok((t, c)) ==> c.setting("max_tokens"@) == Some(signed_decimal_text(max_tokens as int))
            && c.setting("temperature"@) == Some(temperature@) && c.setting("model"@) == opt_text(model_name),
{
    proof {
        reveal_strlit("api_key");
        reveal_strlit("api_url");
        reveal_strlit("model");
        reveal_strlit("max_tokens");
        reveal_strlit("temperature");
        assert("api_key"@.len() == 7);
        assert("api_url"@.len() == 7);
        assert("model"@.len() == 5);
        assert("max_tokens"@.len() == 10);
        assert("temperature"@.len() == 11);
    }
    let mut config = ProviderConfig::new();
    let kind = match provider {
        AIProvider::OpenAI => {
            return Err(SettingsIssue::NotImplemented(OPENAI_MESSAGE.to_string()));
        },
        AIProvider::DeepSeek => match api_key {
            Some(key) => {
                config.insert("api_key".to_string(), key);
                AIProviderType::DeepSeek
            },
            None => {
                return Err(SettingsIssue::Missing(NO_API_KEY_MESSAGE.to_string()));
            },
        },
        AIProvider::Local => match api_url {
            Some(url) => {
                config.insert("api_url".to_string(), url);
                AIProviderType::Local
            },
            None => {
                return Err(SettingsIssue::Missing(NO_API_URL_MESSAGE.to_string()));
            },
        },
    };
    match model_name {
        Some(m) => config.insert("model".to_string(), m),
        None => {},
    }
    let mut tokens = String::new();
    write_i32(max_tokens, &mut tokens);
    assert(Seq::<char>::empty() + signed_decimal_text(max_tokens as int) == signed_decimal_text(max_tokens as int));
    config.insert("max_tokens".to_string(), tokens);
    config.insert("temperature".to_string(), temperature);
    Ok((kind, config))
}

pub const DEEPSEEK_KEY_REQUIRED: &'static str = "API key is required for DeepSeek provider";

pub const LOCAL_URL_REQUIRED: &'static str = "API URL is required for Local AI provider";

pub const OPENAI_KEY_REQUIRED: &'static str = "API key is required for OpenAI provider";

pub open spec fn present(o: Option<String>) -> bool {
    o is Some && trimmed(o->0@).len() > 0
}

/// Checks that settings about to be saved carry what their provider needs:
/// a key that is not blank for the hosted services, an address that is not
/// blank for the self-hosted one.
pub fn check_provider_requirements(
    provider: AIProvider,
    api_key: &Option<String>,
    api_url: &Option<String>,
) -> (r: Result<(), String>)
    ensures
        r is Ok <==> match provider {
            AIProvider::DeepSeek => present(*api_key),
            AIProvider::Local => present(*api_url),
            AIProvider::OpenAI => present(*api_key),
        },
        r matches Err(m) ==> m@ == match provider {
            AIProvider::DeepSeek => DEEPSEEK_KEY_REQUIRED@,
            AIProvider::Local => LOCAL_URL_REQUIRED@,
            AIProvider::OpenAI => OPENAI_KEY_REQUIRED@,
        },
{
    let (value, message) = match provider {
        AIProvider::DeepSeek => (api_key, DEEPSEEK_KEY_REQUIRED),
        AIProvider::Local => (api_url, LOCAL_URL_REQUIRED),
        AIProvider::OpenAI => (api_key, OPENAI_KEY_REQUIRED),
    };
    match value {
        Some(v) => if is_blank(v.as_str()) {
            Err(message.to_string())
        } else {
            Ok(())
        },
        None => Err(message.to_string()),
    }
}

/// The grade of an answer as it is stored.
pub struct StoredGrade {
    pub ai_score: i32,
    pub ai_feedback: String,
    pub ai_suggestions: String,
}

/// Flattens an evaluation into the fields stored with an answer; the
/// suggestions are kept as a JSON array.
pub fn stored_grade(evaluation: AIEvaluation) -> (r: StoredGrade)
    ensures
        r.ai_score == evaluation.score as i32,
        r.ai_feedback@ == evaluation.feedback@,
        r.ai_suggestions@ == json_array_text(evaluation.suggestions@.map_values(|s: String| s@)),
{
    let ai_suggestions = texts_to_json(&evaluation.suggestions);
    StoredGrade { ai_score: evaluation.score as i32, ai_feedback: evaluation.feedback, ai_suggestions }
}

/// The suggestions read back from what is stored with an answer: none when
/// nothing is stored, the texts of a stored JSON array of strings, or else the
/// stored text itself as the one suggestion.
pub open spec fn suggestions_of(stored: Option<Seq<char>>) -> Seq<Seq<char>> {
    match stored {
        None => Seq::empty(),
        Some(s) => match texts_of_json(s) {
            Some(v) => v,
            None => seq![s],
        },
    }
}

/// The suggestions stored with an answer; see `suggestions_of`.
pub fn stored_suggestions(stored: Option<String>) -> (r: Vec<String>)
    ensures
        r@.map_values(|s: String| s@) == suggestions_of(opt_text(stored)),
        forall|w: Seq<Seq<char>>| stored is Some && #[trigger] json_array_text(w) == stored->0@ ==> r@.map_values(
            |s: String| s@,
        ) == w,
{
    match stored {
        None => {
            let r: Vec<String> = Vec::new();
            assert(r@.map_values(|s: String| s@) =~= Seq::<Seq<char>>::empty());
            r
        },
        Some(s) => match parse_texts(s.as_str()) {
            Some(v) => v,
            None => {
                let mut v: Vec<String> = Vec::new();
                v.push(s);
                assert(v@.map_values(|t: String| t@) =~= suggestions_of(opt_text(Some(s))));
                v
            },
        },
    }
}

} // verus!
