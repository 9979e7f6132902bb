//! Translation requests: which call each provider takes, with which address, fields
//! and signature, and how its answer becomes the translated text.
//!
//! The HTTP client stays with the caller. It sends the call `plan_translation`
//! describes, checks the status with `check_response`, takes the fields the provider
//! answers with out of the JSON, and hands them to the function for that provider.
use vstd::prelude::*;
use crate::hashing::{lower_hex, md5_digest, md5_hex};
use crate::merge_paste::{join_strings, join_with};
use crate::text::{
    append_chars, byte_len, byte_len_of, chars_eq, chars_of, string_of, string_views, trim,
    trim_chars,
};

verus! {

// ------------------------------------------------------------------ URL encoding

/// Bytes that URL encoding keeps as they are: ASCII letters and digits, `-`, `.`,
/// `_` and `~`.
pub open spec fn is_url_safe_byte(b: u8) -> bool {
    (48 <= b <= 57) || (65 <= b <= 90) || (97 <= b <= 122) || b == 45 || b == 46 || b == 95
        || b == 126
}

/// The uppercase hexadecimal digit of `d` (below 16).
pub open spec fn upper_hex_digit(d: nat) -> char {
    if d < 10 {
        ((d + 48) as u8) as char
    } else {
        ((d + 55) as u8) as char
    }
}

/// Percent-encoding: safe bytes as themselves, every other byte as `%` and two
/// uppercase hexadecimal digits.
pub open spec fn percent_encode(bytes: Seq<u8>) -> Seq<char>
    decreases bytes.len(),
{
    if bytes.len() == 0 {
        seq![]
    } else {
        let b = bytes.last();
        percent_encode(bytes.drop_last()) + if is_url_safe_byte(b) {
            seq![b as char]
        } else {
            seq!['%', upper_hex_digit((b / 16) as nat), upper_hex_digit((b % 16) as nat)]
        }
    }
}

/// Calls `urlencoding::encode`.
///
/// Trusted: the crate percent-encodes every byte of the UTF-8 text except ASCII
/// letters, digits, `-`, `.`, `_` and `~`, writing the hexadecimal digits in
/// uppercase.
#[verifier::external_body]
fn url_encode(text: &str) -> (e: String)
    ensures
        e@ == percent_encode(vstd::utf8::encode_utf8(text@)),
{
    urlencoding::encode(text).into_owned()
}

// ------------------------------------------------------------------ helpers

fn push_str(out: &mut Vec<char>, s: &str)
    ensures
        final(out)@ == old(out)@ + s@,
{
    let c = chars_of(s);
    append_chars(out, c.as_slice());
}

fn str_is(s: &str, lit: &str) -> (b: bool)
    ensures
        b == (s@ == lit@),
{
    let a = chars_of(s);
    let l = chars_of(lit);
    chars_eq(a.as_slice(), l.as_slice())
}

/// The text of an optional setting, empty when unset.
pub open spec fn or_empty(o: Option<String>) -> Seq<char> {
    match o {
        Some(s) => s@,
        None => seq![],
    }
}

fn text_of(o: &Option<String>) -> (s: String)
    ensures
        s@ == or_empty(*o),
{
    match o {
        Some(s) => s.clone(),
        None => String::new(),
    }
}

// ------------------------------------------------------------------ the calls

/// The settings that some providers need (each unset when not configured).
#[derive(Debug, Clone)]
pub struct TranslateOptions {
    pub deeplx_endpoint: Option<String>,
    pub google_api_key: Option<String>,
    pub baidu_app_id: Option<String>,
    pub baidu_secret_key: Option<String>,
    pub openai_endpoint: Option<String>,
    pub openai_api_key: Option<String>,
    pub openai_model: Option<String>,
}

/// The call to make for a translation.
#[derive(Debug, Clone, PartialEq, Eq)]
pub enum TranslateCall {
    /// Fetch a token from the Edge endpoint, then post `[{"Text": text}]` to `url`
    /// with it.
    Microsoft { url: String, text: String },
    /// Post `{"text", "source_lang", "target_lang"}` to the endpoint.
    DeepLx { endpoint: String, text: String, source_lang: String, target_lang: String },
    /// Get `url`.
    GoogleFree { url: String },
    /// Post `{"q": text, "target", "format": "text"}` (with `"source"` when given) to
    /// `url`.
    GoogleApi { url: String, text: String, target: String, source: Option<String> },
    /// Post these form fields to the Baidu endpoint.
    Baidu { params: Vec<(String, String)> },
    /// Post a chat completion (the system prompt, then the text) to `url`.
    OpenAi { url: String, api_key: String, model: String, system_prompt: String, text: String },
}

/// A call, as plain text.
pub enum CallView {
    Microsoft { url: Seq<char>, text: Seq<char> },
    DeepLx {
        endpoint: Seq<char>,
        text: Seq<char>,
        source_lang: Seq<char>,
        target_lang: Seq<char>,
    },
    GoogleFree { url: Seq<char> },
    GoogleApi { url: Seq<char>, text: Seq<char>, target: Seq<char>, source: Option<Seq<char>> },
    Baidu { params: Seq<(Seq<char>, Seq<char>)> },
    OpenAi {
        url: Seq<char>,
        api_key: Seq<char>,
        model: Seq<char>,
        system_prompt: Seq<char>,
        text: Seq<char>,
    },
}

pub open spec fn pair_views(p: Seq<(String, String)>) -> Seq<(Seq<char>, Seq<char>)> {
    Seq::new(p.len(), |i: int| (p[i].0@, p[i].1@))
}

pub open spec fn opt_view(o: Option<String>) -> Option<Seq<char>> {
    match o {
        Some(s) => Some(s@),
        None => None,
    }
}

impl View for TranslateCall {
    type V = CallView;

    open spec fn view(&self) -> CallView {
        match self {
            TranslateCall::Microsoft { url, text } => CallView::Microsoft {
                url: url@,
                text: text@,
            },
            TranslateCall::DeepLx { endpoint, text, source_lang, target_lang } => CallView::DeepLx {
                endpoint: endpoint@,
                text: text@,
                source_lang: source_lang@,
                target_lang: target_lang@,
            },
            TranslateCall::GoogleFree { url } => CallView::GoogleFree { url: url@ },
            TranslateCall::GoogleApi { url, text, target, source } => CallView::GoogleApi {
                url: url@,
                text: text@,
                target: target@,
                source: opt_view(*source),
            },
            TranslateCall::Baidu { params } => CallView::Baidu { params: pair_views(params@) },
            TranslateCall::OpenAi { url, api_key, model, system_prompt, text } => CallView::OpenAi {
                url: url@,
                api_key: api_key@,
                model: model@,
                system_prompt: system_prompt@,
                text: text@,
            },
        }
    }
}

/// The Microsoft translation address: to `to`, from `from` unless it is `auto` or
/// empty.
pub open spec fn microsoft_url_spec(from: Seq<char>, to: Seq<char>) -> Seq<char> {
    let base = "https://api-edge.cognitive.microsofttranslator.com/translate?api-version=3.0&to="@
        + to;
    if from == "auto"@ || from.len() == 0 {
        base
    } else {
        base + "&from="@ + from
    }
}

/// The address of Google's free translation, with the text URL-encoded.
pub open spec fn google_free_url_spec(text: Seq<char>, from: Seq<char>, to: Seq<char>) -> Seq<
    char,
> {
    "https://translate.googleapis.com/translate_a/single?client=gtx&sl="@ + from + "&tl="@ + to
        + "&dt=t&q="@ + percent_encode(vstd::utf8::encode_utf8(text))
}

/// The language Baidu knows by another code, or the code itself.
pub open spec fn baidu_lang_spec(lang: Seq<char>) -> Seq<char> {
    if lang == "ja"@ {
        "jp"@
    } else if lang == "ko"@ {
        "kor"@
    } else if lang == "fr"@ {
        "fra"@
    } else if lang == "es"@ {
        "spa"@
    } else if lang == "ar"@ {
        "ara"@
    } else if lang == "vi"@ {
        "vie"@
    } else {
        lang
    }
}

/// The Baidu signature: the MD5 of app id, text, salt and key, in lowercase hex.
pub open spec fn baidu_sign_spec(
    app_id: Seq<char>,
    text: Seq<char>,
    salt: Seq<char>,
    key: Seq<char>,
) -> Seq<char> {
    lower_hex(md5_digest(vstd::utf8::encode_utf8(app_id + text + salt + key)))
}

/// `s` without the `/` characters at its end.
pub open spec fn trim_end_slashes(s: Seq<char>) -> Seq<char>
    decreases s.len(),
{
    if s.len() > 0 && s.last() == '/' {
        trim_end_slashes(s.drop_last())
    } else {
        s
    }
}

/// The chat-completion address: the endpoint (OpenAI's when empty) without trailing
/// slashes, then `/chat/completions`.
pub open spec fn openai_url_spec(endpoint: Seq<char>) -> Seq<char> {
    (if endpoint.len() == 0 {
        "https://api.openai.com/v1"@
    } else {
        trim_end_slashes(endpoint)
    }) + "/chat/completions"@
}

/// The instructions given to the model.
pub open spec fn system_prompt_spec(from: Seq<char>, to: Seq<char>) -> Seq<char> {
    "You are a professional translator. Translate the following text from "@ + (if from
        == "auto"@ {
        "auto-detected language"@
    } else {
        from
    }) + " to "@ + to + ". Only output the translation, no explanations."@
}

/// The call for a translation of `text` from `from` to `to` with `provider`, or the
/// message that says what is missing. Baidu's request is salted with `salt`.
pub open spec fn plan_spec(
    provider: Seq<char>,
    text: Seq<char>,
    from: Seq<char>,
    to: Seq<char>,
    o: TranslateOptions,
    salt: Seq<char>,
) -> Result<CallView, Seq<char>> {
    if provider == "microsoft"@ {
        Ok(CallView::Microsoft { url: microsoft_url_spec(from, to), text })
    } else if provider == "deeplx"@ {
        let endpoint = trim(or_empty(o.deeplx_endpoint));
        if endpoint.len() == 0 {
            Err("请在设置中填写 DeepLX 请求地址"@)
        } else {
            Ok(
                CallView::DeepLx {
                    endpoint,
                    text,
                    source_lang: if from == "auto"@ {
                        seq![]
                    } else {
                        from
                    },
                    target_lang: to,
                },
            )
        }
    } else if provider == "google_free"@ {
        Ok(CallView::GoogleFree { url: google_free_url_spec(text, from, to) })
    } else if provider == "google_api"@ {
        let key = or_empty(o.google_api_key);
        if key.len() == 0 {
            Err("请在设置中填写 Google API Key"@)
        } else {
            Ok(
                CallView::GoogleApi {
                    url: "https://translation.googleapis.com/language/translate/v2?key="@ + key,
                    text,
                    target: to,
                    source: if from == "auto"@ || from.len() == 0 {
                        None
                    } else {
                        Some(from)
                    },
                },
            )
        }
    } else if provider == "baidu"@ {
        let app_id = or_empty(o.baidu_app_id);
        let key = or_empty(o.baidu_secret_key);
        if app_id.len() == 0 || key.len() == 0 {
            Err("请在设置中填写百度翻译 APP ID 和密钥"@)
        } else {
            Ok(
                CallView::Baidu {
                    params: seq![
                        ("q"@, text),
                        ("from"@, baidu_lang_spec(from)),
                        ("to"@, baidu_lang_spec(to)),
                        ("appid"@, app_id),
                        ("salt"@, salt),
                        ("sign"@, baidu_sign_spec(app_id, text, salt, key)),
                    ],
                },
            )
        }
    } else if provider == "openai"@ {
        let key = or_empty(o.openai_api_key);
        let model = or_empty(o.openai_model);
        if key.len() == 0 {
            Err("请在设置中填写 API Key"@)
        } else {
            Ok(
                CallView::OpenAi {
                    url: openai_url_spec(or_empty(o.openai_endpoint)),
                    api_key: key,
                    model: if model.len() == 0 {
                        "gpt-4o-mini"@
                    } else {
                        model
                    },
                    system_prompt: system_prompt_spec(from, to),
                    text,
                },
            )
        }
    } else {
        Err("不支持的翻译提供者: "@ + provider)
    }
}

/// The Microsoft translation address.
pub fn microsoft_url(from: &str, to: &str) -> (u: String)
    ensures
        u@ == microsoft_url_spec(from@, to@),
{
    let mut out = chars_of("https://api-edge.cognitive.microsofttranslator.com/translate?api-version=3.0&to=");
    push_str(&mut out, to);
    if !(str_is(from, "auto") || from.is_empty()) {
        push_str(&mut out, "&from=");
        push_str(&mut out, from);
    }
    string_of(out.as_slice())
}

/// The address of Google's free translation.
pub fn google_free_url(text: &str, from: &str, to: &str) -> (u: String)
    ensures
        u@ == google_free_url_spec(text@, from@, to@),
{
    let mut out = chars_of("https://translate.googleapis.com/translate_a/single?client=gtx&sl=");
    push_str(&mut out, from);
    push_str(&mut out, "&tl=");
    push_str(&mut out, to);
    push_str(&mut out, "&dt=t&q=");
    let q = url_encode(text);
    push_str(&mut out, q.as_str());
    string_of(out.as_slice())
}

/// The code Baidu uses for a language.
pub fn baidu_lang(lang: &str) -> (l: String)
    ensures
        l@ == baidu_lang_spec(lang@),
{
    if str_is(lang, "ja") {
        "jp".to_owned()
    } else if str_is(lang, "ko") {
        "kor".to_owned()
    } else if str_is(lang, "fr") {
        "fra".to_owned()
    } else if str_is(lang, "es") {
        "spa".to_owned()
    } else if str_is(lang, "ar") {
        "ara".to_owned()
    } else if str_is(lang, "vi") {
        "vie".to_owned()
    } else {
        lang.to_owned()
    }
}

/// The Baidu signature of a request.
pub fn baidu_sign(app_id: &str, text: &str, salt: &str, key: &str) -> (s: String)
    ensures
        s@ == baidu_sign_spec(app_id@, text@, salt@, key@),
{
    let mut all = chars_of(app_id);
    push_str(&mut all, text);
    push_str(&mut all, salt);
    push_str(&mut all, key);
    let joined = string_of(all.as_slice());
    md5_hex(joined.as_str().as_bytes())
}

fn trim_end_slashes_chars(s: &[char]) -> (out: Vec<char>)
    ensures
        out@ == trim_end_slashes(s@),
{
    let mut end: usize = s.len();
    assert(s@.take(end as int) =~= s@);
    while end > 0 && s[end - 1] == '/'
        invariant
            end <= s@.len(),
            trim_end_slashes(s@.take(end as int)) == trim_end_slashes(s@),
        decreases end,
    {
        assert(s@.take(end as int).drop_last() =~= s@.take(end - 1));
        end = end - 1;
    }
    let mut out: Vec<char> = Vec::new();
    let mut i: usize = 0;
    while i < end
        invariant
            i <= end <= s@.len(),
            out@ == s@.take(i as int),
        decreases end - i,
    {
        out.push(s[i]);
        i += 1;
        assert(out@ =~= s@.take(i as int));
    }
    assert(out@ =~= s@.take(end as int));
    out
}

/// The chat-completion address for an endpoint setting.
pub fn openai_url(endpoint: &str) -> (u: String)
    ensures
        u@ == openai_url_spec(endpoint@),
{
    let mut out = if endpoint.is_empty() {
        chars_of("https://api.openai.com/v1")
    } else {
        let e = chars_of(endpoint);
        trim_end_slashes_chars(e.as_slice())
    };
    push_str(&mut out, "/chat/completions");
    string_of(out.as_slice())
}

/// The instructions given to the model.
pub fn system_prompt(from: &str, to: &str) -> (p: String)
    ensures
        p@ == system_prompt_spec(from@, to@),
{
    let mut out = chars_of("You are a professional translator. Translate the following text from ");
    if str_is(from, "auto") {
        push_str(&mut out, "auto-detected language");
    } else {
        push_str(&mut out, from);
    }
    push_str(&mut out, " to ");
    push_str(&mut out, to);
    push_str(&mut out, ". Only output the translation, no explanations.");
    string_of(out.as_slice())
}

fn cat(a: &str, b: &str) -> (s: String)
    ensures
        s@ == a@ + b@,
{
    let mut out = chars_of(a);
    push_str(&mut out, b);
    string_of(out.as_slice())
}

/// The call for a translation (see `plan_spec`); `salt` salts Baidu's signature.
pub fn plan_translation(
    provider: &str,
    text: &str,
    from: &str,
    to: &str,
    options: &TranslateOptions,
    salt: &str,
) -> (r: Result<TranslateCall, String>)
    ensures
        match r {
            Ok(c) => plan_spec(provider@, text@, from@, to@, *options, salt@) == Ok::<
                CallView,
                Seq<char>,
            >(c@),
            Err(e) => plan_spec(provider@, text@, from@, to@, *options, salt@) == Err::<
                CallView,
                Seq<char>,
            >(e@),
        },
{
    if str_is(provider, "microsoft") {
        Ok(TranslateCall::Microsoft { url: microsoft_url(from, to), text: text.to_owned() })
    } else if str_is(provider, "deeplx") {
        let raw = text_of(&options.deeplx_endpoint);
        let rc = chars_of(raw.as_str());
        let e = trim_chars(rc.as_slice());
        if e.len() == 0 {
            Err("请在设置中填写 DeepLX 请求地址".to_owned())
        } else {
            let source_lang = if str_is(from, "auto") {
                String::new()
            } else {
                from.to_owned()
            };
            Ok(
                TranslateCall::DeepLx {
                    endpoint: string_of(e.as_slice()),
                    text: text.to_owned(),
                    source_lang,
                    target_lang: to.to_owned(),
                },
            )
        }
    } else if str_is(provider, "google_free") {
        Ok(TranslateCall::GoogleFree { url: google_free_url(text, from, to) })
    } else if str_is(provider, "google_api") {
        let key = text_of(&options.google_api_key);
        if key.as_str().is_empty() {
            Err("请在设置中填写 Google API Key".to_owned())
        } else {
            let source = if str_is(from, "auto") || from.is_empty() {
                None
            } else {
                Some(from.to_owned())
            };
            Ok(
                TranslateCall::GoogleApi {
                    url: cat(
                        "https://translation.googleapis.com/language/translate/v2?key=",
                        key.as_str(),
                    ),
                    text: text.to_owned(),
                    target: to.to_owned(),
                    source,
                },
            )
        }
    } else if str_is(provider, "baidu") {
        let app_id = text_of(&options.baidu_app_id);
        let key = text_of(&options.baidu_secret_key);
        if app_id.as_str().is_empty() || key.as_str().is_empty() {
            Err("请在设置中填写百度翻译 APP ID 和密钥".to_owned())
        } else {
            let sign = baidu_sign(app_id.as_str(), text, salt, key.as_str());
            let params = vec![
                ("q".to_owned(), text.to_owned()),
                ("from".to_owned(), baidu_lang(from)),
                ("to".to_owned(), baidu_lang(to)),
                ("appid".to_owned(), app_id),
                ("salt".to_owned(), salt.to_owned()),
                ("sign".to_owned(), sign),
            ];
            assert(pair_views(params@) =~= seq![
                ("q"@, text@),
                ("from"@, baidu_lang_spec(from@)),
                ("to"@, baidu_lang_spec(to@)),
                ("appid"@, or_empty(options.baidu_app_id)),
                ("salt"@, salt@),
                ("sign"@, baidu_sign_spec(or_empty(options.baidu_app_id), text@, salt@, or_empty(options.baidu_secret_key))),
            ]);
            Ok(TranslateCall::Baidu { params })
        }
    } else if str_is(provider, "openai") {
        let key = text_of(&options.openai_api_key);
        if key.as_str().is_empty() {
            Err("请在设置中填写 API Key".to_owned())
        } else {
            let model = text_of(&options.openai_model);
            let model = if model.as_str().is_empty() {
                "gpt-4o-mini".to_owned()
            } else {
                model
            };
            let endpoint = text_of(&options.openai_endpoint);
            Ok(
                TranslateCall::OpenAi {
                    url: openai_url(endpoint.as_str()),
                    api_key: key,
                    model,
                    system_prompt: system_prompt(from, to),
                    text: text.to_owned(),
                },
            )
        }
    } else {
        Err(cat("不支持的翻译提供者: ", provider))
    }
}

// ------------------------------------------------------------------ the answers

/// The body of an answer, or the provider's error with the status and the body.
pub fn check_response(provider: &str, status_ok: bool, status: &str, body: String) -> (r: Result<
    String,
    String,
>)
    ensures
        match r {
            Ok(b) => status_ok && b@ == body@,
            Err(e) => !status_ok && e@ == provider@ + "错误 ("@ + status@ + "): "@ + body@,
        },
{
    if status_ok {
        Ok(body)
    } else {
        let mut out = chars_of(provider);
        push_str(&mut out, "错误 (");
        push_str(&mut out, status);
        push_str(&mut out, "): ");
        push_str(&mut out, body.as_str());
        Err(string_of(out.as_slice()))
    }
}

/// The Microsoft token, refused when shorter than 20 bytes (`str::len`).
pub fn check_microsoft_token(token: String) -> (r: Result<String, String>)
    ensures
        match r {
            Ok(t) => (byte_len(token@) as usize) >= 20 && t@ == token@,
            Err(e) => (byte_len(token@) as usize) < 20 && e@ == "获取微软翻译 token 异常: "@ + token@,
        },
{
    if byte_len_of(token.as_str()) < 20 {
        Err(cat("获取微软翻译 token 异常: ", token.as_str()))
    } else {
        Ok(token)
    }
}

/// The text of an answer field, or the message that the answer has another shape.
pub fn field_text(field: Option<String>) -> (r: Result<String, String>)
    ensures
        match field {
            Some(t) => r matches Ok(s) && s@ == t@,
            None => r matches Err(e) && e@ == "翻译结果格式异常"@,
        },
{
    match field {
        Some(t) => Ok(t),
        None => Err("翻译结果格式异常".to_owned()),
    }
}

/// The model's answer, trimmed.
pub fn openai_text(content: Option<String>) -> (r: Result<String, String>)
    ensures
        match content {
            Some(t) => r matches Ok(s) && s@ == trim(t@),
            None => r matches Err(e) && e@ == "翻译结果格式异常"@,
        },
{
    match content {
        Some(t) => {
            let c = chars_of(t.as_str());
            let tr = trim_chars(c.as_slice());
            Ok(string_of(tr.as_slice()))
        },
        None => Err("翻译结果格式异常".to_owned()),
    }
}

/// The texts present, one after the other.
pub open spec fn concat_present(parts: Seq<Option<String>>) -> Seq<char>
    decreases parts.len(),
{
    if parts.len() == 0 {
        seq![]
    } else {
        concat_present(parts.drop_last()) + match parts.last() {
            Some(t) => t@,
            None => seq![],
        }
    }
}

/// Google's free answer: the sentences' texts one after the other; an error when
/// that is empty.
pub fn google_free_text(sentences: Vec<Option<String>>) -> (r: Result<String, String>)
    ensures
        concat_present(sentences@).len() == 0 ==> (r matches Err(e) && e@ == "翻译结果为空"@),
        concat_present(sentences@).len() > 0 ==> (r matches Ok(s) && s@ == concat_present(
            sentences@,
        )),
{
    let mut out: Vec<char> = Vec::new();
    let mut i: usize = 0;
    while i < sentences.len()
        invariant
            i <= sentences@.len(),
            out@ == concat_present(sentences@.take(i as int)),
        decreases sentences.len() - i,
    {
        assert(sentences@.take(i + 1).drop_last() =~= sentences@.take(i as int));
        match &sentences[i] {
            Some(t) => push_str(&mut out, t.as_str()),
            None => {},
        }
        i += 1;
    }
    assert(sentences@.take(i as int) =~= sentences@);
    if out.len() == 0 {
        Err("翻译结果为空".to_owned())
    } else {
        Ok(string_of(out.as_slice()))
    }
}

/// The texts present, in order.
pub open spec fn present(parts: Seq<Option<String>>) -> Seq<Seq<char>>
    decreases parts.len(),
{
    if parts.len() == 0 {
        seq![]
    } else {
        let rest = present(parts.drop_last());
        match parts.last() {
            Some(t) => rest.push(t@),
            None => rest,
        }
    }
}

/// Baidu's answer: its error code and message, and the texts of its results. An
/// error code gives the error (with `未知错误` for a missing message); no results
/// list, or none with a text, give an error; else the texts joined by line breaks.
pub fn baidu_text(
    error_code: Option<String>,
    error_msg: Option<String>,
    results: Option<Vec<Option<String>>>,
) -> (r: Result<String, String>)
    ensures
        match error_code {
            Some(c) => r matches Err(e) && e@ == "百度翻译错误 ("@ + c@ + "): "@ + match error_msg {
                Some(m) => m@,
                None => "未知错误"@,
            },
            None => match results {
                None => r matches Err(e) && e@ == "翻译结果格式异常"@,
                Some(v) => if present(v@).len() == 0 {
                    r matches Err(e) && e@ == "翻译结果为空"@
                } else {
                    r matches Ok(s) && s@ == join_with(present(v@), "\n"@)
                },
            },
        },
{
    match error_code {
        Some(c) => {
            let mut out = chars_of("百度翻译错误 (");
            push_str(&mut out, c.as_str());
            push_str(&mut out, "): ");
            match &error_msg {
                Some(m) => push_str(&mut out, m.as_str()),
                None => push_str(&mut out, "未知错误"),
            }
            Err(string_of(out.as_slice()))
        },
        None => match results {
            None => Err("翻译结果格式异常".to_owned()),
            Some(v) => {
                let mut texts: Vec<String> = Vec::new();
                let mut i: usize = 0;
                while i < v.len()
                    invariant
                        i <= v@.len(),
                        string_views(texts@) == present(v@.take(i as int)),
                    decreases v.len() - i,
                {
                    assert(v@.take(i + 1).drop_last() =~= v@.take(i as int));
                    match &v[i] {
                        Some(t) => {
                            texts.push(t.clone());
                            assert(string_views(texts@) =~= present(v@.take(i + 1)));
                        },
                        None => {},
                    }
                    i += 1;
                }
                assert(v@.take(i as int) =~= v@);
                if texts.len() == 0 {
                    Err("翻译结果为空".to_owned())
                } else {
                    Ok(join_strings(texts.as_slice(), "\n"))
                }
            },
        },
    }
}

/// DeepLX's answer: its `data` text when not empty, else its first alternative, else
/// an error that quotes the whole answer.
pub fn deeplx_text(data: Option<String>, first_alternative: Option<String>, answer: &str) -> (r:
    Result<String, String>)
    ensures
        match data {
            Some(d) if d@.len() > 0 => r matches Ok(s) && s@ == d@,
            _ => match first_alternative {
                Some(a) => r matches Ok(s) && s@ == a@,
                None => r matches Err(e) && e@ == "DeepLX 翻译结果异常: "@ + answer@,
            },
        },
{
    if let Some(d) = &data {
        if !d.as_str().is_empty() {
            return Ok(d.clone());
        }
    }
    match first_alternative {
        Some(a) => Ok(a),
        None => Err(cat("DeepLX 翻译结果异常: ", answer)),
    }
}

// ------------------------------------------------------------------ selection shortcut

/// The shortcut to register for translating the selection: the stored shortcut, when
/// the feature is switched on (`true`) and a shortcut is set.
pub fn selection_shortcut(enabled: Option<&str>, shortcut: Option<&str>) -> (r: Option<String>)
    ensures
        match r {
            Some(s) => enabled is Some && enabled->0@ == "true"@ && shortcut is Some && s@
                == shortcut->0@ && s@.len() > 0,
            None => !(enabled is Some && enabled->0@ == "true"@) || shortcut is None
                || shortcut->0@.len() == 0,
        },
{
    proof {
        reveal_strlit("true");
    }
    let on = match enabled {
        Some(v) => chars_eq(chars_of(v).as_slice(), chars_of("true").as_slice()),
        None => false,
    };
    if !on {
        return None;
    }
    match shortcut {
        Some(s) => {
            let cs = chars_of(s);
            if cs.len() > 0 {
                Some(string_of(cs.as_slice()))
            } else {
                None
            }
        },
        None => None,
    }
}

/// A press of the selection shortcut, given whether a translation is running: whether
/// it starts one, and whether one is running afterwards.
pub open spec fn gate_press(busy: bool) -> (bool, bool) {
    (!busy, true)
}

/// Whether a translation of the selection is running. A press of the shortcut
/// starts one only when none is.
pub struct SelectionGate {
    pub busy: bool,
}

impl SelectionGate {
    pub fn new() -> (g: Self)
        ensures
            !g.busy,
    {
        SelectionGate { busy: false }
    }

    /// A press of the shortcut: starts a translation (true) unless one is running.
    pub fn try_start(&mut self) -> (started: bool)
        ensures
            (started, final(self).busy) == gate_press(old(self).busy),
    {
        let started = !self.busy;
        self.busy = true;
        started
    }

    /// The running translation has ended.
    pub fn finish(&mut self)
        ensures
            !final(self).busy,
    {
        self.busy = false;
    }
}

/// One translation of the selection at a time: after any press a translation is
/// running, so every further press is turned away until `finish`; a press when none
/// runs (as after `finish`) starts one.
pub proof fn lemma_one_translation_at_a_time(busy: bool)
    ensures
        gate_press(busy).1,
        !gate_press(gate_press(busy).1).0,
        gate_press(false).0,
{
}

} // verus!
