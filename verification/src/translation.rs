//! Translating captions: what is asked of the translation service, and what its reply comes to.

use vstd::prelude::*;

use crate::model_runtime::{nonblank_text, trimmed_nonblank};
use crate::numbers::{decimal, decimal_text};
use crate::text::{blank, is_blank, same_text, trim, trimmed};
use crate::transcript::option_view;

verus! {

/// The address of the translation service.
pub const TRANSLATION_URL: &'static str = "https://dashscope.aliyuncs.com/compatible-mode/v1/chat/completions";

/// The model that translates.
pub const TRANSLATION_MODEL: &'static str = "qwen-turbo";

/// What the model that translates is told.
pub const TRANSLATION_SYSTEM_PROMPT: &'static str = "You are a precise, concise real-time subtitle translator.";

/// The name of a language for the model that translates.
pub open spec fn language_name(code: Seq<char>, allow_auto: bool) -> Option<Seq<char>> {
    if code == "auto"@ && allow_auto {
        Some("automatically detected language"@)
    } else if code == "zh-CN"@ {
        Some("Simplified Chinese"@)
    } else if code == "en"@ {
        Some("English"@)
    } else if code == "ja"@ {
        Some("Japanese"@)
    } else if code == "ko"@ {
        Some("Korean"@)
    } else if code == "es"@ {
        Some("Spanish"@)
    } else if code == "fr"@ {
        Some("French"@)
    } else if code == "de"@ {
        Some("German"@)
    } else {
        None
    }
}

/// The name of a language for the model that translates; detection counts as one where it is
/// allowed.
pub fn translation_language_name(code: &str, allow_auto: bool) -> (name: Result<&'static str, String>)
    ensures
        match language_name(code@, allow_auto) {
            Some(found) => name is Ok && name->Ok_0@ == found,
            None => name is Err && name->Err_0@ == "Unsupported translation language: "@ + code@,
        },
{
    if same_text(code, "auto") && allow_auto {
        Ok("automatically detected language")
    } else if same_text(code, "zh-CN") {
        Ok("Simplified Chinese")
    } else if same_text(code, "en") {
        Ok("English")
    } else if same_text(code, "ja") {
        Ok("Japanese")
    } else if same_text(code, "ko") {
        Ok("Korean")
    } else if same_text(code, "es") {
        Ok("Spanish")
    } else if same_text(code, "fr") {
        Ok("French")
    } else if same_text(code, "de") {
        Ok("German")
    } else {
        Err("Unsupported translation language: ".to_string().concat(code))
    }
}

/// What a translation takes.
pub enum TranslationPlan {
    /// Nothing: there is no text.
    Nothing,
    /// Ask the service, with this key, about this prompt.
    Ask { api_key: String, prompt: String },
}

/// What the model is asked.
pub open spec fn translation_prompt(source: Seq<char>, target: Seq<char>, text: Seq<char>) -> Seq<char> {
    "Translate the following real-time subtitle from "@ + source + " to "@ + target
        + ". Return only the translation. Preserve names, numbers, tone, and punctuation. Do not explain or add quotation marks.\n\n"@
        + text
}

/// Says what translating a caption takes.
pub fn translate_caption(api_key: &str, text: &str, source_language: &str, target_language: &str) -> (plan: Result<
    TranslationPlan,
    String,
>)
    ensures
        if is_blank(api_key@) {
            plan is Err && plan->Err_0@ == "DashScope API Key 未配置"@
        } else if is_blank(text@) {
            plan == Ok::<TranslationPlan, String>(TranslationPlan::Nothing)
        } else {
            match (language_name(source_language@, true), language_name(target_language@, false)) {
                (None, _) => plan is Err && plan->Err_0@ == "Unsupported translation language: "@ + source_language@,
                (Some(_), None) => plan is Err && plan->Err_0@ == "Unsupported translation language: "@
                    + target_language@,
                (Some(source), Some(target)) => {
                    &&& plan is Ok
                    &&& plan->Ok_0 is Ask
                    &&& plan->Ok_0->api_key@ == trim(api_key@)
                    &&& plan->Ok_0->prompt@ == translation_prompt(source, target, trim(text@))
                },
            }
        },
{
    if blank(api_key) {
        return Err("DashScope API Key 未配置".to_string());
    }
    let text = trimmed(text);
    if text.as_str().is_empty() {
        return Ok(TranslationPlan::Nothing);
    }
    let source = match translation_language_name(source_language, true) {
        Ok(source) => source,
        Err(message) => {
            return Err(message);
        },
    };
    let target = match translation_language_name(target_language, false) {
        Ok(target) => target,
        Err(message) => {
            return Err(message);
        },
    };
    let prompt = "Translate the following real-time subtitle from ".to_string().concat(source).concat(" to ").concat(
        target,
    ).concat(
        ". Return only the translation. Preserve names, numbers, tone, and punctuation. Do not explain or add quotation marks.\n\n",
    ).concat(text.as_str());
    Ok(TranslationPlan::Ask { api_key: trimmed(api_key), prompt })
}

/// The bytes are a JSON document that `serde_json::from_slice` reads as a value.
pub uninterp spec fn is_json(body: Seq<u8>) -> bool;

/// The text at a place of a JSON document, as `serde_json::Value::pointer` finds it and
/// `serde_json::Value::as_str` gives it.
pub uninterp spec fn text_in_json(body: Seq<u8>, pointer: Seq<char>) -> Option<Seq<char>>;

/// Calls `serde_json::from_slice` for a value. Whether it reads one is named `is_json`.
#[verifier::external_body]
fn reads_as_json(body: &[u8]) -> (reads: bool)
    ensures
        reads == is_json(body@),
{
    serde_json::from_slice::<serde_json::Value>(body).is_ok()
}

/// Calls `serde_json::Value::pointer` and `serde_json::Value::as_str` on the value that
/// `serde_json::from_slice` reads. The text, where there is one, is named `text_in_json`; there is
/// none where the bytes are no JSON document.
#[verifier::external_body]
fn json_text(body: &[u8], pointer: &str) -> (text: Option<String>)
    ensures
        option_view(text) == text_in_json(body@, pointer@),
        !is_json(body@) ==> text is None,
{
    match serde_json::from_slice::<serde_json::Value>(body) {
        Ok(value) => match value.pointer(pointer) {
            Some(found) => found.as_str().map(str::to_string),
            None => None,
        },
        Err(_) => None,
    }
}

/// What a reply of the translation service comes to. `status` is its HTTP status, `content` the
/// translation and `message` the error in it, where there is one.
pub open spec fn translation_of(
    status: u16,
    readable: bool,
    content: Option<Seq<char>>,
    message: Option<Seq<char>>,
) -> Result<Seq<char>, Seq<char>> {
    if !readable {
        Err("翻译服务响应无效：error decoding response body"@)
    } else if status < 200 || status > 299 {
        Err(
            "翻译失败（"@ + decimal(status as nat) + "）："@ + match message {
                Some(message) => message,
                None => "未知错误"@,
            },
        )
    } else {
        match nonblank_text(content) {
            Some(text) => Ok(text),
            None => Err("翻译服务未返回文本"@),
        }
    }
}

/// Makes the translation, or what is said in its place, out of what a reply holds.
pub fn translation_outcome(
    status: u16,
    readable: bool,
    content: Option<String>,
    message: Option<String>,
) -> (translation: Result<String, String>)
    ensures
        crate::recording_store::result_view(translation) == translation_of(
            status,
            readable,
            option_view(content),
            option_view(message),
        ),
{
    if !readable {
        return Err("翻译服务响应无效：error decoding response body".to_string());
    }
    if status < 200 || status > 299 {
        let failure = "翻译失败（".to_string().concat(decimal_text(status as u64).as_str()).concat("）：");
        return match message {
            Some(message) => Err(failure.concat(message.as_str())),
            None => Err(failure.concat("未知错误")),
        };
    }
    match trimmed_nonblank(content) {
        Some(text) => Ok(text),
        None => Err("翻译服务未返回文本".to_string()),
    }
}

/// Makes the translation, or what is said in its place, out of a reply of the service.
pub fn read_translation(status: u16, body: &[u8]) -> (translation: Result<String, String>)
    ensures
        crate::recording_store::result_view(translation) == translation_of(
            status,
            is_json(body@),
            text_in_json(body@, "/choices/0/message/content"@),
            text_in_json(body@, "/error/message"@),
        ),
{
    translation_outcome(
        status,
        reads_as_json(body),
        json_text(body, "/choices/0/message/content"),
        json_text(body, "/error/message"),
    )
}

/// A translation is never blank, and comes only with a status of success.
pub proof fn law_translations_hold_text(
    status: u16,
    readable: bool,
    content: Option<Seq<char>>,
    message: Option<Seq<char>>,
)
    ensures
        translation_of(status, readable, content, message) matches Ok(text) ==> readable && 200 <= status <= 299
            && text.len() > 0 && content is Some && text == trim(content->0),
{
}

/// A reply of success that holds a text which is not blank is a translation: that text, trimmed. One
/// of failure says its status, and what the service said of it; one that cannot be read is a failure.
pub proof fn law_every_translation_is_given(status: u16, content: Seq<char>, message: Option<Seq<char>>)
    ensures
        200 <= status <= 299 && !is_blank(content) ==> translation_of(status, true, Some(content), message)
            == Ok::<Seq<char>, Seq<char>>(trim(content)),
        200 <= status <= 299 && is_blank(content) ==> translation_of(status, true, Some(content), message) is Err,
        200 <= status <= 299 ==> translation_of(status, true, None, message) is Err,
        status < 200 || status > 299 ==> ({
            let failure = translation_of(status, true, Some(content), message);
            &&& failure is Err
            &&& crate::text::occurs(decimal(status as nat), failure->Err_0)
            &&& message is Some ==> message->0.is_suffix_of(failure->Err_0)
        }),
        translation_of(status, false, Some(content), message) is Err,
{
    if status < 200 || status > 299 {
        let said = match message {
            Some(message) => message,
            None => "未知错误"@,
        };
        let failure = translation_of(status, true, Some(content), message)->Err_0;
        let before = "翻译失败（"@;
        let number = decimal(status as nat);
        assert(failure == before + number + "）："@ + said);
        assert(failure.subrange(before.len() as int, (before.len() + number.len()) as int) =~= number);
        assert(crate::text::occurs_at(number, failure, before.len() as int));
        assert(said =~= failure.subrange(failure.len() - said.len(), failure.len() as int));
    }
}

/// What the model is asked ends with the caption itself, and names both languages, the one to translate
/// from before the one to translate to.
pub proof fn law_prompts_hold_the_caption(source: Seq<char>, target: Seq<char>, text: Seq<char>)
    ensures
        text.is_suffix_of(translation_prompt(source, target, text)),
        crate::text::occurs(" from "@ + source + " to "@ + target + ". "@, translation_prompt(source, target, text)),
{
    let prompt = translation_prompt(source, target, text);
    assert(text =~= prompt.subrange(prompt.len() - text.len(), prompt.len() as int));
    reveal_strlit("Translate the following real-time subtitle from ");
    reveal_strlit(" from ");
    reveal_strlit(" to ");
    reveal_strlit(". ");
    reveal_strlit(
        ". Return only the translation. Preserve names, numbers, tone, and punctuation. Do not explain or add quotation marks.\n\n",
    );
    let part = " from "@ + source + " to "@ + target + ". "@;
    assert(prompt.subrange(42, (42 + part.len()) as int) =~= part);
    assert(crate::text::occurs_at(part, prompt, 42));
}

/// Each language has a name of its own, and detection is none of them; it counts only where it is
/// allowed.
pub proof fn law_languages_are_told_apart(code: Seq<char>, other: Seq<char>, allowed: bool)
    ensures
        language_name(code, allowed) is Some && language_name(code, allowed) == language_name(other, allowed)
            ==> code == other,
        language_name("auto"@, false) is None,
        language_name("auto"@, true) is Some,
        language_name(code, false) is Some ==> language_name(code, true) == language_name(code, false),
{
    reveal_strlit("auto");
    reveal_strlit("zh-CN");
    reveal_strlit("en");
    reveal_strlit("ja");
    reveal_strlit("ko");
    reveal_strlit("es");
    reveal_strlit("fr");
    reveal_strlit("de");
    reveal_strlit("automatically detected language");
    reveal_strlit("Simplified Chinese");
    reveal_strlit("English");
    reveal_strlit("Japanese");
    reveal_strlit("Korean");
    reveal_strlit("Spanish");
    reveal_strlit("French");
    reveal_strlit("German");
    assert("auto"@.len() == 4);
    assert("zh-CN"@.len() == 5);
    assert("en"@[0] == 'e' && "en"@[1] == 'n');
    assert("es"@[0] == 'e' && "es"@[1] == 's');
    assert("ja"@[0] == 'j' && "ko"@[0] == 'k' && "fr"@[0] == 'f' && "de"@[0] == 'd');
    assert("English"@.len() == 7 && "Spanish"@.len() == 7 && "English"@[0] == 'E' && "Spanish"@[0] == 'S');
    assert("Korean"@.len() == 6 && "French"@.len() == 6 && "German"@.len() == 6);
    assert("Korean"@[0] == 'K' && "French"@[0] == 'F' && "German"@[0] == 'G');
    assert("Japanese"@.len() == 8);
    assert("Simplified Chinese"@.len() == 18);
    assert("automatically detected language"@.len() == 31);
}

/// A caption is translated exactly when there is a key, there is text, and both languages are known;
/// without text nothing is asked. The service is asked about the caption itself, with that key.
pub proof fn law_captions_are_translated(
    api_key: &str,
    text: &str,
    source: &str,
    target: &str,
    plan: Result<TranslationPlan, String>,
)
    requires
        call_ensures(translate_caption, (api_key, text, source, target), plan),
    ensures
        ({
            let known = language_name(source@, true) is Some && language_name(target@, false) is Some;
            &&& plan is Ok && plan->Ok_0 is Ask <==> !is_blank(api_key@) && !is_blank(text@) && known
            &&& plan is Ok && plan->Ok_0 is Nothing <==> !is_blank(api_key@) && is_blank(text@)
            &&& plan is Ok && plan->Ok_0 is Ask ==> plan->Ok_0->api_key@ == trim(api_key@) && trim(
                text@,
            ).is_suffix_of(plan->Ok_0->prompt@)
        }),
{
    if language_name(source@, true) is Some && language_name(target@, false) is Some {
        law_prompts_hold_the_caption(
            language_name(source@, true)->0,
            language_name(target@, false)->0,
            trim(text@),
        );
    }
}

} // verus!
