//! Requests to language models: where they go, what they carry, and what comes back.

use vstd::prelude::*;

use crate::ordering::{comes_first, is_permutation, is_sorting_of, sort, sorted_along, text_le, Ranked};
use crate::text::{
    blank, chars_of, copied, drop_end_while, index_of_char, is_blank, kept_before_trailing, lowercase, lowercased,
    position_of, same_text, stands_at, string_of, trim, trimmed, trimmed_chars, views,
};
use crate::transcript::option_view;

verus! {

/// A model, and the provider that runs it.
pub struct ModelTarget {
    pub provider: String,
    pub adapter: String,
    pub base_url: String,
    pub api_key: Option<String>,
    pub model: String,
}

/// A provider, without a model.
pub struct ProviderTarget {
    pub adapter: String,
    pub base_url: String,
    pub api_key: Option<String>,
}

/// One message of a conversation.
pub struct ConversationMessage {
    pub role: String,
    pub content: String,
}

/// What is said to a model.
pub struct ChatInput {
    pub system_prompt: Option<String>,
    pub messages: Vec<ConversationMessage>,
    pub image_data_url: Option<String>,
}

/// The protocols of providers, as far as requests differ by them.
#[derive(Clone, Copy, Debug, PartialEq, Eq, Structural)]
pub enum AdapterKind {
    OpenAI,
    Anthropic,
    Ollama,
    Other,
}

/// The lower-case names of the protocols that the client speaks.
pub open spec fn adapter_names() -> Seq<Seq<char>> {
    seq![
        "openai"@, "openai_resp"@, "gemini"@, "anthropic"@, "fireworks"@, "together"@, "groq"@,
        "aihubmix"@, "mimo"@, "moonshot"@, "nebius"@, "xai"@, "deepseek"@, "zai"@, "bigmodel"@,
        "aliyun"@, "baidu"@, "cohere"@, "ollama"@, "ollama_cloud"@, "vertex"@, "github_copilot"@,
        "opencode_go"@, "bedrock_api"@, "open_router"@, "minimax"@,
    ]
}

/// The protocol with the lower-case name `name`.
pub open spec fn adapter_named(name: Seq<char>) -> Option<AdapterKind> {
    if !adapter_names().contains(name) {
        None
    } else if name == "openai"@ {
        Some(AdapterKind::OpenAI)
    } else if name == "anthropic"@ {
        Some(AdapterKind::Anthropic)
    } else if name == "ollama"@ {
        Some(AdapterKind::Ollama)
    } else {
        Some(AdapterKind::Other)
    }
}

/// Calls `genai::adapter::AdapterKind::from_lower_str`, which knows a name exactly when it is one
/// of `adapter_names`.
#[verifier::external_body]
fn client_speaks(name: &str) -> (known: bool)
    ensures
        known == adapter_names().contains(name@),
{
    genai::adapter::AdapterKind::from_lower_str(name).is_some()
}

/// The protocol with the lower-case name `name`.
pub fn adapter_from_lower_str(name: &str) -> (adapter: Option<AdapterKind>)
    ensures
        adapter == adapter_named(name@),
{
    if !client_speaks(name) {
        None
    } else if same_text(name, "openai") {
        Some(AdapterKind::OpenAI)
    } else if same_text(name, "anthropic") {
        Some(AdapterKind::Anthropic)
    } else if same_text(name, "ollama") {
        Some(AdapterKind::Ollama)
    } else {
        Some(AdapterKind::Other)
    }
}

/// What a provider's address may end with that belongs to a request and not to the provider.
pub open spec fn request_suffix(adapter: AdapterKind) -> Seq<char> {
    match adapter {
        AdapterKind::Ollama => "/api/chat"@,
        AdapterKind::Anthropic => "/messages"@,
        _ => "/chat/completions"@,
    }
}

/// A slash, as a predicate.
pub open spec fn slash_chars() -> spec_fn(char) -> bool {
    |c: char| c == '/'
}

/// `s` without slashes at its end.
pub open spec fn without_slashes(s: Seq<char>) -> Seq<char> {
    drop_end_while(s, slash_chars())
}

/// The address of a provider without what belongs to a request, and without slashes at its end.
pub open spec fn base_of(url: Seq<char>, adapter: AdapterKind) -> Seq<char> {
    let url = without_slashes(trim(url));
    let suffix = request_suffix(adapter);
    if suffix.is_suffix_of(url) {
        without_slashes(url.take(url.len() - suffix.len()))
    } else {
        url
    }
}

fn slash(c: char) -> (yes: bool)
    ensures
        yes == (c == '/'),
{
    c == '/'
}

/// The address of a provider in the form in which requests are appended to it.
pub fn normalize_base_url(base_url: &str, adapter: AdapterKind) -> (url: Result<String, String>)
    ensures
        if without_slashes(trim(base_url@)).len() == 0 {
            url is Err && url->Err_0@ == "Provider 服务地址未配置"@
        } else {
            url is Ok && url->Ok_0@ == base_of(base_url@, adapter).push('/')
        },
{
    let chars = trimmed_chars(&chars_of(base_url));
    let end: usize = kept_before_trailing(&chars, slash, Ghost(slash_chars()));
    if end == 0 {
        return Err("Provider 服务地址未配置".to_string());
    }
    let url = copied(&chars, 0, end);
    assert(url@ =~= without_slashes(trim(base_url@)));
    let suffix = chars_of(
        match adapter {
            AdapterKind::Ollama => "/api/chat",
            AdapterKind::Anthropic => "/messages",
            _ => "/chat/completions",
        },
    );
    let mut base = if suffix.len() <= url.len() && stands_at(&suffix, &url, url.len() - suffix.len()) {
        let ghost at = url@.len() - suffix@.len();
        assert(url@.subrange(at, at + suffix@.len()) =~= url@.subrange(at, url@.len() as int));
        assert(suffix@.is_suffix_of(url@));
        let head = copied(&url, 0, url.len() - suffix.len());
        assert(head@ =~= url@.take(at));
        let kept: usize = kept_before_trailing(&head, slash, Ghost(slash_chars()));
        assert(head@.subrange(0, kept as int) =~= head@.take(kept as int));
        string_of(&copied(&head, 0, kept))
    } else {
        proof {
            if suffix@.is_suffix_of(url@) {
                let at = url@.len() - suffix@.len();
                assert(url@.subrange(at, at + suffix@.len()) =~= suffix@);
                assert(crate::text::occurs_at(suffix@, url@, at));
            }
        }
        string_of(&url)
    };
    base.push('/');
    Ok(base)
}

/// A normalised address ends with a single slash.
pub proof fn law_base_url_ends_with_one_slash(url: Seq<char>, adapter: AdapterKind)
    ensures
        base_of(url, adapter).len() > 0 ==> base_of(url, adapter).last() != '/',
        base_of(url, adapter).push('/').last() == '/',
{
    let whole = without_slashes(trim(url));
    crate::text::lemma_drop_end_while(trim(url), slash_chars());
    crate::text::lemma_drop_end_while(
        whole.take(whole.len() - request_suffix(adapter).len()),
        slash_chars(),
    );
}

/// A normalised address stays as it is when it is normalised again, unless it still ends with what
/// belongs to a request.
pub proof fn law_normalised_addresses_stay(url: Seq<char>, adapter: AdapterKind)
    requires
        base_of(url, adapter).len() > 0,
        !request_suffix(adapter).is_suffix_of(base_of(url, adapter)),
    ensures
        base_of(base_of(url, adapter).push('/'), adapter) == base_of(url, adapter),
{
    let whole = without_slashes(trim(url));
    let base = base_of(url, adapter);
    let again = base.push('/');
    crate::text::lemma_trim_ends(url);
    crate::text::lemma_drop_end_while(trim(url), slash_chars());
    crate::text::lemma_drop_end_while(
        whole.take(whole.len() - request_suffix(adapter).len()),
        slash_chars(),
    );
    assert(base[0] == trim(url)[0]);
    assert(again[0] == base[0]);
    crate::text::lemma_trim_fixed(again);
    crate::text::lemma_drop_end_while_exact(base, seq!['/'], slash_chars());
    assert(base + seq!['/'] =~= again);
}

/// How a request is authorised.
pub enum AuthData {
    /// With a key.
    Key(String),
    /// Not at all; the request goes to this address as it is, with these headers.
    RequestOverride { url: String, headers: Vec<(String, String)> },
    /// As the protocol does without a key.
    Unauthenticated,
}

/// Where a request goes.
pub struct ServiceTarget {
    pub endpoint: String,
    pub auth: AuthData,
    pub adapter_name: String,
    pub adapter: AdapterKind,
    pub model: String,
}

/// A text, trimmed; none where it is blank.
pub open spec fn nonblank_text(text: Option<Seq<char>>) -> Option<Seq<char>> {
    match text {
        Some(text) if !is_blank(text) => Some(trim(text)),
        _ => None,
    }
}

/// A text, trimmed; none where it is blank.
pub fn trimmed_nonblank(text: Option<String>) -> (kept: Option<String>)
    ensures
        option_view(kept) == nonblank_text(option_view(text)),
{
    match text {
        Some(text) => {
            let text = trimmed(text.as_str());
            if text.as_str().is_empty() {
                None
            } else {
                Some(text)
            }
        },
        None => None,
    }
}

/// A request may go without a key: to a custom OpenAI-compatible service.
pub open spec fn is_open_custom(provider: Seq<char>, adapter: AdapterKind) -> bool {
    provider == "custom"@ && adapter == AdapterKind::OpenAI
}

impl ServiceTarget {
    /// This is where requests go for the protocol `name` at `base`, with `key` and `model`.
    pub open spec fn leads_to(
        &self,
        provider: Seq<char>,
        name: Seq<char>,
        adapter: AdapterKind,
        base: Seq<char>,
        key: Option<Seq<char>>,
        model: Seq<char>,
    ) -> bool {
        &&& self.endpoint@ == base.push('/')
        &&& self.adapter_name@ == name
        &&& self.adapter == adapter
        &&& self.model@ == trim(model)
        &&& match nonblank_text(key) {
            Some(key) => self.auth is Key && self.auth->Key_0@ == key,
            None => if is_open_custom(provider, adapter) {
                self.auth is RequestOverride && self.auth->url@ == base.push('/') + "chat/completions"@
                    && self.auth->headers@.len() == 0
            } else {
                self.auth is Unauthenticated
            },
        }
    }
}

/// Works out where requests go, given the names of the provider and of its protocol in lower case.
pub fn service_target_for(
    provider: &str,
    adapter_name: String,
    base_url: &str,
    api_key: Option<String>,
    model: &str,
) -> (target: Result<ServiceTarget, String>)
    ensures
        match adapter_named(adapter_name@) {
            None => target is Err && target->Err_0@ == "Provider 使用了不支持的适配类型："@ + adapter_name@,
            Some(adapter) => if is_blank(model@) {
                target is Err && target->Err_0@ == "请配置要使用的文字或视觉模型"@
            } else if adapter != AdapterKind::Ollama && !is_open_custom(provider@, adapter) && nonblank_text(
                option_view(api_key),
            ) is None {
                target is Err && target->Err_0@ == "Provider 访问密钥未配置"@
            } else if without_slashes(trim(base_url@)).len() == 0 {
                target is Err && target->Err_0@ == "Provider 服务地址未配置"@
            } else {
                target is Ok && target->Ok_0.leads_to(
                    provider@,
                    adapter_name@,
                    adapter,
                    base_of(base_url@, adapter),
                    option_view(api_key),
                    model@,
                )
            },
        },
{
    let adapter = match adapter_from_lower_str(adapter_name.as_str()) {
        Some(adapter) => adapter,
        None => {
            return Err("Provider 使用了不支持的适配类型：".to_string().concat(adapter_name.as_str()));
        },
    };
    let model = trimmed(model);
    if model.as_str().is_empty() {
        return Err("请配置要使用的文字或视觉模型".to_string());
    }
    let key = trimmed_nonblank(api_key);
    let custom_without_auth = same_text(provider, "custom") && match adapter {
        AdapterKind::OpenAI => true,
        _ => false,
    };
    let keyless = match adapter {
        AdapterKind::Ollama => true,
        _ => false,
    };
    if !keyless && !custom_without_auth && key.is_none() {
        return Err("Provider 访问密钥未配置".to_string());
    }
    let endpoint = match normalize_base_url(base_url, adapter) {
        Ok(endpoint) => endpoint,
        Err(message) => {
            return Err(message);
        },
    };
    let auth = match key {
        Some(key) => AuthData::Key(key),
        None => if custom_without_auth {
            AuthData::RequestOverride { url: endpoint.clone().concat("chat/completions"), headers: Vec::new() }
        } else {
            AuthData::Unauthenticated
        },
    };
    Ok(ServiceTarget { endpoint, auth, adapter_name, adapter, model })
}

/// Works out where requests to the model `target` go.
pub fn build_service_target(target: ModelTarget) -> (service: Result<ServiceTarget, String>)
    ensures
        ({
            let provider = lowercase(trim(target.provider@));
            let name = lowercase(trim(target.adapter@));
            match adapter_named(name) {
                None => service is Err && service->Err_0@ == "Provider 使用了不支持的适配类型："@ + name,
                Some(adapter) => if is_blank(target.model@) {
                    service is Err && service->Err_0@ == "请配置要使用的文字或视觉模型"@
                } else if adapter != AdapterKind::Ollama && !is_open_custom(provider, adapter)
                    && nonblank_text(option_view(target.api_key)) is None {
                    service is Err && service->Err_0@ == "Provider 访问密钥未配置"@
                } else if without_slashes(trim(target.base_url@)).len() == 0 {
                    service is Err && service->Err_0@ == "Provider 服务地址未配置"@
                } else {
                    service is Ok && service->Ok_0.leads_to(
                        provider,
                        name,
                        adapter,
                        base_of(target.base_url@, adapter),
                        option_view(target.api_key),
                        target.model@,
                    )
                },
            }
        }),
{
    let provider = lowercased(trimmed(target.provider.as_str()).as_str());
    let adapter_name = lowercased(trimmed(target.adapter.as_str()).as_str());
    service_target_for(
        provider.as_str(),
        adapter_name,
        target.base_url.as_str(),
        target.api_key,
        target.model.as_str(),
    )
}

/// Where a provider's models are listed.
pub struct ListingTarget {
    pub endpoint: String,
    pub adapter_name: String,
    pub api_key: Option<String>,
}

/// Works out where a provider's models are listed, given the name of its protocol in lower case.
pub fn listing_target_for(adapter_name: String, base_url: &str, api_key: Option<String>) -> (target: Result<
    ListingTarget,
    String,
>)
    ensures
        match adapter_named(adapter_name@) {
            None => target is Err && target->Err_0@ == "Provider 使用了不支持的适配类型："@ + adapter_name@,
            Some(adapter) => if without_slashes(trim(base_url@)).len() == 0 {
                target is Err && target->Err_0@ == "Provider 服务地址未配置"@
            } else {
                &&& target is Ok
                &&& target->Ok_0.endpoint@ == base_of(base_url@, adapter).push('/')
                &&& target->Ok_0.adapter_name@ == adapter_name@
                &&& option_view(target->Ok_0.api_key) == nonblank_text(option_view(api_key))
            },
        },
{
    let adapter = match adapter_from_lower_str(adapter_name.as_str()) {
        Some(adapter) => adapter,
        None => {
            return Err("Provider 使用了不支持的适配类型：".to_string().concat(adapter_name.as_str()));
        },
    };
    match normalize_base_url(base_url, adapter) {
        Ok(endpoint) => Ok(ListingTarget { endpoint, adapter_name, api_key: trimmed_nonblank(api_key) }),
        Err(message) => Err(message),
    }
}

/// Works out where a provider's models are listed.
pub fn build_listing_target(target: ProviderTarget) -> (listing: Result<ListingTarget, String>)
    ensures
        ({
            let name = lowercase(trim(target.adapter@));
            match adapter_named(name) {
                None => listing is Err && listing->Err_0@ == "Provider 使用了不支持的适配类型："@ + name,
                Some(adapter) => if without_slashes(trim(target.base_url@)).len() == 0 {
                    listing is Err && listing->Err_0@ == "Provider 服务地址未配置"@
                } else {
                    &&& listing is Ok
                    &&& listing->Ok_0.endpoint@ == base_of(target.base_url@, adapter).push('/')
                    &&& listing->Ok_0.adapter_name@ == name
                    &&& option_view(listing->Ok_0.api_key) == nonblank_text(option_view(target.api_key))
                },
            }
        }),
{
    let adapter_name = lowercased(trimmed(target.adapter.as_str()).as_str());
    listing_target_for(adapter_name, target.base_url.as_str(), target.api_key)
}

/// The parts of an image address: its type, and its data in base64.
pub enum ImageUrl {
    /// The address has no comma.
    Malformed,
    /// It does not say that it is an image in base64.
    NotAnImage,
    /// It has no data.
    Empty,
    Image { content_type: Seq<char>, base64: Seq<char> },
}

/// What an image address holds: `data:`, a type that starts with `image/`, `;base64`, a comma and
/// the data.
pub open spec fn image_url(value: Seq<char>) -> ImageUrl {
    let value = trim(value);
    let comma = index_of_char(value, ',');
    let metadata = value.take(comma);
    let data = value.skip(comma + 1);
    let named = metadata.skip("data:"@.len() as int);
    let content_type = named.take(named.len() - ";base64"@.len());
    if comma >= value.len() {
        ImageUrl::Malformed
    } else if !("data:"@.is_prefix_of(metadata) && ";base64"@.is_suffix_of(named) && "image/"@.is_prefix_of(
        content_type,
    )) {
        ImageUrl::NotAnImage
    } else if is_blank(data) {
        ImageUrl::Empty
    } else {
        ImageUrl::Image { content_type, base64: trim(data) }
    }
}

/// Takes an image address apart into its type and its data.
pub fn parse_image_data_url(value: &str) -> (parts: Result<(String, String), String>)
    ensures
        match image_url(value@) {
            ImageUrl::Malformed => parts is Err && parts->Err_0@ == "窗口截图数据格式无效"@,
            ImageUrl::NotAnImage => parts is Err && parts->Err_0@ == "窗口截图不是有效的图片数据"@,
            ImageUrl::Empty => parts is Err && parts->Err_0@ == "窗口截图数据为空"@,
            ImageUrl::Image { content_type, base64 } => parts is Ok && parts->Ok_0.0@ == content_type
                && parts->Ok_0.1@ == base64,
        },
{
    proof {
        reveal_strlit("data:");
        reveal_strlit(";base64");
        reveal_strlit("image/");
    }
    let chars = trimmed_chars(&chars_of(value));
    let comma: usize = position_of(&chars, ',');
    if comma == chars.len() {
        return Err("窗口截图数据格式无效".to_string());
    }
    let metadata = copied(&chars, 0, comma);
    let data = trimmed_chars(&copied(&chars, comma + 1, chars.len()));
    assert(metadata@ =~= chars@.take(comma as int));
    assert(chars@.subrange(comma + 1, chars@.len() as int) =~= chars@.skip(comma + 1));
    let scheme = chars_of("data:");
    let marker = chars_of(";base64");
    let family = chars_of("image/");
    proof {
        lemma_prefix_at(scheme@, metadata@);
    }
    if !stands_at(&scheme, &metadata, 0) {
        return Err("窗口截图不是有效的图片数据".to_string());
    }
    let named = copied(&metadata, scheme.len(), metadata.len());
    assert(named@ =~= metadata@.skip(scheme@.len() as int));
    proof {
        lemma_suffix_at(marker@, named@);
    }
    if named.len() < marker.len() || !stands_at(&marker, &named, named.len() - marker.len()) {
        return Err("窗口截图不是有效的图片数据".to_string());
    }
    let content_type = copied(&named, 0, named.len() - marker.len());
    assert(content_type@ =~= named@.take(named@.len() - marker@.len()));
    proof {
        lemma_prefix_at(family@, content_type@);
    }
    if !stands_at(&family, &content_type, 0) {
        return Err("窗口截图不是有效的图片数据".to_string());
    }
    if data.len() == 0 {
        return Err("窗口截图数据为空".to_string());
    }
    Ok((string_of(&content_type), string_of(&data)))
}

/// A prefix stands at the start.
proof fn lemma_prefix_at(prefix: Seq<char>, s: Seq<char>)
    ensures
        prefix.is_prefix_of(s) <==> crate::text::occurs_at(prefix, s, 0),
{
}

/// A suffix stands at the end.
proof fn lemma_suffix_at(suffix: Seq<char>, s: Seq<char>)
    ensures
        suffix.is_suffix_of(s) <==> suffix.len() <= s.len() && crate::text::occurs_at(
            suffix,
            s,
            s.len() - suffix.len(),
        ),
{
    if suffix.len() <= s.len() {
        let at = s.len() - suffix.len();
        assert(s.subrange(at, at + suffix.len()) =~= s.subrange(at, s.len() as int));
    }
}

/// Who says something in a request.
#[derive(Clone, Copy, Debug, PartialEq, Eq, Structural)]
pub enum ChatRole {
    User,
    Assistant,
}

/// A part of what is said.
pub enum ContentPart {
    Text(String),
    /// An image: its type, its data in base64, and its name.
    Image { content_type: String, base64: String, name: &'static str },
}

/// A message of a request.
pub struct ChatMessage {
    pub role: ChatRole,
    pub content: Vec<ContentPart>,
}

/// A request to a model.
pub struct ChatRequest {
    pub system: Option<String>,
    pub messages: Vec<ChatMessage>,
}

/// A part of what is said, as sequences.
pub enum PartView {
    Text(Seq<char>),
    Image { content_type: Seq<char>, base64: Seq<char>, name: Seq<char> },
}

/// A message of a request, as sequences.
pub struct MessageView {
    pub role: ChatRole,
    pub content: Seq<PartView>,
}

impl View for ContentPart {
    type V = PartView;

    open spec fn view(&self) -> PartView {
        match self {
            ContentPart::Text(text) => PartView::Text(text@),
            ContentPart::Image { content_type, base64, name } => PartView::Image {
                content_type: content_type@,
                base64: base64@,
                name: name@,
            },
        }
    }
}

impl View for ChatMessage {
    type V = MessageView;

    open spec fn view(&self) -> MessageView {
        MessageView { role: self.role, content: self.content@.map_values(|part: ContentPart| part@) }
    }
}

/// The messages of a request, as sequences.
pub open spec fn message_views(messages: Seq<ChatMessage>) -> Seq<MessageView> {
    messages.map_values(|message: ChatMessage| message@)
}

/// A message of a conversation, as sequences.
pub struct Said {
    pub role: Seq<char>,
    pub content: Seq<char>,
}

impl View for ConversationMessage {
    type V = Said;

    open spec fn view(&self) -> Said {
        Said { role: self.role@, content: self.content@ }
    }
}

/// The messages of a conversation, as sequences.
pub open spec fn conversation(messages: Seq<ConversationMessage>) -> Seq<Said> {
    messages.map_values(|message: ConversationMessage| message@)
}

/// What is kept of a message, given its role in lower case: the text, trimmed, of a user or an
/// assistant, where there is one.
pub open spec fn admitted_as(role: Seq<char>, content: Seq<char>) -> Option<Said> {
    if is_blank(content) || !(role == "user"@ || role == "assistant"@) {
        None
    } else {
        Some(Said { role, content: trim(content) })
    }
}

/// What is kept of a conversation.
pub open spec fn admitted(messages: Seq<Said>) -> Seq<Said>
    decreases messages.len(),
{
    if messages.len() == 0 {
        Seq::empty()
    } else {
        let before = admitted(messages.drop_last());
        match admitted_as(lowercase(trim(messages.last().role)), messages.last().content) {
            Some(said) => before.push(said),
            None => before,
        }
    }
}

/// Takes a message into a request, given its role in lower case.
pub fn admit_message(role: String, content: &str) -> (message: Option<ConversationMessage>)
    ensures
        match admitted_as(role@, content@) {
            Some(said) => message is Some && message->0@ == said,
            None => message is None,
        },
{
    let content = trimmed(content);
    if content.as_str().is_empty() {
        return None;
    }
    if same_text(role.as_str(), "user") || same_text(role.as_str(), "assistant") {
        Some(ConversationMessage { role, content })
    } else {
        None
    }
}

/// Takes the messages of a conversation that can be sent: those of the user and of the assistant
/// that are not blank.
pub fn validated_messages(messages: Vec<ConversationMessage>) -> (kept: Result<Vec<ConversationMessage>, String>)
    ensures
        if admitted(conversation(messages@)).len() == 0 {
            kept is Err && kept->Err_0@ == "请输入要发送给模型的内容"@
        } else {
            kept is Ok && conversation(kept->Ok_0@) == admitted(conversation(messages@))
        },
{
    let mut kept: Vec<ConversationMessage> = Vec::new();
    let mut i: usize = 0;
    while i < messages.len()
        invariant
            i <= messages@.len(),
            conversation(kept@) == admitted(conversation(messages@).take(i as int)),
        decreases messages@.len() - i,
    {
        let ghost before = kept@;
        assert(conversation(messages@).take(i + 1).drop_last() == conversation(messages@).take(i as int));
        let role = lowercased(trimmed(messages[i].role.as_str()).as_str());
        match admit_message(role, messages[i].content.as_str()) {
            Some(message) => {
                kept.push(message);
                assert(conversation(kept@) =~= conversation(before).push(message@));
            },
            None => {},
        }
        i += 1;
    }
    assert(conversation(messages@).take(i as int) == conversation(messages@));
    if kept.len() == 0 {
        return Err("请输入要发送给模型的内容".to_string());
    }
    Ok(kept)
}

/// The index of the last message of the user; -1 where there is none.
pub open spec fn last_user(messages: Seq<Said>) -> int
    decreases messages.len(),
{
    if messages.len() == 0 {
        -1
    } else if messages.last().role == "user"@ {
        messages.len() - 1
    } else {
        last_user(messages.drop_last())
    }
}

/// The message of a request that says `said`, with an image where there is one.
pub open spec fn request_message(said: Said, image: Option<(Seq<char>, Seq<char>)>) -> MessageView {
    if said.role == "user"@ {
        MessageView {
            role: ChatRole::User,
            content: match image {
                Some((content_type, base64)) => seq![
                    PartView::Text(said.content),
                    PartView::Image { content_type, base64, name: "desktop-capture.png"@ },
                ],
                None => seq![PartView::Text(said.content)],
            },
        }
    } else {
        MessageView { role: ChatRole::Assistant, content: seq![PartView::Text(said.content)] }
    }
}

/// The messages of a request: the image goes with the last message of the user.
pub open spec fn request_messages(messages: Seq<Said>, image: Option<(Seq<char>, Seq<char>)>) -> Seq<
    MessageView,
> {
    Seq::new(
        messages.len(),
        |i: int|
            request_message(
                messages[i],
                if i == last_user(messages) {
                    image
                } else {
                    None
                },
            ),
    )
}

/// The type and the data of an image address that holds an image.
pub open spec fn image_parts(url: ImageUrl) -> Option<(Seq<char>, Seq<char>)> {
    match url {
        ImageUrl::Image { content_type, base64 } => Some((content_type, base64)),
        _ => None,
    }
}

/// The views of an optional pair of strings.
pub open spec fn pair_view(pair: Option<(String, String)>) -> Option<(Seq<char>, Seq<char>)> {
    match pair {
        Some(pair) => Some((pair.0@, pair.1@)),
        None => None,
    }
}

/// What is said of an image address that holds no image.
pub open spec fn image_fault(url: ImageUrl) -> Seq<char> {
    match url {
        ImageUrl::Malformed => "窗口截图数据格式无效"@,
        ImageUrl::NotAnImage => "窗口截图不是有效的图片数据"@,
        _ => "窗口截图数据为空"@,
    }
}

impl ChatRequest {
    /// This asks with `messages` and `image` under the system prompt `system`.
    pub open spec fn asks(
        &self,
        messages: Seq<Said>,
        image: Option<(Seq<char>, Seq<char>)>,
        system: Option<Seq<char>>,
    ) -> bool {
        &&& message_views(self.messages@) == request_messages(messages, image)
        &&& option_view(self.system) == nonblank_text(system)
    }
}

/// The index of the last message of the user, where there is one.
fn last_user_index(messages: &Vec<ConversationMessage>) -> (index: Option<usize>)
    ensures
        match index {
            Some(index) => last_user(conversation(messages@)) == index && index < messages@.len(),
            None => last_user(conversation(messages@)) == -1,
        },
{
    let mut i: usize = messages.len();
    assert(conversation(messages@).take(i as int) == conversation(messages@));
    while i > 0
        invariant
            i <= messages@.len(),
            last_user(conversation(messages@)) == last_user(conversation(messages@).take(i as int)),
        decreases i,
    {
        assert(conversation(messages@).take(i as int).drop_last() == conversation(messages@).take(i - 1));
        assert(conversation(messages@).take(i as int).last() == messages@[i - 1]@);
        if same_text(messages[i - 1].role.as_str(), "user") {
            return Some(i - 1);
        }
        i -= 1;
    }
    None
}

/// The message of a request that carries `message`, and `image` where it goes with it.
fn request_message_for(message: &ConversationMessage, image: Option<&(String, String)>) -> (carried: ChatMessage)
    ensures
        carried@ == request_message(
            message@,
            match image {
                Some(image) => Some((image.0@, image.1@)),
                None => None,
            },
        ),
{
    let mut content: Vec<ContentPart> = Vec::new();
    content.push(ContentPart::Text(message.content.clone()));
    let role = if same_text(message.role.as_str(), "user") {
        match image {
            Some(image) => {
                content.push(
                    ContentPart::Image {
                        content_type: image.0.clone(),
                        base64: image.1.clone(),
                        name: "desktop-capture.png",
                    },
                );
            },
            None => {},
        }
        ChatRole::User
    } else {
        ChatRole::Assistant
    };
    let carried = ChatMessage { role, content };
    assert(carried@.content =~= request_message(
        message@,
        match image {
            Some(image) => Some((image.0@, image.1@)),
            None => None,
        },
    ).content);
    carried
}

/// Makes a request of messages that have been taken in, an image and a system prompt.
pub fn chat_request_from(
    messages: Vec<ConversationMessage>,
    image_data_url: Option<String>,
    system_prompt: Option<String>,
) -> (request: Result<ChatRequest, String>)
    ensures
        match image_data_url {
            None => request is Ok && request->Ok_0.asks(
                conversation(messages@),
                None,
                option_view(system_prompt),
            ),
            Some(url) => match image_parts(image_url(url@)) {
                Some(image) => request is Ok && request->Ok_0.asks(
                    conversation(messages@),
                    Some(image),
                    option_view(system_prompt),
                ),
                None => request is Err && request->Err_0@ == image_fault(image_url(url@)),
            },
        },
{
    let last = last_user_index(&messages);
    let image = match image_data_url {
        Some(url) => match parse_image_data_url(url.as_str()) {
            Ok(image) => Some(image),
            Err(message) => {
                return Err(message);
            },
        },
        None => None,
    };
    let ghost parts = pair_view(image);
    let ghost said = conversation(messages@);
    let mut carried: Vec<ChatMessage> = Vec::new();
    let mut i: usize = 0;
    while i < messages.len()
        invariant
            i <= messages@.len(),
            said == conversation(messages@),
            parts == pair_view(image),
            match last {
                Some(index) => last_user(said) == index && index < messages@.len(),
                None => last_user(said) == -1,
            },
            message_views(carried@) == request_messages(said, parts).take(i as int),
        decreases messages@.len() - i,
    {
        let ghost before = carried@;
        let with_image = match last {
            Some(index) => index == i,
            None => false,
        };
        let message = if with_image {
            request_message_for(&messages[i], image.as_ref())
        } else {
            request_message_for(&messages[i], None)
        };
        carried.push(message);
        assert(message@ == request_messages(said, parts)[i as int]);
        assert(message_views(carried@) =~= message_views(before).push(message@));
        i += 1;
        assert(request_messages(said, parts).take(i as int) =~= request_messages(said, parts).take(
            i - 1,
        ).push(message@));
    }
    assert(request_messages(said, parts).take(i as int) =~= request_messages(said, parts));
    Ok(ChatRequest { system: trimmed_nonblank(system_prompt), messages: carried })
}

/// Makes the request that says `input`.
pub fn build_chat_request(input: ChatInput) -> (request: Result<ChatRequest, String>)
    ensures
        ({
            let messages = admitted(conversation(input.messages@));
            if messages.len() == 0 {
                request is Err && request->Err_0@ == "请输入要发送给模型的内容"@
            } else {
                match input.image_data_url {
                    None => request is Ok && request->Ok_0.asks(
                        messages,
                        None,
                        option_view(input.system_prompt),
                    ),
                    Some(url) => match image_parts(image_url(url@)) {
                        Some(image) => request is Ok && request->Ok_0.asks(
                            messages,
                            Some(image),
                            option_view(input.system_prompt),
                        ),
                        None => request is Err && request->Err_0@ == image_fault(image_url(url@)),
                    },
                }
            }
        }),
{
    match validated_messages(input.messages) {
        Ok(messages) => chat_request_from(messages, input.image_data_url, input.system_prompt),
        Err(message) => Err(message),
    }
}

/// A message holds an image.
pub open spec fn holds_image(message: MessageView) -> bool {
    exists|k: int| 0 <= k < message.content.len() && (#[trigger] message.content[k]) is Image
}

/// Of the messages of a request, exactly the last one of the user holds the image.
pub proof fn law_image_goes_with_the_last_user_message(
    messages: Seq<Said>,
    image: (Seq<char>, Seq<char>),
    i: int,
)
    requires
        0 <= i < messages.len(),
    ensures
        holds_image(request_messages(messages, Some(image))[i]) <==> messages[i].role == "user"@ && (forall|j: int|
            i < j < messages.len() ==> (#[trigger] messages[j]).role != "user"@),
        !holds_image(request_messages(messages, None)[i]),
{
    lemma_last_user(messages);
    let with = request_messages(messages, Some(image))[i];
    let at = last_user(messages);
    if i == at {
        assert(messages[at].role == "user"@);
        assert(with.content[1] is Image);
    } else if i < at {
        assert(messages[at].role == "user"@);
    }
}

/// What `last_user` finds.
proof fn lemma_last_user(messages: Seq<Said>)
    ensures
        -1 <= last_user(messages) < messages.len(),
        last_user(messages) >= 0 ==> messages[last_user(messages)].role == "user"@,
        forall|j: int| last_user(messages) < j < messages.len() ==> (#[trigger] messages[j]).role != "user"@,
    decreases messages.len(),
{
    if messages.len() > 0 && messages.last().role != "user"@ {
        let rest = messages.drop_last();
        lemma_last_user(rest);
        assert forall|j: int| last_user(messages) < j < messages.len() implies (#[trigger] messages[j]).role
            != "user"@ by {
            if j < rest.len() {
                assert(rest[j] == messages[j]);
            }
        }
    }
}

/// What a request carries is said by the user or the assistant, is not blank, and is trimmed.
pub proof fn law_requests_carry_no_blank_text(messages: Seq<Said>, i: int)
    requires
        0 <= i < admitted(messages).len(),
    ensures
        admitted(messages)[i].role == "user"@ || admitted(messages)[i].role == "assistant"@,
        admitted(messages)[i].content.len() > 0,
        trim(admitted(messages)[i].content) == admitted(messages)[i].content,
    decreases messages.len(),
{
    let last = messages.last();
    crate::text::lemma_trim_idempotent(last.content);
    if i < admitted(messages.drop_last()).len() {
        law_requests_carry_no_blank_text(messages.drop_last(), i);
    }
}

/// What a model's reply, or the failure of the call, comes to. The reply is the text of all its
/// parts, where it has any.
pub fn chat_outcome(reply: Result<Option<String>, String>) -> (text: Result<String, String>)
    ensures
        match reply {
            Err(error) => text is Err && text->Err_0@ == "模型调用失败："@ + error@,
            Ok(reply) => match nonblank_text(option_view(reply)) {
                Some(found) => text is Ok && text->Ok_0@ == found,
                None => text is Err && text->Err_0@ == "模型未返回文字内容"@,
            },
        },
{
    match reply {
        Err(error) => Err("模型调用失败：".to_string().concat(error.as_str())),
        Ok(reply) => match trimmed_nonblank(reply) {
            Some(text) => Ok(text),
            None => Err("模型未返回文字内容".to_string()),
        },
    }
}

/// The name of a model, and its lower-case form.
pub struct ModelName {
    pub name: String,
    pub key: String,
}

impl Ranked for ModelName {
    open spec fn ranks_before(&self, other: &Self) -> bool {
        text_le(self.key@, other.key@)
    }

    proof fn ranks_total(&self, other: &Self) {
        crate::ordering::lemma_text_le_total(self.key@, other.key@);
    }

    proof fn ranks_transitive(&self, middle: &Self, other: &Self) {
        crate::ordering::lemma_text_le_transitive(self.key@, middle.key@, other.key@);
    }

    fn may_precede(&self, other: &Self) -> (yes: bool) {
        comes_first(self.key.as_str(), other.key.as_str())
    }
}

/// The names in a list of models.
pub open spec fn names_of(models: Seq<ModelName>) -> Seq<Seq<char>> {
    models.map_values(|model: ModelName| model.name@)
}

/// `texts` with each run of equal ones shortened to one.
pub open spec fn deduplicated(texts: Seq<Seq<char>>) -> Seq<Seq<char>>
    decreases texts.len(),
{
    if texts.len() == 0 {
        texts
    } else {
        let before = deduplicated(texts.drop_last());
        if texts.len() > 1 && texts[texts.len() - 2] == texts.last() {
            before
        } else {
            before.push(texts.last())
        }
    }
}

/// Orders models by the lower-case forms of their names and lists each run of equal names once.
pub fn arrange_models(models: Vec<ModelName>) -> (names: Vec<String>)
    ensures
        exists|sorted: Seq<ModelName>| #[trigger]
            is_sorting_of(sorted, models@) && views(names@) == deduplicated(names_of(sorted)),
{
    let sorted = sort(models);
    let ghost listed = names_of(sorted@);
    let mut names: Vec<String> = Vec::new();
    let mut i: usize = 0;
    while i < sorted.len()
        invariant
            i <= sorted@.len(),
            listed == names_of(sorted@),
            views(names@) == deduplicated(listed.take(i as int)),
        decreases sorted@.len() - i,
    {
        let ghost before = names@;
        assert(listed.take(i + 1).drop_last() == listed.take(i as int));
        if i == 0 || !same_text(sorted[i - 1].name.as_str(), sorted[i].name.as_str()) {
            names.push(sorted[i].name.clone());
            assert(views(names@) =~= views(before).push(listed[i as int]));
        }
        i += 1;
    }
    assert(listed.take(i as int) == listed);
    names
}

/// The names that are not blank.
pub open spec fn nonblank(names: Seq<Seq<char>>) -> Seq<Seq<char>> {
    names.filter(|name: Seq<char>| !is_blank(name))
}

/// Each of `models` has the lower-case form of its name beside it.
pub open spec fn keyed(models: Seq<ModelName>) -> bool {
    forall|i: int| 0 <= i < models.len() ==> (#[trigger] models[i]).key@ == lowercase(models[i].name@)
}

/// `listed` are the models with the names `names`: without the blank ones, ordered by their
/// lower-case forms, each run of equal names once.
pub open spec fn is_model_list(listed: Seq<Seq<char>>, names: Seq<Seq<char>>) -> bool {
    exists|models: Seq<ModelName>, sorted: Seq<ModelName>| #[trigger]
        is_sorting_of(sorted, models) && keyed(models) && names_of(models) == nonblank(names) && listed
            == deduplicated(names_of(sorted))
}

/// Makes the list of a provider's models, or says why there is none.
pub fn listed_models(names: Result<Vec<String>, String>) -> (listed: Result<Vec<String>, String>)
    ensures
        match names {
            Err(error) => listed is Err && listed->Err_0@ == "获取模型列表失败："@ + error@,
            Ok(names) => listed is Ok && is_model_list(views(listed->Ok_0@), views(names@)),
        },
{
    let names = match names {
        Ok(names) => names,
        Err(error) => {
            return Err("获取模型列表失败：".to_string().concat(error.as_str()));
        },
    };
    let ghost keep = |name: Seq<char>| !is_blank(name);
    let mut models: Vec<ModelName> = Vec::new();
    let mut i: usize = 0;
    while i < names.len()
        invariant
            i <= names@.len(),
            keep == (|name: Seq<char>| !is_blank(name)),
            keyed(models@),
            names_of(models@) == views(names@).take(i as int).filter(keep),
        decreases names@.len() - i,
    {
        reveal(Seq::filter);
        let ghost before = models@;
        assert(views(names@).take(i + 1).drop_last() == views(names@).take(i as int));
        if !blank(names[i].as_str()) {
            let name = names[i].clone();
            let key = lowercased(name.as_str());
            models.push(ModelName { name, key });
            assert(names_of(models@) =~= names_of(before).push(names@[i as int]@));
        }
        i += 1;
    }
    assert(views(names@).take(i as int) == views(names@));
    Ok(arrange_models(models))
}

/// A list of models holds exactly the names that are not blank, ordered by their lower-case forms,
/// and no name twice in a row.
pub proof fn law_model_list_is_complete_and_ordered(listed: Seq<Seq<char>>, names: Seq<Seq<char>>)
    requires
        is_model_list(listed, names),
    ensures
        forall|name: Seq<char>| #[trigger] listed.contains(name) <==> names.contains(name) && !is_blank(name),
        forall|i: int, j: int|
            0 <= i < j < listed.len() ==> text_le(lowercase(#[trigger] listed[i]), lowercase(#[trigger] listed[j])),
        forall|i: int| 0 < i < listed.len() ==> listed[i - 1] != #[trigger] listed[i],
{
    let (models, sorted) = choose|models: Seq<ModelName>, sorted: Seq<ModelName>| #[trigger]
        is_sorting_of(sorted, models) && keyed(models) && names_of(models) == nonblank(names) && listed
            == deduplicated(names_of(sorted));
    let order = choose|order: Seq<int>| sorted_along(sorted, models, order);
    let all = names_of(sorted);
    let kept = nonblank(names);
    let keep = |name: Seq<char>| !is_blank(name);
    assert forall|i: int, j: int| 0 <= i < j < all.len() implies text_le(
        lowercase(#[trigger] all[i]),
        lowercase(#[trigger] all[j]),
    ) by {
        assert(sorted[i].ranks_before(&sorted[j]));
        assert(sorted[i] == models[order[i]]);
        assert(sorted[j] == models[order[j]]);
    }
    lemma_deduplicated(all);
    assert forall|name: Seq<char>| #[trigger] listed.contains(name) <==> names.contains(name) && !is_blank(
        name,
    ) by {
        lemma_filtered(names, keep, name);
        if listed.contains(name) {
            assert(all.contains(name));
            let i = choose|i: int| 0 <= i < all.len() && all[i] == name;
            assert(sorted[i] == models[order[i]]);
            assert(kept[order[i]] == name);
        }
        if kept.contains(name) {
            let k = choose|k: int| 0 <= k < kept.len() && kept[k] == name;
            lemma_permutation_onto(order, models.len() as int, k);
            let i = choose|i: int| 0 <= i < order.len() && order[i] == k;
            assert(sorted[i] == models[order[i]]);
            assert(all[i] == name);
            assert(all.contains(name));
        }
    }
}

/// A filtered list holds what passes the filter.
proof fn lemma_filtered(items: Seq<Seq<char>>, keep: spec_fn(Seq<char>) -> bool, item: Seq<char>)
    ensures
        items.filter(keep).contains(item) <==> items.contains(item) && keep(item),
    decreases items.len(),
{
    reveal(Seq::filter);
    if items.len() > 0 {
        let rest = items.drop_last();
        lemma_filtered(rest, keep, item);
        if rest.filter(keep).contains(item) {
            let k = choose|k: int| 0 <= k < rest.filter(keep).len() && rest.filter(keep)[k] == item;
            assert(items.filter(keep)[k] == item);
            let j = choose|j: int| 0 <= j < rest.len() && rest[j] == item;
            assert(items[j] == item);
        }
        if items.filter(keep).contains(item) && !rest.filter(keep).contains(item) {
            let k = choose|k: int| 0 <= k < items.filter(keep).len() && items.filter(keep)[k] == item;
            if k < rest.filter(keep).len() {
                assert(rest.filter(keep)[k] == item);
            }
            assert(items[items.len() - 1] == item);
        }
        if items.contains(item) && keep(item) && !rest.contains(item) {
            let j = choose|j: int| 0 <= j < items.len() && items[j] == item;
            if j < rest.len() {
                assert(rest[j] == item);
            }
            assert(items.filter(keep)[items.filter(keep).len() - 1] == item);
        }
    }
}

/// A permutation lists every index.
proof fn lemma_permutation_onto(order: Seq<int>, n: int, k: int)
    requires
        is_permutation(order, n),
        0 <= k < n,
    ensures
        exists|i: int| 0 <= i < order.len() && order[i] == k,
{
    if !exists|i: int| 0 <= i < order.len() && order[i] == k {
        let all = vstd::set_lib::set_int_range(0, n);
        let listed = order.to_set();
        vstd::set_lib::lemma_int_range(0, n);
        assert(order.no_duplicates());
        order.unique_seq_to_set();
        assert forall|x: int| listed.contains(x) implies all.remove(k).contains(x) by {
            let i = choose|i: int| 0 <= i < order.len() && order[i] == x;
        }
        vstd::set_lib::lemma_len_subset(listed, all.remove(k));
    }
}

/// Shortening runs keeps what a list holds, its order, and leaves no two equal neighbours.
proof fn lemma_deduplicated(texts: Seq<Seq<char>>)
    ensures
        texts.len() > 0 ==> deduplicated(texts).len() > 0 && deduplicated(texts).last() == texts.last(),
        forall|text: Seq<char>| #[trigger] deduplicated(texts).contains(text) <==> texts.contains(text),
        forall|i: int| 0 < i < deduplicated(texts).len() ==> deduplicated(texts)[i - 1]
            != #[trigger] deduplicated(texts)[i],
        (forall|i: int, j: int|
            0 <= i < j < texts.len() ==> text_le(lowercase(#[trigger] texts[i]), lowercase(#[trigger] texts[j])))
            ==> (forall|i: int, j: int|
            0 <= i < j < deduplicated(texts).len() ==> text_le(
                lowercase(#[trigger] deduplicated(texts)[i]),
                lowercase(#[trigger] deduplicated(texts)[j]),
            )),
    decreases texts.len(),
{
    if texts.len() > 0 {
        let rest = texts.drop_last();
        let before = deduplicated(rest);
        let after = deduplicated(texts);
        lemma_deduplicated(rest);
        assert forall|text: Seq<char>| #[trigger] after.contains(text) <==> texts.contains(text) by {
            if after.contains(text) && !rest.contains(text) {
                assert(!before.contains(text));
                let k = choose|k: int| 0 <= k < after.len() && after[k] == text;
                if k < before.len() {
                    assert(before[k] == text);
                }
                assert(texts[texts.len() - 1] == text);
            }
            if rest.contains(text) {
                let j = choose|j: int| 0 <= j < rest.len() && rest[j] == text;
                assert(texts[j] == text);
                assert(before.contains(text));
                let k = choose|k: int| 0 <= k < before.len() && before[k] == text;
                assert(after[k] == text);
            } else if texts.contains(text) {
                let j = choose|j: int| 0 <= j < texts.len() && texts[j] == text;
                if j < rest.len() {
                    assert(rest[j] == text);
                }
                assert(after[after.len() - 1] == text);
            }
        }
        if texts.len() > 1 {
            assert(rest.last() == texts[texts.len() - 2]);
        }
        if forall|i: int, j: int|
            0 <= i < j < texts.len() ==> text_le(lowercase(#[trigger] texts[i]), lowercase(#[trigger] texts[j])) {
            assert forall|i: int, j: int| 0 <= i < j < rest.len() implies text_le(
                lowercase(#[trigger] rest[i]),
                lowercase(#[trigger] rest[j]),
            ) by {
                assert(rest[i] == texts[i] && rest[j] == texts[j]);
            }
            assert forall|i: int, j: int| 0 <= i < j < after.len() implies text_le(
                lowercase(#[trigger] after[i]),
                lowercase(#[trigger] after[j]),
            ) by {
                if j < before.len() {
                    assert(before[i] == after[i] && before[j] == after[j]);
                } else {
                    assert(after[i] == before[i]);
                    assert(before.contains(before[i]));
                    assert(rest.contains(before[i]));
                    let k = choose|k: int| 0 <= k < rest.len() && rest[k] == before[i];
                    assert(texts[k] == before[i]);
                    assert(after[j] == texts[texts.len() - 1]);
                }
            }
        }
    }
}

/// Only what belongs to a request is taken off the address of a provider: an address without it
/// stays, with slashes behind it or without.
pub proof fn law_addresses_keep_their_base(base: Seq<char>, adapter: AdapterKind)
    requires
        base.len() > 0,
        trim(base) == base,
        base.last() != '/',
        !"/api/chat"@.is_suffix_of(base),
        !"/messages"@.is_suffix_of(base),
        !"/chat/completions"@.is_suffix_of(base),
    ensures
        base_of(base, adapter) == base,
        base_of(base + "/"@, adapter) == base,
        adapter == AdapterKind::Ollama ==> base_of(base + "/api/chat"@, adapter) == base,
        adapter == AdapterKind::Anthropic ==> base_of(base + "/messages"@, adapter) == base,
        adapter == AdapterKind::OpenAI || adapter == AdapterKind::Other ==> base_of(
            base + "/chat/completions"@,
            adapter,
        ) == base,
{
    lemma_base_without_suffix(base, adapter);
    lemma_base_with_suffix(base, adapter);
}

/// What belongs to a request ends with a character that is no slash and no white space.
proof fn lemma_request_suffix(adapter: AdapterKind)
    ensures
        request_suffix(adapter).len() > 0,
        request_suffix(adapter).last() != '/',
        !crate::text::is_white(request_suffix(adapter).last()),
{
    reveal_strlit("/api/chat");
    reveal_strlit("/messages");
    reveal_strlit("/chat/completions");
}

/// An address that does not end with what belongs to a request stays.
proof fn lemma_base_without_suffix(base: Seq<char>, adapter: AdapterKind)
    requires
        base.len() > 0,
        trim(base) == base,
        base.last() != '/',
        !request_suffix(adapter).is_suffix_of(base),
    ensures
        base_of(base, adapter) == base,
        base_of(base + "/"@, adapter) == base,
{
    reveal_strlit("/");
    lemma_without_slashes(base, Seq::empty());
    assert(base + Seq::<char>::empty() =~= base);
    lemma_without_slashes(base, "/"@);
}

/// Slashes behind an address are taken off.
proof fn lemma_without_slashes(base: Seq<char>, slashes: Seq<char>)
    requires
        base.len() > 0,
        trim(base) == base,
        base.last() != '/',
        forall|i: int| 0 <= i < slashes.len() ==> #[trigger] slashes[i] == '/',
    ensures
        without_slashes(trim(base + slashes)) == base,
{
    let whole = base + slashes;
    crate::text::lemma_trim_ends(base);
    assert(whole[0] == base[0]);
    if slashes.len() > 0 {
        assert(whole.last() == slashes[slashes.len() - 1]);
    } else {
        assert(whole =~= base);
    }
    crate::text::lemma_trim_fixed(whole);
    crate::text::lemma_drop_end_while_exact(base, slashes, slash_chars());
}

/// What belongs to a request is taken off an address.
proof fn lemma_base_with_suffix(base: Seq<char>, adapter: AdapterKind)
    requires
        base.len() > 0,
        trim(base) == base,
        base.last() != '/',
    ensures
        base_of(base + request_suffix(adapter), adapter) == base,
{
    let suffix = request_suffix(adapter);
    lemma_request_suffix(adapter);
    lemma_suffix_taken_off(base, suffix);
}

/// The end of an address is taken off it.
proof fn lemma_suffix_taken_off(base: Seq<char>, suffix: Seq<char>)
    requires
        base.len() > 0,
        trim(base) == base,
        base.last() != '/',
        suffix.len() > 0,
        suffix.last() != '/',
        !crate::text::is_white(suffix.last()),
    ensures
        without_slashes(trim(base + suffix)) == base + suffix,
        suffix.is_suffix_of(base + suffix),
        without_slashes((base + suffix).take((base + suffix).len() - suffix.len())) == base,
{
    let whole = base + suffix;
    assert(trim(whole) == whole) by {
        crate::text::lemma_trim_ends(base);
        assert(whole[0] == base[0]);
        assert(whole.last() == suffix.last());
        crate::text::lemma_trim_fixed(whole);
    }
    assert(without_slashes(whole) == whole) by {
        assert(whole.last() == suffix.last());
        lemma_no_slashes(whole);
    }
    assert(suffix.is_suffix_of(whole)) by {
        assert(whole.subrange(whole.len() - suffix.len(), whole.len() as int) =~= suffix);
    }
    assert(without_slashes(whole.take(whole.len() - suffix.len())) == base) by {
        assert(whole.take(whole.len() - suffix.len()) =~= base);
        lemma_no_slashes(base);
    }
}

/// An address that does not end with a slash stays.
proof fn lemma_no_slashes(base: Seq<char>)
    requires
        base.len() > 0,
        base.last() != '/',
    ensures
        without_slashes(base) == base,
{
}

/// A text that is not blank is handed on, trimmed; a blank one counts as none.
pub proof fn law_blank_texts_count_as_none(text: Seq<char>)
    ensures
        is_blank(text) ==> nonblank_text(Some(text)) is None,
        !is_blank(text) ==> nonblank_text(Some(text)) == Some(trim(text)),
        nonblank_text(None) is None,
{
}

/// A conversation is carried message by message: what is kept of two parts is kept of the whole, in
/// order. Of one message the text of the user or of the assistant is kept, and nothing else.
pub proof fn law_conversations_are_carried(left: Seq<Said>, right: Seq<Said>, said: Said)
    ensures
        admitted(left + right) == admitted(left) + admitted(right),
        lowercase(trim(said.role)) == "user"@ && !is_blank(said.content) ==> admitted(seq![said]) == seq![
            Said { role: "user"@, content: trim(said.content) },
        ],
        lowercase(trim(said.role)) == "assistant"@ && !is_blank(said.content) ==> admitted(seq![said]) == seq![
            Said { role: "assistant"@, content: trim(said.content) },
        ],
        lowercase(trim(said.role)) != "user"@ && lowercase(trim(said.role)) != "assistant"@ ==> admitted(
            seq![said],
        ).len() == 0,
        is_blank(said.content) ==> admitted(seq![said]).len() == 0,
    decreases right.len(),
{
    assert(seq![said].drop_last() =~= Seq::<Said>::empty());
    assert(seq![said].last() == said);
    reveal_with_fuel(admitted, 2);
    if right.len() == 0 {
        assert(left + right =~= left);
        assert(admitted(left + right) =~= admitted(left) + admitted(right));
    } else {
        law_conversations_are_carried(left, right.drop_last(), said);
        assert((left + right).drop_last() =~= left + right.drop_last());
        assert((left + right).last() == right.last());
        assert(admitted(left + right) =~= admitted(left) + admitted(right));
    }
}

/// A request says what the conversation says, message by message, with the roles that it has there;
/// the image that goes with it is the one that was given.
pub proof fn law_requests_say_the_conversation(messages: Seq<Said>, image: Option<(Seq<char>, Seq<char>)>, i: int)
    requires
        0 <= i < messages.len(),
    ensures
        request_messages(messages, image).len() == messages.len(),
        ({
            let sent = request_messages(messages, image)[i];
            &&& sent.content.len() >= 1
            &&& sent.content[0] == PartView::Text(messages[i].content)
            &&& messages[i].role == "user"@ <==> sent.role == ChatRole::User
            &&& messages[i].role != "user"@ <==> sent.role == ChatRole::Assistant
            &&& forall|k: int|
                1 <= k < sent.content.len() ==> {
                    &&& (#[trigger] sent.content[k]) is Image
                    &&& image is Some
                    &&& sent.content[k]->content_type == (image->0).0
                    &&& sent.content[k]->base64 == (image->0).1
                }
        }),
{
}

/// The address of an image is taken apart into the type and the data that it was made of.
pub proof fn law_image_addresses_are_taken_apart(content_type: Seq<char>, base64: Seq<char>)
    requires
        "image/"@.is_prefix_of(content_type),
        !content_type.contains(','),
        base64.len() > 0,
        trim(base64) == base64,
    ensures
        image_url("data:"@ + content_type + ";base64,"@ + base64) == (ImageUrl::Image { content_type, base64 }),
{
    let front = "data:"@ + content_type + ";base64"@;
    lemma_image_front(content_type);
    lemma_first_comma(front, base64);
    reveal_strlit(";base64,");
    reveal_strlit(";base64");
    assert(";base64,"@ =~= ";base64"@ + seq![',']);
    assert("data:"@ + content_type + ";base64,"@ + base64 =~= front + seq![','] + base64);
}

/// The text that stands before the comma in the address of an image.
proof fn lemma_image_front(content_type: Seq<char>)
    requires
        !content_type.contains(','),
    ensures
        ({
            let front = "data:"@ + content_type + ";base64"@;
            let named = front.skip("data:"@.len() as int);
            &&& front.len() > 0
            &&& !front.contains(',')
            &&& !crate::text::is_white(front[0])
            &&& "data:"@.is_prefix_of(front)
            &&& ";base64"@.is_suffix_of(named)
            &&& named.take(named.len() - ";base64"@.len()) == content_type
        }),
{
    reveal_strlit("data:");
    reveal_strlit(";base64");
    let front = "data:"@ + content_type + ";base64"@;
    let named = front.skip(5);
    assert forall|i: int| 0 <= i < front.len() implies #[trigger] front[i] != ',' by {
        if 5 <= i && i < 5 + content_type.len() {
            assert(front[i] == content_type[i - 5]);
            assert(content_type.contains(content_type[i - 5]));
        } else if i >= 5 + content_type.len() {
            assert(front[i] == ";base64"@[i - 5 - content_type.len()]);
        }
    }
    assert(front[0] == 'd');
    assert(front.subrange(0, 5) =~= "data:"@);
    assert(named =~= content_type + ";base64"@);
    assert(named.subrange(named.len() - 7, named.len() as int) =~= ";base64"@);
    assert(named.take(named.len() - 7) =~= content_type);
}

/// A text is parted at its first comma.
proof fn lemma_first_comma(front: Seq<char>, rest: Seq<char>)
    requires
        front.len() > 0,
        !front.contains(','),
        !crate::text::is_white(front[0]),
        rest.len() > 0,
        trim(rest) == rest,
    ensures
        ({
            let value = front + seq![','] + rest;
            &&& trim(value) == value
            &&& index_of_char(value, ',') == front.len()
            &&& value.take(front.len() as int) == front
            &&& value.skip((front.len() + 1) as int) == rest
        }),
{
    let value = front + seq![','] + rest;
    crate::text::lemma_trim_ends(rest);
    assert(value[0] == front[0]);
    assert(value.last() == rest.last());
    crate::text::lemma_trim_fixed(value);
    assert(value[front.len() as int] == ',');
    assert forall|i: int| 0 <= i < front.len() implies #[trigger] value[i] != ',' by {
        assert(front.contains(front[i]));
    }
    crate::text::lemma_index_of_char(value, ',', front.len() as int);
    assert(value.take(front.len() as int) =~= front);
    assert(value.skip((front.len() + 1) as int) =~= rest);
}

/// The protocols that requests differ by are told apart by their names.
pub proof fn law_protocols_are_told_apart(name: Seq<char>)
    ensures
        adapter_named(name) is Some <==> adapter_names().contains(name),
        adapter_named(name) == Some(AdapterKind::Ollama) ==> name == "ollama"@,
        adapter_named(name) == Some(AdapterKind::Anthropic) ==> name == "anthropic"@,
        adapter_named(name) == Some(AdapterKind::OpenAI) ==> name == "openai"@,
        adapter_named("ollama"@) == Some(AdapterKind::Ollama),
        adapter_named("anthropic"@) == Some(AdapterKind::Anthropic),
        adapter_named("openai"@) == Some(AdapterKind::OpenAI),
        adapter_names().contains(name) && name != "ollama"@ && name != "anthropic"@ && name != "openai"@
            ==> adapter_named(name) == Some(AdapterKind::Other),
{
    assert(adapter_names()[18] == "ollama"@);
    assert(adapter_names()[3] == "anthropic"@);
    assert(adapter_names()[0] == "openai"@);
    reveal_strlit("ollama");
    reveal_strlit("anthropic");
    reveal_strlit("openai");
    assert("ollama"@[1] == 'l' && "openai"@[1] == 'p' && "anthropic"@.len() == 9 && "ollama"@.len() == 6
        && "openai"@.len() == 6);
}

/// A request carries the key that was given, whatever the provider; without one it goes to a custom
/// service as it is, to the address of its chats.
pub proof fn law_requests_carry_the_key(
    target: ServiceTarget,
    provider: Seq<char>,
    name: Seq<char>,
    adapter: AdapterKind,
    base: Seq<char>,
    key: Option<Seq<char>>,
    model: Seq<char>,
)
    requires
        target.leads_to(provider, name, adapter, base, key, model),
    ensures
        target.endpoint@ == base + "/"@,
        target.model@ == trim(model),
        target.adapter_name@ == name,
        target.adapter == adapter,
        key is Some && !is_blank(key->0) ==> target.auth is Key && target.auth->Key_0@ == trim(key->0),
        (key is None || is_blank(key->0)) && provider == "custom"@ && adapter == AdapterKind::OpenAI
            ==> target.auth is RequestOverride && target.auth->url@ == base + "/chat/completions"@
            && target.auth->headers@.len() == 0,
        (key is None || is_blank(key->0)) && (provider != "custom"@ || adapter != AdapterKind::OpenAI)
            ==> target.auth is Unauthenticated,
{
    reveal_strlit("/");
    reveal_strlit("/chat/completions");
    reveal_strlit("chat/completions");
    assert(base.push('/') =~= base + "/"@);
    assert(base.push('/') + "chat/completions"@ =~= base + "/chat/completions"@);
}

/// A request can be made exactly when the protocol is known, there is a model and an address, and
/// there is a key where one is needed: everywhere but with Ollama and a custom service.
pub proof fn law_what_a_request_needs(
    provider: &str,
    name: String,
    base_url: &str,
    key: Option<String>,
    model: &str,
    target: Result<ServiceTarget, String>,
)
    requires
        call_ensures(service_target_for, (provider, name, base_url, key, model), target),
    ensures
        target is Ok <==> {
            &&& adapter_names().contains(name@)
            &&& !is_blank(model@)
            &&& without_slashes(trim(base_url@)).len() > 0
            &&& (key is Some && !is_blank(key->0@)) || name@ == "ollama"@ || (provider@ == "custom"@ && name@
                == "openai"@)
        },
        target is Ok ==> target->Ok_0.model@ == trim(model@) && target->Ok_0.adapter_name@ == name@,
        target is Ok && key is Some && !is_blank(key->0@) ==> target->Ok_0.auth is Key
            && target->Ok_0.auth->Key_0@ == trim(key->0@),
{
    law_protocols_are_told_apart(name@);
}

/// A reply with text is handed on, trimmed; anything else is a failure, and that of the call is told.
pub proof fn law_replies_are_handed_on(reply: Result<Option<String>, String>, text: Result<String, String>)
    requires
        call_ensures(chat_outcome, (reply,), text),
    ensures
        text is Ok <==> reply is Ok && reply->Ok_0 is Some && !is_blank((reply->Ok_0)->0@),
        text is Ok ==> text->Ok_0@ == trim((reply->Ok_0)->0@),
        reply is Err ==> reply->Err_0@.is_suffix_of(text->Err_0@),
{
    if reply is Err {
        let said = text->Err_0@;
        let error = reply->Err_0@;
        assert(said.subrange(said.len() - error.len(), said.len() as int) =~= error);
    }
}

/// A request says all that it is made of: each message in its place, with its text first, and the
/// system prompt, trimmed, where it is not blank.
pub proof fn law_requests_are_complete(
    request: ChatRequest,
    messages: Seq<Said>,
    image: Option<(Seq<char>, Seq<char>)>,
    system: Option<Seq<char>>,
    i: int,
)
    requires
        request.asks(messages, image, system),
        0 <= i < messages.len(),
    ensures
        request.messages@.len() == messages.len(),
        request.messages@[i].role == ChatRole::User <==> messages[i].role == "user"@,
        request.messages@[i].content@.len() >= 1,
        request.messages@[i].content@[0] is Text && request.messages@[i].content@[0]->Text_0@ == messages[i].content,
        system is Some && !is_blank(system->0) ==> request.system is Some && request.system->0@ == trim(system->0),
        system is None || is_blank(system->0) ==> request.system is None,
{
    law_requests_say_the_conversation(messages, image, i);
    let all = message_views(request.messages@);
    assert(all.len() == request.messages@.len());
    assert(all[i] == request.messages@[i]@);
    assert(all[i].content[0] == request.messages@[i].content@[0]@);
}

} // verus!
