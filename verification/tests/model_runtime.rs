use tauri_llm::assistant::{conversation_request, plan_direct_chat, text_request, AssistantModelSet};
use tauri_llm::model_runtime::{
    adapter_from_lower_str, admit_message, arrange_models, build_chat_request, build_listing_target,
    build_service_target, chat_outcome, chat_request_from, listed_models, normalize_base_url, parse_image_data_url,
    service_target_for, validated_messages, AdapterKind, AuthData, ChatInput, ChatRole, ContentPart,
    ConversationMessage, ModelName, ModelTarget, ProviderTarget,
};

fn said(role: &str, content: &str) -> ConversationMessage {
    ConversationMessage { role: role.to_string(), content: content.to_string() }
}

fn target(provider: &str, adapter: &str, base_url: &str, api_key: Option<&str>, model: &str) -> ModelTarget {
    ModelTarget {
        provider: provider.to_string(),
        adapter: adapter.to_string(),
        base_url: base_url.to_string(),
        api_key: api_key.map(str::to_string),
        model: model.to_string(),
    }
}

fn message_of<T>(result: Result<T, String>) -> String {
    match result {
        Ok(_) => panic!("an error was expected"),
        Err(message) => message,
    }
}

#[test]
fn normalizes_provider_base_urls() {
    assert_eq!(
        normalize_base_url("https://example.com/v1", AdapterKind::OpenAI).unwrap(),
        "https://example.com/v1/"
    );
    assert_eq!(
        normalize_base_url("https://example.com/v1/chat/completions/", AdapterKind::OpenAI).unwrap(),
        "https://example.com/v1/"
    );
    assert_eq!(
        normalize_base_url("http://127.0.0.1:11434/api/chat", AdapterKind::Ollama).unwrap(),
        "http://127.0.0.1:11434/"
    );
}

#[test]
fn base_urls_lose_only_the_suffix_of_their_protocol() {
    assert_eq!(
        normalize_base_url(" https://example.com/v1//messages// ", AdapterKind::Anthropic).unwrap(),
        "https://example.com/v1/"
    );
    assert_eq!(
        normalize_base_url("https://example.com/messages", AdapterKind::Other).unwrap(),
        "https://example.com/messages/"
    );
    assert_eq!(message_of(normalize_base_url(" // ", AdapterKind::OpenAI)), "Provider 服务地址未配置");
}

#[test]
fn parses_image_data_urls() {
    assert_eq!(
        parse_image_data_url("data:image/png;base64,AAAA").unwrap(),
        ("image/png".to_string(), "AAAA".to_string())
    );
    assert!(parse_image_data_url("data:text/plain;base64,AAAA").is_err());
    assert!(parse_image_data_url("AAAA").is_err());
}

#[test]
fn image_addresses_fail_for_their_own_reasons() {
    assert_eq!(message_of(parse_image_data_url("AAAA")), "窗口截图数据格式无效");
    assert_eq!(message_of(parse_image_data_url("data:text/plain;base64,AAAA")), "窗口截图不是有效的图片数据");
    assert_eq!(message_of(parse_image_data_url("data:image/png,AAAA")), "窗口截图不是有效的图片数据");
    assert_eq!(message_of(parse_image_data_url("data:image/png;base64, ")), "窗口截图数据为空");
}

#[test]
fn attaches_an_image_to_the_last_user_message() {
    let request = build_chat_request(ChatInput {
        system_prompt: Some("Be concise".to_string()),
        messages: vec![said("assistant", "Ready"), said("user", "What is visible?")],
        image_data_url: Some("data:image/png;base64,AAAA".to_string()),
    })
    .unwrap();

    assert_eq!(request.system.as_deref(), Some("Be concise"));
    assert_eq!(request.messages.len(), 2);
    let mut texts = Vec::new();
    let mut images = Vec::new();
    for part in &request.messages[1].content {
        match part {
            ContentPart::Text(text) => texts.push(text.as_str()),
            ContentPart::Image { content_type, .. } => images.push(content_type.as_str()),
        }
    }
    assert_eq!(texts.first().copied(), Some("What is visible?"));
    assert_eq!(images.len(), 1);
    assert_eq!(images[0], "image/png");
}

#[test]
fn only_the_last_user_message_holds_the_image() {
    let request = chat_request_from(
        vec![said("user", "first"), said("user", "second"), said("assistant", "third")],
        Some("data:image/jpeg;base64,QUJD".to_string()),
        Some("   ".to_string()),
    )
    .unwrap();
    assert!(request.system.is_none());
    let counts: Vec<usize> = request.messages.iter().map(|message| message.content.len()).collect();
    assert_eq!(counts, vec![1, 2, 1]);
    assert_eq!(request.messages[2].role, ChatRole::Assistant);
    match &request.messages[1].content[1] {
        ContentPart::Image { content_type, base64, name } => {
            assert_eq!(content_type, "image/jpeg");
            assert_eq!(base64, "QUJD");
            assert_eq!(*name, "desktop-capture.png");
        }
        _ => panic!("the second part should be the image"),
    }
}

#[test]
fn messages_are_filtered_and_trimmed() {
    let kept = validated_messages(vec![
        said(" User ", "  hello  "),
        said("system", "ignored"),
        said("ASSISTANT", "fine"),
        said("user", "   "),
    ])
    .unwrap();
    let pairs: Vec<(String, String)> = kept.into_iter().map(|message| (message.role, message.content)).collect();
    assert_eq!(
        pairs,
        vec![
            ("user".to_string(), "hello".to_string()),
            ("assistant".to_string(), "fine".to_string())
        ]
    );
    assert_eq!(message_of(validated_messages(vec![said("user", " ")])), "请输入要发送给模型的内容");
    assert!(admit_message("tool".to_string(), "text").is_none());
    assert_eq!(
        message_of(build_chat_request(ChatInput {
            system_prompt: None,
            messages: Vec::new(),
            image_data_url: Some("not an image".to_string()),
        })),
        "请输入要发送给模型的内容"
    );
}

#[test]
fn permits_an_unauthenticated_custom_openai_endpoint() {
    let target = build_service_target(ModelTarget {
        provider: "custom".to_string(),
        adapter: "openai".to_string(),
        base_url: "http://127.0.0.1:8080/v1".to_string(),
        api_key: None,
        model: "local-model".to_string(),
    })
    .unwrap();

    match target.auth {
        AuthData::RequestOverride { url, headers } => {
            assert_eq!(url, "http://127.0.0.1:8080/v1/chat/completions");
            assert_eq!(headers.iter().count(), 0);
        }
        _ => panic!("custom endpoint should use a request override"),
    }
}

#[test]
fn targets_are_checked_in_order() {
    assert_eq!(
        message_of(build_service_target(target("x", " Nonsense ", "", None, ""))),
        "Provider 使用了不支持的适配类型：nonsense"
    );
    assert_eq!(
        message_of(build_service_target(target("x", "OpenAI", "", None, " "))),
        "请配置要使用的文字或视觉模型"
    );
    assert_eq!(
        message_of(build_service_target(target("x", "openai", "", Some("  "), "m"))),
        "Provider 访问密钥未配置"
    );
    assert_eq!(
        message_of(build_service_target(target("x", "openai", " / ", Some("k"), "m"))),
        "Provider 服务地址未配置"
    );
    let service = build_service_target(target("Custom", "OPENAI", "http://h/v1/", Some(" key "), " m ")).unwrap();
    assert_eq!(service.endpoint, "http://h/v1/");
    assert_eq!(service.adapter_name, "openai");
    assert_eq!(service.adapter, AdapterKind::OpenAI);
    assert_eq!(service.model, "m");
    match service.auth {
        AuthData::Key(key) => assert_eq!(key, "key"),
        _ => panic!("the key should be used"),
    }
    let local = service_target_for("ollama", "ollama".to_string(), "http://h/api/chat", None, "m").unwrap();
    assert!(matches!(local.auth, AuthData::Unauthenticated));
    assert_eq!(local.endpoint, "http://h/");
}

#[test]
fn protocols_are_those_of_the_client() {
    assert_eq!(adapter_from_lower_str("openai"), Some(AdapterKind::OpenAI));
    assert_eq!(adapter_from_lower_str("anthropic"), Some(AdapterKind::Anthropic));
    assert_eq!(adapter_from_lower_str("ollama"), Some(AdapterKind::Ollama));
    for name in [
        "openai_resp", "gemini", "fireworks", "together", "groq", "aihubmix", "mimo", "moonshot", "nebius", "xai",
        "deepseek", "zai", "bigmodel", "aliyun", "baidu", "cohere", "ollama_cloud", "vertex", "github_copilot",
        "opencode_go", "bedrock_api", "open_router", "minimax",
    ] {
        assert_eq!(adapter_from_lower_str(name), Some(AdapterKind::Other), "{}", name);
    }
    assert_eq!(adapter_from_lower_str("OpenAI"), None);
    assert_eq!(adapter_from_lower_str(""), None);
    assert_eq!(adapter_from_lower_str("bedrock_sigv4"), None);
}

#[test]
fn listing_targets_need_no_key() {
    let listing = build_listing_target(ProviderTarget {
        adapter: " Ollama ".to_string(),
        base_url: "http://h/api/chat".to_string(),
        api_key: Some(" ".to_string()),
    })
    .unwrap();
    assert_eq!(listing.endpoint, "http://h/");
    assert_eq!(listing.adapter_name, "ollama");
    assert!(listing.api_key.is_none());
    assert_eq!(
        message_of(build_listing_target(ProviderTarget {
            adapter: "x".to_string(),
            base_url: "h".to_string(),
            api_key: None,
        })),
        "Provider 使用了不支持的适配类型：x"
    );
    assert_eq!(
        message_of(build_listing_target(ProviderTarget {
            adapter: "openai".to_string(),
            base_url: " ".to_string(),
            api_key: None,
        })),
        "Provider 服务地址未配置"
    );
}

#[test]
fn replies_are_trimmed_or_explained() {
    assert_eq!(chat_outcome(Ok(Some("  hi  ".to_string()))).unwrap(), "hi");
    assert_eq!(message_of(chat_outcome(Ok(Some(" ".to_string())))), "模型未返回文字内容");
    assert_eq!(message_of(chat_outcome(Ok(None))), "模型未返回文字内容");
    assert_eq!(message_of(chat_outcome(Err("no route".to_string()))), "模型调用失败：no route");
}

#[test]
fn model_lists_are_ordered_without_blanks_and_repeats() {
    let names = ["b", "", "A", "  ", "c", "b", "É", "é"];
    let listed = listed_models(Ok(names.iter().map(|name| name.to_string()).collect())).unwrap();
    assert_eq!(listed, vec!["A", "b", "c", "É", "é"]);
    assert_eq!(message_of(listed_models(Err("offline".to_string()))), "获取模型列表失败：offline");
    let arranged = arrange_models(vec![
        ModelName { name: "X".to_string(), key: "2".to_string() },
        ModelName { name: "Y".to_string(), key: "1".to_string() },
        ModelName { name: "X".to_string(), key: "2".to_string() },
    ]);
    assert_eq!(arranged, vec!["Y", "X"]);
}

fn models(vision: bool) -> AssistantModelSet {
    AssistantModelSet {
        controller: target("p", "openai", "u", None, "text"),
        vision: if vision { Some(target("p", "openai", "u", None, "vision")) } else { None },
        speech: None,
    }
}

#[test]
fn images_go_to_the_vision_model() {
    let request = conversation_request(models(true), None, vec![said("user", "x")], Some(" data ".to_string()));
    assert!(!request.allow_desktop_actions);
    let (target, input) = match plan_direct_chat(request) {
        Ok(plan) => plan,
        Err(message) => panic!("{}", message),
    };
    assert_eq!(target.model, "vision");
    assert_eq!(input.image_data_url.as_deref(), Some("data"));

    let request = conversation_request(models(true), None, vec![said("user", "x")], Some("  ".to_string()));
    let (target, input) = match plan_direct_chat(request) {
        Ok(plan) => plan,
        Err(message) => panic!("{}", message),
    };
    assert_eq!(target.model, "text");
    assert!(input.image_data_url.is_none());

    let request = conversation_request(models(false), None, vec![said("user", "x")], Some("data".to_string()));
    assert_eq!(message_of(plan_direct_chat(request)), "视觉模型 Provider 未配置");
}

#[test]
fn text_requests_carry_one_message() {
    let request = text_request(target("p", "a", "u", None, "m"), "prompt", "words".to_string());
    assert_eq!(request.system_prompt.as_deref(), Some("prompt"));
    assert_eq!(request.messages.len(), 1);
    assert_eq!(request.messages[0].role, "user");
    assert_eq!(request.messages[0].content, "words");
    assert!(request.models.vision.is_none() && request.models.speech.is_none());
}

#[test]
fn normalized_addresses_stay_unless_they_still_name_a_request() {
    let once = normalize_base_url(" https://a/v1//chat/completions/ ", AdapterKind::OpenAI).unwrap();
    assert_eq!(once, "https://a/v1/");
    assert_eq!(normalize_base_url(&once, AdapterKind::OpenAI).unwrap(), once);
    let twice = normalize_base_url("x/chat/completions/chat/completions", AdapterKind::OpenAI).unwrap();
    assert_eq!(twice, "x/chat/completions/");
    assert_eq!(normalize_base_url(&twice, AdapterKind::OpenAI).unwrap(), "x/");
}
