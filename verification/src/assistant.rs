//! Which model answers a request to the assistant.

use vstd::prelude::*;

use crate::model_runtime::{nonblank_text, trimmed_nonblank, ChatInput, ConversationMessage, ModelTarget};
use crate::transcript::option_view;

verus! {

/// The models that the assistant can use.
pub struct AssistantModelSet {
    pub controller: ModelTarget,
    pub vision: Option<ModelTarget>,
    pub speech: Option<ModelTarget>,
}

/// A request to the assistant.
pub struct AssistantRequest {
    pub models: AssistantModelSet,
    pub system_prompt: Option<String>,
    pub messages: Vec<ConversationMessage>,
    pub image_data_url: Option<String>,
    pub allow_desktop_actions: bool,
}

impl AssistantModelSet {
    /// The model that answers directly: the vision model where there is something to see.
    pub fn into_direct_target(self, needs_vision: bool) -> (target: Result<ModelTarget, String>)
        ensures
            if !needs_vision {
                target == Ok::<ModelTarget, String>(self.controller)
            } else {
                match self.vision {
                    Some(vision) => target == Ok::<ModelTarget, String>(vision),
                    None => target is Err && target->Err_0@ == "视觉模型 Provider 未配置"@,
                }
            },
    {
        if needs_vision {
            match self.vision {
                Some(vision) => Ok(vision),
                None => Err("视觉模型 Provider 未配置".to_string()),
            }
        } else {
            Ok(self.controller)
        }
    }
}

/// Says which model a request goes to, and what is said to it.
pub fn plan_direct_chat(request: AssistantRequest) -> (plan: Result<(ModelTarget, ChatInput), String>)
    ensures
        ({
            let input = ChatInput {
                system_prompt: request.system_prompt,
                messages: request.messages,
                image_data_url: request.image_data_url,
            };
            match (request.image_data_url, request.models.vision) {
                (None, _) => plan == Ok::<(ModelTarget, ChatInput), String>((request.models.controller, input)),
                (Some(_), Some(vision)) => plan == Ok::<(ModelTarget, ChatInput), String>((vision, input)),
                (Some(_), None) => plan is Err && plan->Err_0@ == "视觉模型 Provider 未配置"@,
            }
        }),
{
    let needs_vision = request.image_data_url.is_some();
    match request.models.into_direct_target(needs_vision) {
        Ok(target) => Ok(
            (
                target,
                ChatInput {
                    system_prompt: request.system_prompt,
                    messages: request.messages,
                    image_data_url: request.image_data_url,
                },
            ),
        ),
        Err(message) => Err(message),
    }
}

/// The request for a conversation with the assistant: an image address that is blank counts for
/// none, and the desktop is not acted on.
pub fn conversation_request(
    models: AssistantModelSet,
    system_prompt: Option<String>,
    messages: Vec<ConversationMessage>,
    image_data_url: Option<String>,
) -> (request: AssistantRequest)
    ensures
        request.models == models,
        request.system_prompt == system_prompt,
        request.messages == messages,
        option_view(request.image_data_url) == nonblank_text(option_view(image_data_url)),
        !request.allow_desktop_actions,
{
    AssistantRequest {
        models,
        system_prompt,
        messages,
        image_data_url: trimmed_nonblank(image_data_url),
        allow_desktop_actions: false,
    }
}

impl AssistantRequest {
    /// This asks the model `target`, under the system prompt `system`, about `text` alone.
    pub open spec fn asks_about(&self, target: ModelTarget, system: Seq<char>, text: Seq<char>) -> bool {
        &&& self.models.controller == target
        &&& self.models.vision is None
        &&& self.models.speech is None
        &&& option_view(self.system_prompt) == Some(system)
        &&& self.messages@.len() == 1
        &&& self.messages@[0].role@ == "user"@
        &&& self.messages@[0].content@ == text
        &&& self.image_data_url is None
        &&& !self.allow_desktop_actions
    }
}

/// The request that asks the model `target` about `text` alone.
pub fn text_request(target: ModelTarget, system_prompt: &str, text: String) -> (request: AssistantRequest)
    ensures
        request.asks_about(target, system_prompt@, text@),
{
    AssistantRequest {
        models: AssistantModelSet { controller: target, vision: None, speech: None },
        system_prompt: Some(system_prompt.to_string()),
        messages: vec![ConversationMessage { role: "user".to_string(), content: text }],
        image_data_url: None,
        allow_desktop_actions: false,
    }
}

/// A request about a text goes to the model that was asked for and to no other, says the text itself,
/// in one message of the user, under the prompt that was given, and shows no picture.
pub proof fn law_requests_say_the_text(request: AssistantRequest, target: ModelTarget, system: Seq<char>, text: Seq<char>)
    requires
        request.asks_about(target, system, text),
    ensures
        request.models.controller == target,
        request.models.vision is None && request.models.speech is None,
        request.messages@.len() == 1,
        request.messages@[0].content@ == text,
        request.messages@[0].role@ == "user"@,
        request.system_prompt is Some && request.system_prompt->0@ == system,
        request.image_data_url is None,
        !request.allow_desktop_actions,
{
}

/// A request with a picture goes to the vision model, one without to the model that was chosen for
/// text; what is said to the model is what was asked, with nothing taken away.
pub proof fn law_pictures_go_to_the_vision_model(
    request: AssistantRequest,
    plan: Result<(ModelTarget, ChatInput), String>,
)
    requires
        call_ensures(plan_direct_chat, (request,), plan),
    ensures
        plan is Err <==> request.image_data_url is Some && request.models.vision is None,
        plan is Ok ==> plan->Ok_0.1.messages == request.messages && plan->Ok_0.1.system_prompt == request.system_prompt
            && plan->Ok_0.1.image_data_url == request.image_data_url,
        plan is Ok && request.image_data_url is None ==> plan->Ok_0.0 == request.models.controller,
        plan is Ok && request.image_data_url is Some ==> Some(plan->Ok_0.0) == request.models.vision,
{
}

/// A request about a text alone can always be planned, and goes to the model that was asked for.
pub proof fn law_text_requests_can_be_planned(
    request: AssistantRequest,
    target: ModelTarget,
    system: Seq<char>,
    text: Seq<char>,
    plan: Result<(ModelTarget, ChatInput), String>,
)
    requires
        request.asks_about(target, system, text),
        call_ensures(plan_direct_chat, (request,), plan),
    ensures
        plan is Ok && plan->Ok_0.0 == target && plan->Ok_0.1.messages@.len() == 1
            && plan->Ok_0.1.messages@[0].content@ == text,
{
}

} // verus!
