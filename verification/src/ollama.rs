//! The values exchanged with the Ollama HTTP API, as plain data.
use vstd::prelude::*;

verus! {

/// Base address of the Ollama API.
pub open spec fn api_base_url() -> Seq<char> {
    "http://localhost:11434/api/"@
}

/// The endpoint that lists the installed models.
pub open spec fn tags_endpoint() -> Seq<char> {
    "tags"@
}

/// The endpoint that answers chat requests.
pub open spec fn chat_endpoint() -> Seq<char> {
    "chat"@
}

/// The address of an endpoint of the Ollama API.
pub fn api_url(endpoint: &str) -> (url: String)
    ensures
        url@ == api_base_url() + endpoint@,
{
    let mut url = "http://localhost:11434/api/".to_owned();
    url.append(endpoint);
    url
}

/// The address that lists the installed models.
pub fn tags_url() -> (url: String)
    ensures
        url@ == api_base_url() + tags_endpoint(),
{
    api_url("tags")
}

/// The address that answers chat requests.
pub fn chat_url() -> (url: String)
    ensures
        url@ == api_base_url() + chat_endpoint(),
{
    api_url("chat")
}

/// One installed model, as the tags endpoint describes it.
#[derive(Clone, Debug)]
pub struct OllamaTag {
    pub name: String,
    pub size: u64,
    pub modified_at: String,
}

/// The answer of the tags endpoint.
#[derive(Clone, Debug)]
pub struct OllamaTagsResponse {
    pub models: Vec<OllamaTag>,
}

/// One installed model, as the client hands it to its user interface.
#[derive(Clone, Debug)]
pub struct OllamaModel {
    pub name: String,
    pub size: u64,
    pub modified_at: String,
}

/// One message of a chat.
#[derive(Clone, Debug)]
pub struct OllamaChatMessage {
    pub role: String,
    pub content: String,
}

/// A chat request: the model to ask, the conversation, and whether the answer
/// should be streamed as newline-delimited records.
#[derive(Clone, Debug)]
pub struct OllamaChatRequest {
    pub model: String,
    pub messages: Vec<OllamaChatMessage>,
    pub stream: bool,
}

/// One answer of the chat endpoint (the whole answer, or one streamed record).
#[derive(Clone, Debug)]
pub struct OllamaChatResponse {
    pub model: String,
    pub message: OllamaChatMessage,
    pub done: bool,
}

/// `model` describes the same model as `tag`.
pub open spec fn model_matches_tag(model: OllamaModel, tag: OllamaTag) -> bool {
    &&& model.name@ == tag.name@
    &&& model.size == tag.size
    &&& model.modified_at@ == tag.modified_at@
}

/// A model listed for a tag has the tag's name, its full 64-bit size and its
/// modification time, each exactly as the tag gives it.
pub proof fn lemma_model_matches_tag_keeps_fields(model: OllamaModel, tag: OllamaTag)
    requires
        model_matches_tag(model, tag),
    ensures
        model.name@ == tag.name@,
        model.size == tag.size,
        model.modified_at@ == tag.modified_at@,
{
}

/// The models of a tags answer, in order, as the user interface receives them.
pub fn models_from_tags(tags: Vec<OllamaTag>) -> (models: Vec<OllamaModel>)
    ensures
        models@.len() == tags@.len(),
        forall|i: int| 0 <= i < tags@.len() ==> model_matches_tag(#[trigger] models@[i], tags@[i]),
        forall|i: int| 0 <= i < tags@.len() ==> (#[trigger] models@[i]).name@ == tags@[i].name@,
        forall|i: int| 0 <= i < tags@.len() ==> (#[trigger] models@[i]).size == tags@[i].size,
        forall|i: int|
            0 <= i < tags@.len() ==> (#[trigger] models@[i]).modified_at@ == tags@[i].modified_at@,
{
    let mut models: Vec<OllamaModel> = Vec::new();
    let n: usize = tags.len();
    let mut i: usize = 0;
    while i < n
        invariant
            n == tags@.len(),
            i <= n,
            models@.len() == i,
            forall|j: int| 0 <= j < i ==> model_matches_tag(#[trigger] models@[j], tags@[j]),
        decreases n - i,
    {
        let tag = &tags[i];
        let model = OllamaModel {
            name: tag.name.clone(),
            size: tag.size,
            modified_at: tag.modified_at.clone(),
        };
        models.push(model);
        i += 1;
    }
    models
}

/// The role of the person using the client.
pub open spec fn user_role() -> Seq<char> {
    "user"@
}

/// A message written by the user.
pub fn user_message(content: String) -> (m: OllamaChatMessage)
    ensures
        m.role@ == user_role(),
        m.content == content,
{
    OllamaChatMessage { role: "user".to_owned(), content }
}

/// `request` asks `model` about the single user message `content`.
pub open spec fn is_single_user_request(
    request: OllamaChatRequest,
    model: Seq<char>,
    content: Seq<char>,
    stream: bool,
) -> bool {
    &&& request.model@ == model
    &&& request.messages@.len() == 1
    &&& request.messages@[0].role@ == user_role()
    &&& request.messages@[0].content@ == content
    &&& request.stream == stream
}

/// A request that asks about a single user message holds exactly that one
/// message, from the user, with the whole text, character for character.
pub proof fn lemma_single_user_request_keeps_message(
    request: OllamaChatRequest,
    model: Seq<char>,
    content: Seq<char>,
    stream: bool,
)
    requires
        is_single_user_request(request, model, content, stream),
    ensures
        request.model@ == model,
        request.messages@.len() == 1,
        request.messages@[0].role@ == "user"@,
        request.messages@[0].content@ == content,
        request.messages@[0].content@.len() == content.len(),
        request.stream == stream,
{
}

/// A request that asks `model` about one user message.
pub fn single_user_request(model: String, content: String, stream: bool) -> (r: OllamaChatRequest)
    ensures
        is_single_user_request(r, model@, content@, stream),
        r.model@ == model@,
        r.messages@.len() == 1,
        r.messages@[0].role@ == "user"@,
        r.messages@[0].content@ == content@,
        r.stream == stream,
{
    let mut messages: Vec<OllamaChatMessage> = Vec::new();
    messages.push(user_message(content));
    OllamaChatRequest { model, messages, stream }
}

} // verus!
