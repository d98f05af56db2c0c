//! Checking what the user typed, building the request, and describing failures.
use vstd::prelude::*;

use crate::ollama::{
    is_single_user_request, single_user_request, OllamaChatRequest, OllamaChatResponse,
    OllamaTag,
};
use crate::text::{
    is_all_whitespace, lemma_trim_empty_iff_all_whitespace, trim_chars, trimmed,
};

verus! {

/// The installed models, as the command that lists them answers.
#[derive(Clone, Debug)]
pub struct ListModelsResponse(pub Vec<OllamaTag>);

/// The answer to a chat message that was not streamed.
#[derive(Clone, Debug)]
pub struct NonStreamChatResponse {
    pub model: String,
    pub content: String,
}

impl NonStreamChatResponse {
    /// The model that answered and the text of its answer.
    pub fn from_chat_response(response: OllamaChatResponse) -> (r: NonStreamChatResponse)
        ensures
            r.model == response.model,
            r.content == response.message.content,
    {
        NonStreamChatResponse { model: response.model, content: response.message.content }
    }
}

/// Why a chat message is refused before anything is sent.
#[derive(Clone, Copy, Debug, PartialEq, Eq, Structural)]
pub enum ChatInputError {
    MissingRequestId,
    MissingModel,
    MissingMessage,
}

/// The text shown for a refused chat message.
pub open spec fn input_error_text(e: ChatInputError) -> Seq<char> {
    match e {
        ChatInputError::MissingRequestId => "A request ID is required for streaming chat."@,
        ChatInputError::MissingModel => "Select an Ollama model before sending a chat message."@,
        ChatInputError::MissingMessage => "Enter a chat message before sending it."@,
    }
}

impl ChatInputError {
    /// The text shown for this refusal.
    pub fn message(&self) -> (m: String)
        ensures
            m@ == input_error_text(*self),
    {
        match self {
            ChatInputError::MissingRequestId => "A request ID is required for streaming chat.".to_owned(),
            ChatInputError::MissingModel => "Select an Ollama model before sending a chat message.".to_owned(),
            ChatInputError::MissingMessage => "Enter a chat message before sending it.".to_owned(),
        }
    }
}

/// The first thing wrong with a chat message, checked in this order: no model
/// chosen, then no message written (each blank once trimmed).
pub open spec fn chat_input_error(model: Seq<char>, message: Seq<char>) -> Option<ChatInputError> {
    if trim_chars(model).len() == 0 {
        Some(ChatInputError::MissingModel)
    } else if trim_chars(message).len() == 0 {
        Some(ChatInputError::MissingMessage)
    } else {
        None
    }
}

/// A chat message goes out exactly when neither the model nor the message is all
/// whitespace.
pub proof fn lemma_chat_input_refused_iff_blank(model: Seq<char>, message: Seq<char>)
    ensures
        chat_input_error(model, message) is None <==> (!is_all_whitespace(model)
            && !is_all_whitespace(message)),
{
    lemma_trim_empty_iff_all_whitespace(model);
    lemma_trim_empty_iff_all_whitespace(message);
}

/// Trims the chosen model and the message and refuses a blank one.
pub fn validate_chat_input(model: &str, message: &str) -> (r: Result<(String, String), ChatInputError>)
    ensures
        match chat_input_error(model@, message@) {
            Some(e) => r == Err::<(String, String), ChatInputError>(e),
            None => r matches Ok((m, t)) && m@ == trim_chars(model@) && t@ == trim_chars(message@),
        },
{
    let model = trimmed(model);
    let message = trimmed(message);
    if model.as_str().is_empty() {
        return Err(ChatInputError::MissingModel);
    }
    if message.as_str().is_empty() {
        return Err(ChatInputError::MissingMessage);
    }
    Ok((model, message))
}

/// The request for a chat message that is answered in one piece: the trimmed
/// message from the user to the trimmed model, not streamed.
pub fn prepare_chat(model: &str, message: &str) -> (r: Result<OllamaChatRequest, ChatInputError>)
    ensures
        match chat_input_error(model@, message@) {
            Some(e) => r == Err::<OllamaChatRequest, ChatInputError>(e),
            None => r matches Ok(request) && is_single_user_request(
                request,
                trim_chars(model@),
                trim_chars(message@),
                false,
            ),
        },
        r matches Ok(request) ==> {
            &&& request.model@ == trim_chars(model@)
            &&& request.messages@.len() == 1
            &&& request.messages@[0].role@ == "user"@
            &&& request.messages@[0].content@ == trim_chars(message@)
            &&& !request.stream
        },
{
    let (model, message) = validate_chat_input(model, message)?;
    Ok(single_user_request(model, message, false))
}

/// A step of talking to Ollama that can fail.
#[derive(Clone, Copy, Debug, PartialEq, Eq, Structural)]
pub enum OllamaFailure {
    ConfigureClient,
    Connect,
    UnsuccessfulStatus,
    ReadModelList,
    ReadChatResponse,
    ReadStreamingRecord,
    ReadStream,
}

/// The text that comes before the underlying error's own description.
pub open spec fn failure_prefix(f: OllamaFailure) -> Seq<char> {
    match f {
        OllamaFailure::ConfigureClient => "Could not configure the Ollama client: "@,
        OllamaFailure::Connect => "Could not connect to Ollama at 127.0.0.1:11434. Make sure Ollama is running: "@,
        OllamaFailure::UnsuccessfulStatus => "Ollama returned an unsuccessful response: "@,
        OllamaFailure::ReadModelList => "Could not read Ollama's model list: "@,
        OllamaFailure::ReadChatResponse => "Could not read Ollama's chat response: "@,
        OllamaFailure::ReadStreamingRecord => "Could not read Ollama's streaming chat response: "@,
        OllamaFailure::ReadStream => "Could not read Ollama's streaming response: "@,
    }
}

impl OllamaFailure {
    /// The text that comes before the underlying error's own description.
    pub fn prefix(&self) -> (p: &'static str)
        ensures
            p@ == failure_prefix(*self),
    {
        match self {
            OllamaFailure::ConfigureClient => "Could not configure the Ollama client: ",
            OllamaFailure::Connect => "Could not connect to Ollama at 127.0.0.1:11434. Make sure Ollama is running: ",
            OllamaFailure::UnsuccessfulStatus => "Ollama returned an unsuccessful response: ",
            OllamaFailure::ReadModelList => "Could not read Ollama's model list: ",
            OllamaFailure::ReadChatResponse => "Could not read Ollama's chat response: ",
            OllamaFailure::ReadStreamingRecord => "Could not read Ollama's streaming chat response: ",
            OllamaFailure::ReadStream => "Could not read Ollama's streaming response: ",
        }
    }

    /// The message for this failure, given the underlying error's description.
    pub fn describe(&self, detail: &str) -> (m: String)
        ensures
            m@ == failure_prefix(*self) + detail@,
    {
        crate::text::join_message(self.prefix(), detail)
    }
}

} // verus!
