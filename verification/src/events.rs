//! The events a streamed chat answer is reported to the user interface with.
use vstd::prelude::*;

use crate::ollama::OllamaChatResponse;

verus! {

/// One streamed record of a chat answer: a part of the answer, or its last record.
#[derive(Clone, Debug)]
pub enum StreamChatEvent {
    ChatResponse(OllamaChatResponse),
    ChatFinished(OllamaChatResponse),
}

impl StreamChatEvent {
    /// The event that reports `response`: the last one exactly when Ollama marked it done.
    pub fn from_response(response: OllamaChatResponse) -> (event: StreamChatEvent)
        ensures
            match event {
                StreamChatEvent::ChatFinished(r) => response.done && r == response,
                StreamChatEvent::ChatResponse(r) => !response.done && r == response,
            },
    {
        if response.done {
            StreamChatEvent::ChatFinished(response)
        } else {
            StreamChatEvent::ChatResponse(response)
        }
    }
}

} // verus!
