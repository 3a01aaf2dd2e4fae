//! An interactive chat-session engine: an ordered conversation transcript,
//! chat providers with fixed model catalogs, a slash-command interpreter,
//! a decoder for streamed provider responses, and an in-memory store of
//! persisted session snapshots.

use vstd::prelude::*;

pub mod chatbots;
pub mod cli;
pub mod commands;
pub mod config;
pub mod engine;
pub mod history;
pub mod session;
pub mod snapshot;
pub mod text;
pub mod ui;
pub mod wire;

verus! {

/// The author of one message in a conversation.
#[derive(Debug, PartialEq, Eq, Structural, Clone, Copy)]
pub enum Role {
    System,
    User,
    Assistant,
}

/// One entry of a conversation transcript: who spoke, and what was said.
#[derive(Debug)]
pub struct Message {
    pub role: Role,
    pub content: String,
}

impl Clone for Message {
    fn clone(&self) -> (copy: Self)
        ensures
            copy@ == self@,
    {
        Message { role: self.role, content: self.content.clone() }
    }
}

/// The mathematical value of a [`Message`]: its role and its text.
pub struct MessageView {
    pub role: Role,
    pub content: Seq<char>,
}

impl View for Message {
    type V = MessageView;

    open spec fn view(&self) -> MessageView {
        MessageView { role: self.role, content: self.content@ }
    }
}

impl DeepView for Message {
    type V = MessageView;

    open spec fn deep_view(&self) -> MessageView {
        self.view()
    }
}

impl Message {
    pub fn new(role: Role, content: String) -> (msg: Self)
        ensures
            msg@.role == role,
            msg@.content == content@,
    {
        Self { role, content }
    }
}

/// A failure while a chat reply was being produced or received.
#[derive(Debug)]
pub enum ChatbotChatError {
    /// The transport exceeded its deadline.
    Timeout,
    /// Any other transport failure, with its detail.
    NetworkError(String),
    /// A non-success status from the remote service, with the body it sent.
    ServerError(String),
    /// A success status whose body does not match the expected schema.
    UnexpectedResponse,
}

/// The text reported to the user for a chat failure.
pub open spec fn chat_error_text(err: ChatbotChatError) -> Seq<char> {
    match err {
        ChatbotChatError::Timeout => "Timeout."@,
        ChatbotChatError::NetworkError(detail) => "Network error: "@ + detail@ + "."@,
        ChatbotChatError::ServerError(body) => "Server error: "@ + body@ + "."@,
        ChatbotChatError::UnexpectedResponse => "Unexpected response."@,
    }
}

impl ChatbotChatError {
    /// A user-readable description of this failure.
    pub fn message(&self) -> (text: String)
        ensures
            text@ == chat_error_text(*self),
    {
        match self {
            Self::Timeout => String::from_str("Timeout."),
            Self::NetworkError(detail) => {
                let mut text = String::from_str("Network error: ");
                text.append(detail.as_str());
                text.append(".");
                text
            },
            Self::ServerError(body) => {
                let mut text = String::from_str("Server error: ");
                text.append(body.as_str());
                text.append(".");
                text
            },
            Self::UnexpectedResponse => String::from_str("Unexpected response."),
        }
    }
}

/// A failure while constructing a chat provider.
#[derive(Debug, PartialEq, Eq, Structural, Clone, Copy)]
pub enum ChatbotCreationError {
    /// No API key was supplied and none could be resolved from the environment.
    ApiKeyMissing,
    /// The requested provider key names no known provider.
    UnknownChatbot,
    /// The requested model id is not in the provider's catalog.
    UnknownModel,
}

/// The text reported to the user for a provider-construction failure.
pub open spec fn creation_error_text(err: ChatbotCreationError) -> Seq<char> {
    match err {
        ChatbotCreationError::ApiKeyMissing => "API key missing."@,
        ChatbotCreationError::UnknownChatbot => "Unknown chatbot."@,
        ChatbotCreationError::UnknownModel => "Unknown model."@,
    }
}

impl ChatbotCreationError {
    /// A user-readable description of this failure.
    pub fn message(&self) -> (text: String)
        ensures
            text@ == creation_error_text(*self),
    {
        match self {
            Self::ApiKeyMissing => String::from_str("API key missing."),
            Self::UnknownChatbot => String::from_str("Unknown chatbot."),
            Self::UnknownModel => String::from_str("Unknown model."),
        }
    }
}

/// A model switch was asked for with an id outside the provider's catalog.
#[derive(Debug, PartialEq, Eq, Structural, Clone, Copy)]
pub struct InvalidModelError;

impl InvalidModelError {
    /// A user-readable description of this failure.
    pub fn message(&self) -> (text: String)
        ensures
            text@ == "Invalid model."@,
    {
        String::from_str("Invalid model.")
    }
}

} // verus!
