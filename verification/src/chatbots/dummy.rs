//! A local echo provider with a fixed two-model catalog, useful for trying
//! the client without any network access.

use vstd::prelude::*;

use crate::text::str_eq;
use crate::{ChatbotChatError, ChatbotCreationError, InvalidModelError, Message, Role};

verus! {

/// The model ids this provider accepts.
pub open spec fn dummy_models() -> Seq<Seq<char>> {
    seq!["1"@, "2"@]
}

/// The human-readable label shown for a dummy model id.
pub open spec fn dummy_label(model: Seq<char>) -> Seq<char> {
    if model == "1"@ {
        "Model 1"@
    } else if model == "2"@ {
        "Model 2"@
    } else {
        "Invalid Model"@
    }
}

/// The reply the dummy provider gives to a transcript: it echoes the last
/// user message, and answers fixed texts otherwise.
pub open spec fn dummy_response(msgs: Seq<crate::MessageView>) -> Seq<char> {
    if msgs.len() == 0 {
        "Dummy response to empty conversation."@
    } else if msgs.last().role == Role::User {
        "Dummy response to: \""@ + msgs.last().content + "\"."@
    } else {
        "Dummy response."@
    }
}

/// A provider that answers locally with canned echoes.
#[derive(Debug)]
pub struct DummyChatbot {
    pub model: String,
}

/// Whether `model` is one of the dummy catalog's ids.
pub fn dummy_has_model(model: &str) -> (found: bool)
    ensures
        found == dummy_models().contains(model@),
{
    let found = str_eq(model, "1") || str_eq(model, "2");
    proof {
        if model@ == "1"@ {
            assert(dummy_models()[0] == model@);
        } else if model@ == "2"@ {
            assert(dummy_models()[1] == model@);
        } else {
            assert(forall|i: int|
                0 <= i < dummy_models().len() ==> dummy_models()[i] != model@);
        }
    }
    found
}

impl DummyChatbot {
    /// The provider's state is valid when its active model is in the catalog.
    pub open spec fn wf(&self) -> bool {
        dummy_models().contains(self.model@)
    }

    /// Constructs the provider when the model id is in the catalog; the API
    /// key is not needed and is ignored.
    pub fn create(model: String, _api_key: Option<String>) -> (created: Result<
        Self,
        ChatbotCreationError,
    >)
        ensures
            dummy_models().contains(model@) ==> (created matches Ok(bot) && bot.model@ == model@
                && bot.wf()),
            !dummy_models().contains(model@) ==> (created matches Err(err) && err
                == ChatbotCreationError::UnknownModel),
    {
        if dummy_has_model(model.as_str()) {
            Ok(Self { model })
        } else {
            Err(ChatbotCreationError::UnknownModel)
        }
    }

    /// The provider's display name.
    pub fn name(&self) -> (name: &'static str)
        ensures
            name@ == "Dummy"@,
    {
        "Dummy"
    }

    /// The label of the active model.
    pub fn model(&self) -> (label: &'static str)
        ensures
            label@ == dummy_label(self.model@),
    {
        if str_eq(self.model.as_str(), "1") {
            "Model 1"
        } else if str_eq(self.model.as_str(), "2") {
            "Model 2"
        } else {
            "Invalid Model"
        }
    }

    /// The catalog of model ids, in order.
    pub fn available_models(&self) -> (models: Vec<String>)
        ensures
            models.deep_view() == dummy_models(),
    {
        let mut models: Vec<String> = Vec::new();
        models.push(String::from_str("1"));
        models.push(String::from_str("2"));
        proof {
            assert(models.deep_view() =~= dummy_models());
        }
        models
    }

    /// Switches to `new_model` when it is in the catalog; otherwise the
    /// active model is left unchanged and the switch is rejected.
    pub fn change_model(&mut self, new_model: String) -> (switched: Result<(), InvalidModelError>)
        ensures
            dummy_models().contains(new_model@) ==> switched is Ok && final(self).model@
                == new_model@,
            !dummy_models().contains(new_model@) ==> switched == Err::<(), _>(InvalidModelError)
                && *final(self) == *old(self),
            final(self).wf() == (dummy_models().contains(new_model@) || old(self).wf()),
    {
        if dummy_has_model(new_model.as_str()) {
            self.model = new_model;
            Ok(())
        } else {
            Err(InvalidModelError)
        }
    }

    /// Computes the canned reply to the transcript. It never fails.
    pub fn send_message(&self, messages: &Vec<Message>) -> (reply: Result<
        String,
        ChatbotChatError,
    >)
        ensures
            reply matches Ok(text) && text@ == dummy_response(messages.deep_view()),
    {
        if messages.len() == 0 {
            Ok(String::from_str("Dummy response to empty conversation."))
        } else {
            let last = &messages[messages.len() - 1];
            proof {
                assert(messages.deep_view().last() == last.deep_view());
            }
            if last.role == Role::User {
                let mut reply = String::from_str("Dummy response to: \"");
                reply.append(last.content.as_str());
                reply.append("\".");
                Ok(reply)
            } else {
                Ok(String::from_str("Dummy response."))
            }
        }
    }
}

} // verus!
