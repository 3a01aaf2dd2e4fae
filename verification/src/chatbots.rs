//! The chat providers: a closed set of variants behind one capability
//! surface (identify, list models, switch model), as the provider catalog
//! is fixed at build time.

pub mod dummy;
pub mod gemini;

use vstd::prelude::*;

use crate::InvalidModelError;
use dummy::{dummy_label, dummy_models, DummyChatbot};
use gemini::{gemini_label, gemini_models, gemini_url, GeminiChatbot};

verus! {

/// The active chat provider, one of the statically known variants.
#[derive(Debug)]
pub enum Chatbot {
    Dummy(DummyChatbot),
    Gemini(GeminiChatbot),
}

impl Chatbot {
    /// The model ids the active provider accepts.
    pub open spec fn catalog(&self) -> Seq<Seq<char>> {
        match self {
            Chatbot::Dummy(_) => dummy_models(),
            Chatbot::Gemini(_) => gemini_models(),
        }
    }

    /// The id of the active model.
    pub open spec fn model_id(&self) -> Seq<char> {
        match self {
            Chatbot::Dummy(bot) => bot.model@,
            Chatbot::Gemini(bot) => bot.model@,
        }
    }

    /// The human-readable label of the active model.
    pub open spec fn model_label(&self) -> Seq<char> {
        match self {
            Chatbot::Dummy(bot) => dummy_label(bot.model@),
            Chatbot::Gemini(bot) => gemini_label(bot.model@),
        }
    }

    /// The provider's display name.
    pub open spec fn display_name(&self) -> Seq<char> {
        match self {
            Chatbot::Dummy(_) => "Dummy"@,
            Chatbot::Gemini(_) => "Gemini"@,
        }
    }

    /// The provider's state is valid: the active model is in its catalog,
    /// and any derived state (such as the request endpoint) matches it.
    pub open spec fn wf(&self) -> bool {
        match self {
            Chatbot::Dummy(bot) => bot.wf(),
            Chatbot::Gemini(bot) => bot.wf(),
        }
    }

    /// The provider's display name, constant per variant.
    pub fn name(&self) -> (name: &'static str)
        ensures
            name@ == self.display_name(),
    {
        match self {
            Chatbot::Dummy(bot) => bot.name(),
            Chatbot::Gemini(bot) => bot.name(),
        }
    }

    /// The label of the active model.
    pub fn model(&self) -> (label: &'static str)
        ensures
            label@ == self.model_label(),
    {
        match self {
            Chatbot::Dummy(bot) => bot.model(),
            Chatbot::Gemini(bot) => bot.model(),
        }
    }

    /// The catalog of model ids, in order.
    pub fn available_models(&self) -> (models: Vec<String>)
        ensures
            models.deep_view() == self.catalog(),
    {
        match self {
            Chatbot::Dummy(bot) => bot.available_models(),
            Chatbot::Gemini(bot) => bot.available_models(),
        }
    }

    /// Switches the active model. The swap is atomic: with an id in the
    /// catalog the model (and any derived endpoint) changes; with any other
    /// id the provider is left exactly as it was and the switch is rejected.
    pub fn change_model(&mut self, new_model: String) -> (switched: Result<(), InvalidModelError>)
        ensures
            old(self).catalog().contains(new_model@) ==> switched is Ok && final(self).model_id()
                == new_model@ && final(self).catalog() == old(self).catalog()
                && final(self).display_name() == old(self).display_name(),
            !old(self).catalog().contains(new_model@) ==> switched == Err::<(), _>(
                InvalidModelError,
            ) && *final(self) == *old(self),
            old(self).wf() || old(self).catalog().contains(new_model@) ==> final(self).wf(),
    {
        match self {
            Chatbot::Dummy(bot) => bot.change_model(new_model),
            Chatbot::Gemini(bot) => bot.change_model(new_model),
        }
    }

    /// The request endpoint of the active provider, where it has one: the
    /// remote variants carry a URL, the local ones answer in place.
    pub fn endpoint(&self) -> (url: Option<&String>)
        ensures
            match url {
                Some(url) => self matches Chatbot::Gemini(bot) && url@ == bot.url@,
                None => self is Dummy,
            },
    {
        match self {
            Chatbot::Dummy(_) => None,
            Chatbot::Gemini(bot) => Some(&bot.url),
        }
    }
}

/// A model switch on a valid provider keeps it valid, and on an id from the
/// catalog the new label is the label of that id: the switch is observable
/// through `model` right after it.
pub proof fn lemma_switch_model_reflects_label(
    before: Chatbot,
    after: Chatbot,
    new_model: Seq<char>,
)
    requires
        before.wf(),
        before.catalog().contains(new_model),
        after.model_id() == new_model,
        after.catalog() == before.catalog(),
        after.display_name() == before.display_name(),
        after.wf(),
    ensures
        after.model_label() == match after {
            Chatbot::Dummy(_) => dummy_label(new_model),
            Chatbot::Gemini(_) => gemini_label(new_model),
        },
        after matches Chatbot::Gemini(bot) ==> bot.url@ == gemini_url(new_model, bot.api_key@),
{
}

} // verus!
