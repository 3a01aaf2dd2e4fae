//! The Google Gemini provider: a fixed model catalog, API-key resolution,
//! and the precomputed request endpoint for the active model. The network
//! call itself is made outside the library; this type holds and maintains
//! the state the call needs.

use vstd::prelude::*;

use crate::text::str_eq;
use crate::{ChatbotCreationError, InvalidModelError};

verus! {

/// The prefix every Gemini endpoint shares.
pub open spec fn gemini_base_url() -> Seq<char> {
    "https://generativelanguage.googleapis.com/v1beta/models/"@
}

/// The model ids this provider accepts.
pub open spec fn gemini_models() -> Seq<Seq<char>> {
    seq![
        "gemini-2.0-flash-exp"@,
        "gemini-1.5-flash"@,
        "gemini-1.5-flash-8b"@,
        "gemini-1.5-pro"@,
        "gemini-1.0-pro"@,
    ]
}

/// The human-readable label shown for a Gemini model id.
pub open spec fn gemini_label(model: Seq<char>) -> Seq<char> {
    if model == "gemini-2.0-flash-exp"@ {
        "2.0 Flash (Experimental)"@
    } else if model == "gemini-1.5-flash"@ {
        "1.5 Flash"@
    } else if model == "gemini-1.5-flash-8b"@ {
        "1.5 Flash-8B"@
    } else if model == "gemini-1.5-pro"@ {
        "1.5 Pro"@
    } else if model == "gemini-1.0-pro"@ {
        "1.0 Pro (Deprecated)"@
    } else {
        "Invalid Model"@
    }
}

/// The request endpoint derived from a model id and an API key.
pub open spec fn gemini_url(model: Seq<char>, api_key: Seq<char>) -> Seq<char> {
    gemini_base_url() + model + ":generateContent?key="@ + api_key
}

/// A provider backed by the remote Gemini service.
#[derive(Debug)]
pub struct GeminiChatbot {
    pub api_key: String,
    pub model: String,
    pub url: String,
}

/// Whether `model` is one of the Gemini catalog's ids.
pub fn gemini_has_model(model: &str) -> (found: bool)
    ensures
        found == gemini_models().contains(model@),
{
    let found = str_eq(model, "gemini-2.0-flash-exp") || str_eq(model, "gemini-1.5-flash")
        || str_eq(model, "gemini-1.5-flash-8b") || str_eq(model, "gemini-1.5-pro") || str_eq(
        model,
        "gemini-1.0-pro",
    );
    proof {
        if model@ == "gemini-2.0-flash-exp"@ {
            assert(gemini_models()[0] == model@);
        } else if model@ == "gemini-1.5-flash"@ {
            assert(gemini_models()[1] == model@);
        } else if model@ == "gemini-1.5-flash-8b"@ {
            assert(gemini_models()[2] == model@);
        } else if model@ == "gemini-1.5-pro"@ {
            assert(gemini_models()[3] == model@);
        } else if model@ == "gemini-1.0-pro"@ {
            assert(gemini_models()[4] == model@);
        } else {
            assert(forall|i: int|
                0 <= i < gemini_models().len() ==> gemini_models()[i] != model@);
        }
    }
    found
}

/// Builds the endpoint for `model` with `api_key`.
fn build_url(model: &str, api_key: &str) -> (url: String)
    ensures
        url@ == gemini_url(model@, api_key@),
{
    let mut url = String::from_str("https://generativelanguage.googleapis.com/v1beta/models/");
    url.append(model);
    url.append(":generateContent?key=");
    url.append(api_key);
    url
}

impl GeminiChatbot {
    /// The provider's state is valid when its active model is in the catalog
    /// and its endpoint matches the active model and key.
    pub open spec fn wf(&self) -> bool {
        &&& gemini_models().contains(self.model@)
        &&& self.url@ == gemini_url(self.model@, self.api_key@)
    }

    /// Constructs the provider. The API key is taken from `api_key` first and
    /// from `env_key` (the environment's value, read by the caller) second;
    /// with no key the construction fails, and with a model id outside the
    /// catalog it fails as well.
    pub fn create(model: String, api_key: Option<String>, env_key: Option<String>) -> (created:
        Result<Self, ChatbotCreationError>)
        ensures
            api_key is None && env_key is None ==> (created matches Err(err) && err
                == ChatbotCreationError::ApiKeyMissing),
            (api_key is Some || env_key is Some) && !gemini_models().contains(model@)
                ==> (created matches Err(err) && err == ChatbotCreationError::UnknownModel),
            (api_key is Some || env_key is Some) && gemini_models().contains(model@)
                ==> (created matches Ok(bot) && {
                &&& bot.wf()
                &&& bot.model@ == model@
                &&& bot.api_key@ == (if api_key is Some {
                    api_key->0@
                } else {
                    env_key->0@
                })
            }),
    {
        let key = match api_key {
            Some(key) => key,
            None => match env_key {
                Some(key) => key,
                None => {
                    return Err(ChatbotCreationError::ApiKeyMissing);
                },
            },
        };
        if !gemini_has_model(model.as_str()) {
            return Err(ChatbotCreationError::UnknownModel);
        }
        let url = build_url(model.as_str(), key.as_str());
        Ok(Self { api_key: key, model, url })
    }

    /// The provider's display name.
    pub fn name(&self) -> (name: &'static str)
        ensures
            name@ == "Gemini"@,
    {
        "Gemini"
    }

    /// The label of the active model.
    pub fn model(&self) -> (label: &'static str)
        ensures
            label@ == gemini_label(self.model@),
    {
        if str_eq(self.model.as_str(), "gemini-2.0-flash-exp") {
            "2.0 Flash (Experimental)"
        } else if str_eq(self.model.as_str(), "gemini-1.5-flash") {
            "1.5 Flash"
        } else if str_eq(self.model.as_str(), "gemini-1.5-flash-8b") {
            "1.5 Flash-8B"
        } else if str_eq(self.model.as_str(), "gemini-1.5-pro") {
            "1.5 Pro"
        } else if str_eq(self.model.as_str(), "gemini-1.0-pro") {
            "1.0 Pro (Deprecated)"
        } else {
            "Invalid Model"
        }
    }

    /// The catalog of model ids, in order.
    pub fn available_models(&self) -> (models: Vec<String>)
        ensures
            models.deep_view() == gemini_models(),
    {
        let mut models: Vec<String> = Vec::new();
        models.push(String::from_str("gemini-2.0-flash-exp"));
        models.push(String::from_str("gemini-1.5-flash"));
        models.push(String::from_str("gemini-1.5-flash-8b"));
        models.push(String::from_str("gemini-1.5-pro"));
        models.push(String::from_str("gemini-1.0-pro"));
        proof {
            assert(models.deep_view() =~= gemini_models());
        }
        models
    }

    /// Switches to `new_model` when it is in the catalog, recomputing the
    /// endpoint; otherwise the whole state is left unchanged and the switch
    /// is rejected. The switch is atomic: no partial mutation survives a
    /// rejection.
    pub fn change_model(&mut self, new_model: String) -> (switched: Result<(), InvalidModelError>)
        ensures
            gemini_models().contains(new_model@) ==> switched is Ok && final(self).model@
                == new_model@ && final(self).api_key == old(self).api_key && final(self).url@
                == gemini_url(new_model@, old(self).api_key@),
            !gemini_models().contains(new_model@) ==> switched == Err::<(), _>(InvalidModelError)
                && *final(self) == *old(self),
            old(self).wf() || gemini_models().contains(new_model@) ==> final(self).wf(),
    {
        if !gemini_has_model(new_model.as_str()) {
            return Err(InvalidModelError);
        }
        self.url = build_url(new_model.as_str(), self.api_key.as_str());
        self.model = new_model;
        Ok(())
    }
}

} // verus!
