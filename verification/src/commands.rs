//! The command interpreter: a line opening with the sigil is parsed into a
//! typed command, and executing a command mutates the transcript, the
//! active provider and the snapshot store through borrowed access scoped
//! to the one call, reporting what to show the user.

use vstd::prelude::*;

use crate::chatbots::dummy::{dummy_models, DummyChatbot};
use crate::chatbots::gemini::{gemini_models, GeminiChatbot};
use crate::chatbots::Chatbot;
use crate::config::Config;
use crate::session::{first_system, without_system, Session, SessionError, SessionStore};
use crate::snapshot::{parse_snapshot, snapshot_text};
use crate::text::{join_from, join_spaces, str_eq};
use crate::{creation_error_text, ChatbotCreationError, Message, MessageView, Role};

verus! {

/// A failure while reading a command line.
#[derive(Debug, PartialEq, Eq, Structural, Clone, Copy)]
pub enum CommandCreationError {
    MissingCommand,
    Invalid,
    MissingPrompt,
    MissingChatbotName,
    MissingModelName,
    MissingFilename,
}

impl CommandCreationError {
    /// A user-readable description of this failure.
    pub fn message(&self) -> (text: String)
        ensures
            text@ == match *self {
                CommandCreationError::MissingCommand => "No command specified."@,
                CommandCreationError::Invalid => "Invalid command."@,
                CommandCreationError::MissingPrompt => "System prompt is required."@,
                CommandCreationError::MissingChatbotName => "Chatbot name is required."@,
                CommandCreationError::MissingModelName => "Model name is required."@,
                CommandCreationError::MissingFilename => "Filename is required."@,
            },
    {
        match self {
            Self::MissingCommand => String::from_str("No command specified."),
            Self::Invalid => String::from_str("Invalid command."),
            Self::MissingPrompt => String::from_str("System prompt is required."),
            Self::MissingChatbotName => String::from_str("Chatbot name is required."),
            Self::MissingModelName => String::from_str("Model name is required."),
            Self::MissingFilename => String::from_str("Filename is required."),
        }
    }
}

/// A failure while executing a command, or the user's wish to quit.
#[derive(Debug, PartialEq, Eq, Structural, Clone, Copy)]
pub enum CommandExecuteError {
    ChatbotSwitch(ChatbotCreationError),
    Session(SessionError),
    Quit,
}

impl CommandExecuteError {
    /// A user-readable description of this outcome.
    pub fn message(&self) -> (text: String)
        ensures
            text@ == match *self {
                CommandExecuteError::ChatbotSwitch(err) => creation_error_text(err),
                CommandExecuteError::Session(SessionError::Serialize) =>
                    "Failed to serialize or deserialize session."@,
                CommandExecuteError::Session(SessionError::NotFound) => "Session not found."@,
                CommandExecuteError::Quit => "User quit."@,
            },
    {
        match self {
            Self::ChatbotSwitch(err) => err.message(),
            Self::Session(err) => err.message(),
            Self::Quit => String::from_str("User quit."),
        }
    }
}

/// What kind of output a notice is rendered as.
#[derive(Debug, PartialEq, Eq, Structural, Clone, Copy)]
pub enum NoticeKind {
    App,
    Error,
}

/// One line of output a command asks to have shown.
#[derive(Debug)]
pub struct Notice {
    pub kind: NoticeKind,
    pub text: String,
}

/// The mathematical value of a [`Notice`].
pub struct NoticeView {
    pub kind: NoticeKind,
    pub text: Seq<char>,
}

impl View for Notice {
    type V = NoticeView;

    open spec fn view(&self) -> NoticeView {
        NoticeView { kind: self.kind, text: self.text@ }
    }
}

impl DeepView for Notice {
    type V = NoticeView;

    open spec fn deep_view(&self) -> NoticeView {
        self.view()
    }
}

/// An ordinary application notice.
pub open spec fn app_notice(text: Seq<char>) -> NoticeView {
    NoticeView { kind: NoticeKind::App, text }
}

/// An error notice.
pub open spec fn error_notice(text: Seq<char>) -> NoticeView {
    NoticeView { kind: NoticeKind::Error, text }
}

impl Notice {
    /// An ordinary application notice.
    pub fn app(text: String) -> (notice: Self)
        ensures
            notice@ == app_notice(text@),
    {
        Self { kind: NoticeKind::App, text }
    }

    /// An error notice.
    pub fn error(text: String) -> (notice: Self)
        ensures
            notice@ == error_notice(text@),
    {
        Self { kind: NoticeKind::Error, text }
    }
}

/// One notice per model id, each shown indented, in catalog order.
pub open spec fn model_list_notices(models: Seq<Seq<char>>) -> Seq<NoticeView>
    decreases models.len(),
{
    if models.len() == 0 {
        Seq::empty()
    } else {
        model_list_notices(models.drop_last()).push(app_notice("\t"@ + models.last()))
    }
}

/// One notice per stored session id, each shown indented, in store order.
pub open spec fn session_list_notices(ids: Seq<Seq<char>>) -> Seq<NoticeView>
    decreases ids.len(),
{
    if ids.len() == 0 {
        Seq::empty()
    } else {
        session_list_notices(ids.drop_last()).push(app_notice("\t"@ + ids.last()))
    }
}

/// A typed command, parsed from one sigil-led line.
#[derive(Debug)]
pub enum Command {
    Clear,
    System { prompt: Message },
    SwitchChatbot { name: String },
    ListChatbots,
    SwitchModel { name: String },
    ListModels,
    Info,
    Save { filename: String },
    Load { filename: String },
    Delete { filename: String },
    Sessions,
    Help,
    Quit,
}

/// A command's own validity: the System command carries a System message.
pub open spec fn command_wf(cmd: Command) -> bool {
    match cmd {
        Command::System { prompt } => prompt@.role == Role::System,
        _ => true,
    }
}

impl Command {
    /// Reads the whitespace-separated parts of a command line into a typed
    /// command: the first part selects the command by its long or short
    /// name, case-sensitively, and the following parts are its arguments.
    pub fn from_parts(parts: &Vec<String>) -> (cmd: Result<Self, CommandCreationError>)
        ensures
            ({
                let v = parts.deep_view();
                if v.len() == 0 {
                    (cmd matches Err(e) && e == CommandCreationError::MissingCommand)
                } else {
                    let name = v[0];
                    if name == "/clear"@ || name == "/c"@ {
                        (cmd matches Ok(c) && c is Clear)
                    } else if name == "/system"@ || name == "/sys"@ {
                        if v.len() > 1 {
                            (cmd matches Ok(c) && (c matches Command::System { prompt } && prompt@.role
                                == Role::System && prompt@.content == join_spaces(v.skip(1))))
                        } else {
                            (cmd matches Err(e) && e == CommandCreationError::MissingPrompt)
                        }
                    } else if name == "/chatbot"@ || name == "/cb"@ {
                        if v.len() > 1 {
                            (cmd matches Ok(c) && (c matches Command::SwitchChatbot { name: arg }
                                && arg@ == v[1]))
                        } else {
                            (cmd matches Err(e) && e == CommandCreationError::MissingChatbotName)
                        }
                    } else if name == "/list_chatbots"@ || name == "/lb"@ {
                        (cmd matches Ok(c) && c is ListChatbots)
                    } else if name == "/model"@ || name == "/m"@ {
                        if v.len() > 1 {
                            (cmd matches Ok(c) && (c matches Command::SwitchModel { name: arg }
                                && arg@ == v[1]))
                        } else {
                            (cmd matches Err(e) && e == CommandCreationError::MissingModelName)
                        }
                    } else if name == "/list_models"@ || name == "/lm"@ {
                        (cmd matches Ok(c) && c is ListModels)
                    } else if name == "/info"@ || name == "/i"@ {
                        (cmd matches Ok(c) && c is Info)
                    } else if name == "/save"@ || name == "/s"@ {
                        if v.len() > 1 {
                            (cmd matches Ok(c) && (c matches Command::Save { filename } && filename@
                                == v[1]))
                        } else {
                            (cmd matches Err(e) && e == CommandCreationError::MissingFilename)
                        }
                    } else if name == "/load"@ || name == "/l"@ {
                        if v.len() > 1 {
                            (cmd matches Ok(c) && (c matches Command::Load { filename } && filename@
                                == v[1]))
                        } else {
                            (cmd matches Err(e) && e == CommandCreationError::MissingFilename)
                        }
                    } else if name == "/delete"@ || name == "/d"@ {
                        if v.len() > 1 {
                            (cmd matches Ok(c) && (c matches Command::Delete { filename }
                                && filename@ == v[1]))
                        } else {
                            (cmd matches Err(e) && e == CommandCreationError::MissingFilename)
                        }
                    } else if name == "/sessions"@ || name == "/se"@ {
                        (cmd matches Ok(c) && c is Sessions)
                    } else if name == "/help"@ || name == "/h"@ {
                        (cmd matches Ok(c) && c is Help)
                    } else if name == "/quit"@ || name == "/q"@ {
                        (cmd matches Ok(c) && c is Quit)
                    } else {
                        (cmd matches Err(e) && e == CommandCreationError::Invalid)
                    }
                }
            }),
            cmd matches Ok(c) ==> command_wf(c),
    {
        if parts.len() == 0 {
            return Err(CommandCreationError::MissingCommand);
        }
        let name = parts[0].as_str();
        if str_eq(name, "/clear") || str_eq(name, "/c") {
            Ok(Self::Clear)
        } else if str_eq(name, "/system") || str_eq(name, "/sys") {
            if parts.len() > 1 {
                let prompt = Message::new(Role::System, join_from(parts, 1));
                Ok(Self::System { prompt })
            } else {
                Err(CommandCreationError::MissingPrompt)
            }
        } else if str_eq(name, "/chatbot") || str_eq(name, "/cb") {
            if parts.len() > 1 {
                Ok(Self::SwitchChatbot { name: parts[1].clone() })
            } else {
                Err(CommandCreationError::MissingChatbotName)
            }
        } else if str_eq(name, "/list_chatbots") || str_eq(name, "/lb") {
            Ok(Self::ListChatbots)
        } else if str_eq(name, "/model") || str_eq(name, "/m") {
            if parts.len() > 1 {
                Ok(Self::SwitchModel { name: parts[1].clone() })
            } else {
                Err(CommandCreationError::MissingModelName)
            }
        } else if str_eq(name, "/list_models") || str_eq(name, "/lm") {
            Ok(Self::ListModels)
        } else if str_eq(name, "/info") || str_eq(name, "/i") {
            Ok(Self::Info)
        } else if str_eq(name, "/save") || str_eq(name, "/s") {
            if parts.len() > 1 {
                Ok(Self::Save { filename: parts[1].clone() })
            } else {
                Err(CommandCreationError::MissingFilename)
            }
        } else if str_eq(name, "/load") || str_eq(name, "/l") {
            if parts.len() > 1 {
                Ok(Self::Load { filename: parts[1].clone() })
            } else {
                Err(CommandCreationError::MissingFilename)
            }
        } else if str_eq(name, "/delete") || str_eq(name, "/d") {
            if parts.len() > 1 {
                Ok(Self::Delete { filename: parts[1].clone() })
            } else {
                Err(CommandCreationError::MissingFilename)
            }
        } else if str_eq(name, "/sessions") || str_eq(name, "/se") {
            Ok(Self::Sessions)
        } else if str_eq(name, "/help") || str_eq(name, "/h") {
            Ok(Self::Help)
        } else if str_eq(name, "/quit") || str_eq(name, "/q") {
            Ok(Self::Quit)
        } else {
            Err(CommandCreationError::Invalid)
        }
    }
}

/// The help screen: every command with its aliases.
pub open spec fn help_notices() -> Seq<NoticeView> {
    seq![
        app_notice("Available commands:"@),
        app_notice("\t/clear or /c - Clear the conversation history (including system prompt)"@),
        app_notice("\t/system <prompt> or /sys <prompt> - Set the system prompt"@),
        app_notice("\t/chatbot <chatbot> or /cb <chatbot> - Change the chatbot"@),
        app_notice("\t/list_chatbots or /lb - List all available chatbots"@),
        app_notice("\t/model <model> or /m <model> - Change the chatbot model"@),
        app_notice("\t/list_models or /lm - List all available models for current chatbot"@),
        app_notice("\t/info or /i - Display current chatbot and model information"@),
        app_notice("\t/save <filename> or /s <filename> - Save the session"@),
        app_notice("\t/load <filename> or /l <filename> - Load a saved session"@),
        app_notice("\t/delete <filename> or /d <filename> - Delete a session"@),
        app_notice("\t/sessions or /se - List all saved sessions"@),
        app_notice("\t/help or /h - List all available commands"@),
        app_notice("\t/quit or /q - Exit the application"@),
    ]
}

impl Command {
    /// Executes the command against the transcript, the active provider
    /// and the snapshot store, all borrowed for this one call, and reports
    /// the notices to show. Only `Quit` asks to end the loop; every other
    /// command leaves it running, whether it succeeded or not.
    #[verifier::rlimit(80)]
    pub fn execute(
        self,
        session: &mut Session,
        chatbot: &mut Chatbot,
        store: &mut SessionStore,
        config: &Config,
    ) -> (outcome: Result<Vec<Notice>, CommandExecuteError>)
        requires
            command_wf(self),
            old(chatbot).wf(),
            old(store).wf(),
        ensures
            final(chatbot).wf(),
            final(store).wf(),
            match self {
                Command::Clear => (outcome matches Ok(notices) && final(session).messages.deep_view() == Seq::<MessageView>::empty() && *final(chatbot) == *old(chatbot) && *final(store) == *old(store) && notices.deep_view() == seq![
                    app_notice("Context cleared."@),
                ]),
                Command::System { prompt } => (outcome matches Ok(notices) && final(session).messages.deep_view() == seq![prompt@] + without_system(
                    old(session).messages.deep_view(),
                ) && *final(chatbot) == *old(chatbot) && *final(store) == *old(store)
                    && notices.deep_view() == seq![app_notice("System prompt set."@)]),
                Command::SwitchChatbot { name } => {
                    &&& final(session).messages == old(session).messages
                    &&& *final(store) == *old(store)
                    &&& if name@ == "gemini"@ {
                        match config.gemini_model {
                            None => (outcome matches Err(e) && e
                                == CommandExecuteError::ChatbotSwitch(
                                ChatbotCreationError::UnknownModel,
                            ) && *final(chatbot) == *old(chatbot)),
                            Some(model) => {
                                if config.gemini_api_key is None && config.gemini_env_key
                                    is None {
                                    (outcome matches Err(e) && e
                                        == CommandExecuteError::ChatbotSwitch(
                                        ChatbotCreationError::ApiKeyMissing,
                                    ) && *final(chatbot) == *old(chatbot))
                                } else if !gemini_models().contains(model@) {
                                    (outcome matches Err(e) && e
                                        == CommandExecuteError::ChatbotSwitch(
                                        ChatbotCreationError::UnknownModel,
                                    ) && *final(chatbot) == *old(chatbot))
                                } else {
                                    (outcome matches Ok(notices) && ((*final(chatbot)) matches Chatbot::Gemini(bot) && bot.model@ == model@)
                                        && notices.deep_view() == seq![
                                        app_notice("Chatbot changed to "@ + "Gemini"@),
                                    ])
                                }
                            },
                        }
                    } else if name@ == "dummy"@ {
                        (outcome matches Ok(notices) && ((*final(chatbot)) matches Chatbot::Dummy(bot)
                            && bot.model@ == "1"@) && notices.deep_view() == seq![
                            app_notice("Chatbot changed to "@ + "Dummy"@),
                        ])
                    } else {
                        (outcome matches Ok(notices) && *final(chatbot) == *old(chatbot)
                            && notices.deep_view() == seq![error_notice("Invalid chatbot."@)])
                    }
                },
                Command::ListChatbots => (outcome matches Ok(notices) && final(session).messages
                    == old(session).messages && *final(chatbot) == *old(chatbot) && *final(store)
                    == *old(store) && notices.deep_view() == seq![
                    app_notice("Available chatbots:"@),
                    app_notice("\tgemini - Google Gemini"@),
                    app_notice("\tdummy - Dummy"@),
                ]),
                Command::SwitchModel { name } => {
                    &&& final(session).messages == old(session).messages
                    &&& *final(store) == *old(store)
                    &&& if old(chatbot).catalog().contains(name@) {
                        (outcome matches Ok(notices) && final(chatbot).model_id() == name@ && final(chatbot).catalog() == old(chatbot).catalog() && final(chatbot).display_name()
                            == old(chatbot).display_name() && notices.deep_view() == seq![
                            app_notice("Chatbot model changed to "@ + final(chatbot).model_label()),
                        ])
                    } else {
                        (outcome matches Ok(notices) && *final(chatbot) == *old(chatbot)
                            && notices.deep_view() == seq![error_notice("Invalid model."@)])
                    }
                },
                Command::ListModels => (outcome matches Ok(notices) && final(session).messages
                    == old(session).messages && *final(chatbot) == *old(chatbot) && *final(store)
                    == *old(store) && notices.deep_view() == seq![app_notice("Available models:"@)]
                    + model_list_notices(old(chatbot).catalog())),
                Command::Info => (outcome matches Ok(notices) && final(session).messages == old(session).messages && *final(chatbot) == *old(chatbot) && *final(store) == *old(store)
                    && notices.deep_view() == seq![
                    app_notice("Current chatbot: "@ + old(chatbot).display_name()),
                    app_notice("Current model: "@ + old(chatbot).model_label()),
                ] + match first_system(old(session).messages.deep_view()) {
                    Some(m) => seq![app_notice("System prompt: "@ + m.content)],
                    None => Seq::<NoticeView>::empty(),
                }),
                Command::Save { filename } => (outcome matches Ok(notices) && final(session).messages == old(session).messages && *final(chatbot) == *old(chatbot) && final(store).lookup(filename@) == Some(snapshot_text(old(session).messages.deep_view()))
                    && notices.deep_view() == seq![
                    app_notice("Session saved to "@ + filename@ + ".json"@),
                ]),
                Command::Load { filename } => {
                    &&& *final(chatbot) == *old(chatbot)
                    &&& *final(store) == *old(store)
                    &&& match old(store).lookup(filename@) {
                        None => (outcome matches Err(e) && e == CommandExecuteError::Session(
                            SessionError::NotFound,
                        ) && final(session).messages == old(session).messages),
                        Some(text) => match parse_snapshot(text) {
                            None => (outcome matches Err(e) && e == CommandExecuteError::Session(
                                SessionError::Serialize,
                            ) && final(session).messages == old(session).messages),
                            Some(msgs) => (outcome matches Ok(notices) && final(session).messages.deep_view() == msgs && notices.deep_view() == seq![
                                app_notice("Session loaded from "@ + filename@ + ".json"@),
                            ]),
                        },
                    }
                },
                Command::Delete { filename } => {
                    &&& final(session).messages == old(session).messages
                    &&& *final(chatbot) == *old(chatbot)
                    &&& if old(store).contains_id(filename@) {
                        (outcome matches Ok(notices) && final(store).table() == old(store).table().remove(
                            crate::session::find_id(old(store).table(), filename@, 0),
                        ) && notices.deep_view() == seq![
                            app_notice("Session "@ + filename@ + ".json deleted."@),
                        ])
                    } else {
                        (outcome matches Err(e) && e == CommandExecuteError::Session(
                            SessionError::NotFound,
                        ) && *final(store) == *old(store))
                    }
                },
                Command::Sessions => (outcome matches Ok(notices) && final(session).messages
                    == old(session).messages && *final(chatbot) == *old(chatbot) && *final(store)
                    == *old(store) && notices.deep_view() == (if old(store).ids().len() == 0 {
                    seq![error_notice("No saved sessions found."@)]
                } else {
                    seq![app_notice("Saved sessions:"@)] + session_list_notices(old(store).ids())
                })),
                Command::Help => (outcome matches Ok(notices) && final(session).messages == old(session).messages && *final(chatbot) == *old(chatbot) && *final(store) == *old(store)
                    && notices.deep_view() == help_notices()),
                Command::Quit => (outcome matches Err(e) && e == CommandExecuteError::Quit && final(session).messages == old(session).messages && *final(chatbot) == *old(chatbot) && *final(store) == *old(store)),
            },
    {
        match self {
            Self::Clear => {
                session.clear();
                let mut notices: Vec<Notice> = Vec::new();
                notices.push(Notice::app(String::from_str("Context cleared.")));
                proof {
                    assert(notices.deep_view() =~= seq![app_notice("Context cleared."@)]);
                }
                Ok(notices)
            },
            Self::System { prompt } => {
                session.set_system(prompt);
                let mut notices: Vec<Notice> = Vec::new();
                notices.push(Notice::app(String::from_str("System prompt set.")));
                proof {
                    assert(notices.deep_view() =~= seq![app_notice("System prompt set."@)]);
                }
                Ok(notices)
            },
            Self::SwitchChatbot { name } => {
                if str_eq(name.as_str(), "gemini") {
                    let model = match clone_opt(&config.gemini_model) {
                        Some(model) => model,
                        None => {
                            return Err(
                                CommandExecuteError::ChatbotSwitch(
                                    ChatbotCreationError::UnknownModel,
                                ),
                            );
                        },
                    };
                    match GeminiChatbot::create(
                        model,
                        clone_opt(&config.gemini_api_key),
                        clone_opt(&config.gemini_env_key),
                    ) {
                        Ok(bot) => {
                            *chatbot = Chatbot::Gemini(bot);
                            let mut notices: Vec<Notice> = Vec::new();
                            notices.push(
                                Notice::app(text2("Chatbot changed to ", chatbot.name())),
                            );
                            proof {
                                assert(notices.deep_view() =~= seq![
                                    app_notice("Chatbot changed to "@ + "Gemini"@),
                                ]);
                            }
                            Ok(notices)
                        },
                        Err(err) => Err(CommandExecuteError::ChatbotSwitch(err)),
                    }
                } else if str_eq(name.as_str(), "dummy") {
                    match DummyChatbot::create(String::from_str("1"), None) {
                        Ok(bot) => {
                            proof {
                                assert(dummy_models()[0] == "1"@);
                            }
                            *chatbot = Chatbot::Dummy(bot);
                            let mut notices: Vec<Notice> = Vec::new();
                            notices.push(
                                Notice::app(text2("Chatbot changed to ", chatbot.name())),
                            );
                            proof {
                                assert(notices.deep_view() =~= seq![
                                    app_notice("Chatbot changed to "@ + "Dummy"@),
                                ]);
                            }
                            Ok(notices)
                        },
                        Err(err) => {
                            proof {
                                assert(dummy_models()[0] == "1"@);
                            }
                            Err(CommandExecuteError::ChatbotSwitch(err))
                        },
                    }
                } else {
                    let mut notices: Vec<Notice> = Vec::new();
                    notices.push(Notice::error(String::from_str("Invalid chatbot.")));
                    proof {
                        assert(notices.deep_view() =~= seq![error_notice("Invalid chatbot."@)]);
                    }
                    Ok(notices)
                }
            },
            Self::ListChatbots => {
                let mut notices: Vec<Notice> = Vec::new();
                notices.push(Notice::app(String::from_str("Available chatbots:")));
                notices.push(Notice::app(String::from_str("\tgemini - Google Gemini")));
                notices.push(Notice::app(String::from_str("\tdummy - Dummy")));
                proof {
                    assert(notices.deep_view() =~= seq![
                        app_notice("Available chatbots:"@),
                        app_notice("\tgemini - Google Gemini"@),
                        app_notice("\tdummy - Dummy"@),
                    ]);
                }
                Ok(notices)
            },
            Self::SwitchModel { name } => {
                match chatbot.change_model(name) {
                    Ok(()) => {
                        let label = chatbot.model();
                        let mut notices: Vec<Notice> = Vec::new();
                        notices.push(Notice::app(text2("Chatbot model changed to ", label)));
                        proof {
                            assert(notices.deep_view() =~= seq![
                                app_notice("Chatbot model changed to "@ + chatbot.model_label()),
                            ]);
                        }
                        Ok(notices)
                    },
                    Err(err) => {
                        let mut notices: Vec<Notice> = Vec::new();
                        notices.push(Notice::error(err.message()));
                        proof {
                            assert(notices.deep_view() =~= seq![error_notice("Invalid model."@)]);
                        }
                        Ok(notices)
                    },
                }
            },
            Self::ListModels => {
                let ghost catalog = chatbot.catalog();
                let mut notices: Vec<Notice> = Vec::new();
                notices.push(Notice::app(String::from_str("Available models:")));
                let models = chatbot.available_models();
                let n = models.len();
                let mut i: usize = 0;
                proof {
                    assert(model_list_notices(catalog.take(0)) =~= Seq::<NoticeView>::empty());
                    assert(notices.deep_view() =~= seq![app_notice("Available models:"@)]
                        + model_list_notices(catalog.take(0)));
                }
                while i < n
                    invariant
                        i <= n,
                        n == models@.len(),
                        models.deep_view() == catalog,
                        catalog.len() == n,
                        notices.deep_view() == seq![app_notice("Available models:"@)]
                            + model_list_notices(catalog.take(i as int)),
                    decreases n - i,
                {
                    let ghost prior = notices.deep_view();
                    proof {
                        assert(models@[i as int]@ == catalog[i as int]);
                    }
                    notices.push(Notice::app(text2("\t", models[i].as_str())));
                    proof {
                        assert(catalog.take(i + 1).drop_last() =~= catalog.take(i as int));
                        assert(catalog.take(i + 1).last() == catalog[i as int]);
                        assert(notices.deep_view() =~= prior.push(
                            app_notice("\t"@ + catalog[i as int]),
                        ));
                        assert(prior.push(app_notice("\t"@ + catalog[i as int])) =~= seq![
                            app_notice("Available models:"@),
                        ] + model_list_notices(catalog.take(i + 1)));
                    }
                    i = i + 1;
                }
                proof {
                    assert(catalog.take(n as int) =~= catalog);
                }
                Ok(notices)
            },
            Self::Info => {
                let mut notices: Vec<Notice> = Vec::new();
                notices.push(Notice::app(text2("Current chatbot: ", chatbot.name())));
                notices.push(Notice::app(text2("Current model: ", chatbot.model())));
                match session.system_message() {
                    Some(msg) => {
                        let line = text2("System prompt: ", msg.content.as_str());
                        notices.push(Notice::app(line));
                        proof {
                            assert(notices.deep_view() =~= seq![
                                app_notice("Current chatbot: "@ + chatbot.display_name()),
                                app_notice("Current model: "@ + chatbot.model_label()),
                            ] + seq![
                                app_notice(
                                    "System prompt: "@ + first_system(
                                        session.messages.deep_view(),
                                    )->0.content,
                                ),
                            ]);
                        }
                    },
                    None => {
                        proof {
                            assert(notices.deep_view() =~= seq![
                                app_notice("Current chatbot: "@ + chatbot.display_name()),
                                app_notice("Current model: "@ + chatbot.model_label()),
                            ] + Seq::<NoticeView>::empty());
                        }
                    },
                }
                Ok(notices)
            },
            Self::Save { filename } => {
                store.save(filename.as_str(), session);
                let mut notices: Vec<Notice> = Vec::new();
                notices.push(Notice::app(text3("Session saved to ", filename.as_str(), ".json")));
                proof {
                    assert(notices.deep_view() =~= seq![
                        app_notice("Session saved to "@ + filename@ + ".json"@),
                    ]);
                }
                Ok(notices)
            },
            Self::Load { filename } => {
                match store.load(filename.as_str()) {
                    Ok(loaded) => {
                        *session = loaded;
                        let mut notices: Vec<Notice> = Vec::new();
                        notices.push(
                            Notice::app(text3("Session loaded from ", filename.as_str(), ".json")),
                        );
                        proof {
                            assert(notices.deep_view() =~= seq![
                                app_notice("Session loaded from "@ + filename@ + ".json"@),
                            ]);
                        }
                        Ok(notices)
                    },
                    Err(err) => Err(CommandExecuteError::Session(err)),
                }
            },
            Self::Delete { filename } => {
                match store.delete(filename.as_str()) {
                    Ok(()) => {
                        let mut notices: Vec<Notice> = Vec::new();
                        notices.push(
                            Notice::app(text3("Session ", filename.as_str(), ".json deleted.")),
                        );
                        proof {
                            assert(notices.deep_view() =~= seq![
                                app_notice("Session "@ + filename@ + ".json deleted."@),
                            ]);
                        }
                        Ok(notices)
                    },
                    Err(err) => Err(CommandExecuteError::Session(err)),
                }
            },
            Self::Sessions => {
                let ghost all = store.ids();
                let ids = store.list();
                let mut notices: Vec<Notice> = Vec::new();
                if ids.len() == 0 {
                    notices.push(Notice::error(String::from_str("No saved sessions found.")));
                    proof {
                        assert(notices.deep_view() =~= seq![
                            error_notice("No saved sessions found."@),
                        ]);
                    }
                } else {
                    notices.push(Notice::app(String::from_str("Saved sessions:")));
                    let n = ids.len();
                    let mut i: usize = 0;
                    proof {
                        assert(session_list_notices(all.take(0)) =~= Seq::<NoticeView>::empty());
                        assert(notices.deep_view() =~= seq![app_notice("Saved sessions:"@)]
                            + session_list_notices(all.take(0)));
                    }
                    while i < n
                        invariant
                            i <= n,
                            n == ids@.len(),
                            ids.deep_view() == all,
                            all.len() == n,
                            notices.deep_view() == seq![app_notice("Saved sessions:"@)]
                                + session_list_notices(all.take(i as int)),
                        decreases n - i,
                    {
                        let ghost prior = notices.deep_view();
                        proof {
                            assert(ids@[i as int]@ == all[i as int]);
                        }
                        notices.push(Notice::app(text2("\t", ids[i].as_str())));
                        proof {
                            assert(all.take(i + 1).drop_last() =~= all.take(i as int));
                            assert(all.take(i + 1).last() == all[i as int]);
                            assert(notices.deep_view() =~= prior.push(
                                app_notice("\t"@ + all[i as int]),
                            ));
                            assert(prior.push(app_notice("\t"@ + all[i as int])) =~= seq![
                                app_notice("Saved sessions:"@),
                            ] + session_list_notices(all.take(i + 1)));
                        }
                        i = i + 1;
                    }
                    proof {
                        assert(all.take(n as int) =~= all);
                    }
                }
                Ok(notices)
            },
            Self::Help => {
                let mut notices: Vec<Notice> = Vec::new();
                notices.push(Notice::app(String::from_str("Available commands:")));
                notices.push(
                    Notice::app(
                        String::from_str(
                            "\t/clear or /c - Clear the conversation history (including system prompt)",
                        ),
                    ),
                );
                notices.push(
                    Notice::app(
                        String::from_str("\t/system <prompt> or /sys <prompt> - Set the system prompt"),
                    ),
                );
                notices.push(
                    Notice::app(
                        String::from_str("\t/chatbot <chatbot> or /cb <chatbot> - Change the chatbot"),
                    ),
                );
                notices.push(
                    Notice::app(
                        String::from_str("\t/list_chatbots or /lb - List all available chatbots"),
                    ),
                );
                notices.push(
                    Notice::app(
                        String::from_str("\t/model <model> or /m <model> - Change the chatbot model"),
                    ),
                );
                notices.push(
                    Notice::app(
                        String::from_str(
                            "\t/list_models or /lm - List all available models for current chatbot",
                        ),
                    ),
                );
                notices.push(
                    Notice::app(
                        String::from_str(
                            "\t/info or /i - Display current chatbot and model information",
                        ),
                    ),
                );
                notices.push(
                    Notice::app(
                        String::from_str("\t/save <filename> or /s <filename> - Save the session"),
                    ),
                );
                notices.push(
                    Notice::app(
                        String::from_str("\t/load <filename> or /l <filename> - Load a saved session"),
                    ),
                );
                notices.push(
                    Notice::app(
                        String::from_str("\t/delete <filename> or /d <filename> - Delete a session"),
                    ),
                );
                notices.push(
                    Notice::app(String::from_str("\t/sessions or /se - List all saved sessions")),
                );
                notices.push(
                    Notice::app(String::from_str("\t/help or /h - List all available commands")),
                );
                notices.push(
                    Notice::app(String::from_str("\t/quit or /q - Exit the application")),
                );
                proof {
                    assert(notices.deep_view() =~= help_notices());
                }
                Ok(notices)
            },
            Self::Quit => Err(CommandExecuteError::Quit),
        }
    }
}

/// `a` followed by `b` as one string.
fn text2(a: &str, b: &str) -> (joined: String)
    ensures
        joined@ == a@ + b@,
{
    let mut joined = String::from_str(a);
    joined.append(b);
    joined
}

/// `a`, `b` and `c` as one string.
fn text3(a: &str, b: &str, c: &str) -> (joined: String)
    ensures
        joined@ == a@ + b@ + c@,
{
    let mut joined = String::from_str(a);
    joined.append(b);
    joined.append(c);
    joined
}

/// A copy of an optional string.
fn clone_opt(value: &Option<String>) -> (copy: Option<String>)
    ensures
        match value {
            Some(s) => copy matches Some(t) && t@ == s@,
            None => copy is None,
        },
{
    match value {
        Some(s) => Some(s.clone()),
        None => None,
    }
}

} // verus!
