//! The data model: roles, model identifiers, messages, per-chat
//! configuration and chats.

use vstd::prelude::*;
use crate::text::same_text;

verus! {

/// Default `max_tokens` of a chat configuration.
pub const DEFAULT_USER_MAX_TOKEN: i32 = 4000;

/// What `str::to_lowercase` makes of a string.
pub uninterp spec fn lower_of(s: Seq<char>) -> Seq<char>;

/// Relies on `str::to_lowercase`: the result depends on the characters alone,
/// and the empty string stays empty.
#[verifier::external_body]
fn lowercase(s: &str) -> (r: String)
    ensures
        r@ == lower_of(s@),
        s@.len() == 0 ==> r@.len() == 0,
{
    s.to_lowercase()
}

/// How many models there are.
pub const MODEL_COUNT: usize = 12;

/// Who wrote a message.
#[derive(Clone, Copy, Debug, PartialEq, Eq, Structural)]
pub enum Role {
    User,
    Assistant,
    System,
}

impl Role {
    /// The wire name of the role.
    pub open spec fn spec_name(self) -> Seq<char> {
        match self {
            Role::User => "user"@,
            Role::Assistant => "assistant"@,
            Role::System => "system"@,
        }
    }

    /// The wire name of the role (`user`, `assistant`, `system`).
    pub fn name(&self) -> (r: &'static str)
        ensures
            r@ == self.spec_name(),
    {
        match self {
            Role::User => "user",
            Role::Assistant => "assistant",
            Role::System => "system",
        }
    }

    /// The role whose wire name is `s` once lowercased.
    pub fn parse(s: &str) -> (r: Option<Role>)
        ensures
            match r {
                Some(role) => role.spec_name() == lower_of(s@),
                None => forall|role: Role| role.spec_name() != lower_of(s@),
            },
    {
        let lower = lowercase(s);
        Role::from_lowercase_name(lower.as_str())
    }

    /// The role whose wire name is exactly `s`.
    pub fn from_lowercase_name(s: &str) -> (r: Option<Role>)
        ensures
            match r {
                Some(role) => role.spec_name() == s@,
                None => forall|role: Role| role.spec_name() != s@,
            },
    {
        if same_text(s, "user") {
            Some(Role::User)
        } else if same_text(s, "assistant") {
            Some(Role::Assistant)
        } else if same_text(s, "system") {
            Some(Role::System)
        } else {
            assert forall|role: Role| role.spec_name() != s@ by {
                match role {
                    Role::User => {},
                    Role::Assistant => {},
                    Role::System => {},
                }
            }
            None
        }
    }
}

/// The chat models that a chat can be configured with.
#[derive(Clone, Copy, Debug, PartialEq, Eq, Hash, Structural)]
pub enum ModelOptions {
    Gpt4o,
    Gpt4o20240513,
    Gpt4,
    Gpt432k,
    Gpt41106Preview,
    Gpt40125Preview,
    Gpt4Turbo,
    Gpt4Turbo20240409,
    Gpt35Turbo,
    Gpt35Turbo16k,
    Gpt35Turbo1106,
    Gpt35Turbo0125,
}

impl ModelOptions {
    /// The model's identifier on the wire.
    pub open spec fn spec_name(self) -> Seq<char> {
        match self {
            ModelOptions::Gpt4o => "gpt-4o"@,
            ModelOptions::Gpt4o20240513 => "gpt-4o-2024-05-13"@,
            ModelOptions::Gpt4 => "gpt-4"@,
            ModelOptions::Gpt432k => "gpt-4-32k"@,
            ModelOptions::Gpt41106Preview => "gpt-4-1106-preview"@,
            ModelOptions::Gpt40125Preview => "gpt-4-0125-preview"@,
            ModelOptions::Gpt4Turbo => "gpt-4-turbo"@,
            ModelOptions::Gpt4Turbo20240409 => "gpt-4-turbo-2024-04-09"@,
            ModelOptions::Gpt35Turbo => "gpt-3.5-turbo"@,
            ModelOptions::Gpt35Turbo16k => "gpt-3.5-turbo-16k"@,
            ModelOptions::Gpt35Turbo1106 => "gpt-3.5-turbo-1106"@,
            ModelOptions::Gpt35Turbo0125 => "gpt-3.5-turbo-0125"@,
        }
    }

    /// The GPT-4 / GPT-4-32k family, which the managed cloud serves under
    /// its own API version.
    pub open spec fn spec_is_gpt4_family(self) -> bool {
        self == ModelOptions::Gpt4 || self == ModelOptions::Gpt432k
    }

    /// The model's identifier on the wire.
    pub fn name(&self) -> (r: &'static str)
        ensures
            r@ == self.spec_name(),
    {
        match self {
            ModelOptions::Gpt4o => "gpt-4o",
            ModelOptions::Gpt4o20240513 => "gpt-4o-2024-05-13",
            ModelOptions::Gpt4 => "gpt-4",
            ModelOptions::Gpt432k => "gpt-4-32k",
            ModelOptions::Gpt41106Preview => "gpt-4-1106-preview",
            ModelOptions::Gpt40125Preview => "gpt-4-0125-preview",
            ModelOptions::Gpt4Turbo => "gpt-4-turbo",
            ModelOptions::Gpt4Turbo20240409 => "gpt-4-turbo-2024-04-09",
            ModelOptions::Gpt35Turbo => "gpt-3.5-turbo",
            ModelOptions::Gpt35Turbo16k => "gpt-3.5-turbo-16k",
            ModelOptions::Gpt35Turbo1106 => "gpt-3.5-turbo-1106",
            ModelOptions::Gpt35Turbo0125 => "gpt-3.5-turbo-0125",
        }
    }

    /// The model's position in the list of models.
    pub open spec fn spec_index(self) -> int {
        match self {
            ModelOptions::Gpt4o => 0,
            ModelOptions::Gpt4o20240513 => 1,
            ModelOptions::Gpt4 => 2,
            ModelOptions::Gpt432k => 3,
            ModelOptions::Gpt41106Preview => 4,
            ModelOptions::Gpt40125Preview => 5,
            ModelOptions::Gpt4Turbo => 6,
            ModelOptions::Gpt4Turbo20240409 => 7,
            ModelOptions::Gpt35Turbo => 8,
            ModelOptions::Gpt35Turbo16k => 9,
            ModelOptions::Gpt35Turbo1106 => 10,
            ModelOptions::Gpt35Turbo0125 => 11,
        }
    }

    /// The model's position in the list of models.
    pub fn index(&self) -> (r: usize)
        ensures
            r == self.spec_index(),
            r < MODEL_COUNT,
    {
        match self {
            ModelOptions::Gpt4o => 0,
            ModelOptions::Gpt4o20240513 => 1,
            ModelOptions::Gpt4 => 2,
            ModelOptions::Gpt432k => 3,
            ModelOptions::Gpt41106Preview => 4,
            ModelOptions::Gpt40125Preview => 5,
            ModelOptions::Gpt4Turbo => 6,
            ModelOptions::Gpt4Turbo20240409 => 7,
            ModelOptions::Gpt35Turbo => 8,
            ModelOptions::Gpt35Turbo16k => 9,
            ModelOptions::Gpt35Turbo1106 => 10,
            ModelOptions::Gpt35Turbo0125 => 11,
        }
    }

    /// Whether the model belongs to the GPT-4 / GPT-4-32k family.
    pub fn is_gpt4_family(&self) -> (r: bool)
        ensures
            r == self.spec_is_gpt4_family(),
    {
        match self {
            ModelOptions::Gpt4 | ModelOptions::Gpt432k => true,
            _ => false,
        }
    }

    /// The model whose identifier is exactly `s`.
    pub fn from_name(s: &str) -> (r: Option<ModelOptions>)
        ensures
            match r {
                Some(m) => m.spec_name() == s@,
                None => forall|m: ModelOptions| m.spec_name() != s@,
            },
    {
        let all = [
            ModelOptions::Gpt4o,
            ModelOptions::Gpt4o20240513,
            ModelOptions::Gpt4,
            ModelOptions::Gpt432k,
            ModelOptions::Gpt41106Preview,
            ModelOptions::Gpt40125Preview,
            ModelOptions::Gpt4Turbo,
            ModelOptions::Gpt4Turbo20240409,
            ModelOptions::Gpt35Turbo,
            ModelOptions::Gpt35Turbo16k,
            ModelOptions::Gpt35Turbo1106,
            ModelOptions::Gpt35Turbo0125,
        ];
        let mut i: usize = 0;
        while i < 12
            invariant
                0 <= i <= 12,
                all@.len() == 12,
                forall|m: ModelOptions| all@.contains(m),
                forall|k: int| 0 <= k < i ==> (#[trigger] all@[k]).spec_name() != s@,
            decreases 12 - i,
        {
            let m = all[i];
            if same_text(s, m.name()) {
                return Some(m);
            }
            i += 1;
        }
        assert forall|m: ModelOptions| m.spec_name() != s@ by {
            assert(all@.contains(m));
        }
        None
    }
}

/// One message of a chat.
#[derive(Debug)]
pub struct MessageInterface {
    pub role: Role,
    pub content: String,
    pub folder: Option<String>,
}

impl MessageInterface {
    /// A message with no folder tag.
    pub fn new(role: Role, content: String) -> (r: MessageInterface)
        ensures
            r.role == role,
            r.content == content,
            r.folder is None,
    {
        MessageInterface { role, content, folder: None }
    }
}

impl Clone for MessageInterface {
    fn clone(&self) -> (r: Self)
        ensures
            r == *self,
    {
        let folder = match &self.folder {
            Some(f) => Some(f.clone()),
            None => None,
        };
        MessageInterface { role: self.role, content: self.content.clone(), folder }
    }
}

impl PartialEq for MessageInterface {
    fn eq(&self, o: &MessageInterface) -> (r: bool) {
        let same_folder = match (&self.folder, &o.folder) {
            (Some(a), Some(b)) => same_text(a.as_str(), b.as_str()),
            (None, None) => true,
            _ => false,
        };
        self.role == o.role && same_text(self.content.as_str(), o.content.as_str()) && same_folder
    }
}

impl vstd::std_specs::cmp::PartialEqSpecImpl for MessageInterface {
    open spec fn obeys_eq_spec() -> bool {
        true
    }

    open spec fn eq_spec(&self, o: &MessageInterface) -> bool {
        self.role == o.role && self.content@ == o.content@ && match (self.folder, o.folder) {
            (Some(a), Some(b)) => a@ == b@,
            (None, None) => true,
            _ => false,
        }
    }
}


impl std::str::FromStr for Role {
    type Err = ();

    fn from_str(s: &str) -> Result<Role, ()> {
        match Role::parse(s) {
            Some(r) => Ok(r),
            None => Err(()),
        }
    }
}

impl std::str::FromStr for ModelOptions {
    type Err = ();

    fn from_str(s: &str) -> Result<ModelOptions, ()> {
        match ModelOptions::from_name(s) {
            Some(m) => Ok(m),
            None => Err(()),
        }
    }
}

/// Sampling configuration of a chat.
#[derive(Clone, Copy, Debug, PartialEq, Eq, Structural)]
pub struct ConfigInterface {
    pub model: ModelOptions,
    pub max_tokens: i32,
    pub temperature: i32,
    pub presence_penalty: i32,
    pub top_p: i32,
    pub frequency_penalty: i32,
}

impl ConfigInterface {
    /// The configuration applied to a chat that has none of its own.
    pub open spec fn spec_default() -> ConfigInterface {
        ConfigInterface {
            model: ModelOptions::Gpt35Turbo,
            max_tokens: DEFAULT_USER_MAX_TOKEN,
            temperature: 1,
            presence_penalty: 0,
            top_p: 1,
            frequency_penalty: 0,
        }
    }
}

impl Default for ConfigInterface {
    fn default() -> (r: ConfigInterface)
        ensures
            r == ConfigInterface::spec_default(),
    {
        ConfigInterface {
            model: ModelOptions::Gpt35Turbo,
            max_tokens: DEFAULT_USER_MAX_TOKEN,
            temperature: 1,
            presence_penalty: 0,
            top_p: 1,
            frequency_penalty: 0,
        }
    }
}

/// A conversation: its messages, optional title and optional configuration.
#[derive(Debug)]
pub struct ChatInterface {
    pub id: String,
    pub title: Option<String>,
    pub folder: Option<String>,
    pub messages: Vec<MessageInterface>,
    pub config: Option<ConfigInterface>,
    /// Whether the title has been set, by the user or by auto-titling.
    pub title_set: bool,
}

impl ChatInterface {
    /// The configuration in force for this chat.
    pub open spec fn spec_effective_config(&self) -> ConfigInterface {
        match self.config {
            Some(c) => c,
            None => ConfigInterface::spec_default(),
        }
    }

    /// A new chat. Without a title it is called "New Chat"; without messages
    /// it starts with one system message holding `default_sys_msg`.
    pub fn new(
        title: Option<String>,
        folder: Option<String>,
        messages: Vec<MessageInterface>,
        config: Option<ConfigInterface>,
        default_sys_msg: String,
    ) -> (r: ChatInterface)
        ensures
            r.id@ == Seq::<char>::empty(),
            r.title is Some,
            title matches Some(t) ==> r.title->0 == t,
            title is None ==> r.title->0@ == "New Chat"@,
            r.folder == folder,
            messages@.len() > 0 ==> r.messages@ == messages@,
            messages@.len() == 0 ==> r.messages@ == seq![
                MessageInterface { role: Role::System, content: default_sys_msg, folder: None },
            ],
            r.config == config,
            !r.title_set,
    {
        let title = match title {
            Some(t) => t,
            None => String::from_str("New Chat"),
        };
        let messages = if messages.len() == 0 {
            vec![MessageInterface { role: Role::System, content: default_sys_msg, folder: None }]
        } else {
            messages
        };
        ChatInterface { id: String::new(), title: Some(title), folder, messages, config, title_set: false }
    }

    /// The configuration in force for this chat: its own, or the default.
    pub fn effective_config(&self) -> (r: ConfigInterface)
        ensures
            r == self.spec_effective_config(),
    {
        match self.config {
            Some(c) => c,
            None => ConfigInterface::default(),
        }
    }
}

/// Tokens spent with one model.
#[derive(Clone, Copy, Debug, PartialEq, Eq, Structural)]
pub struct TokenUsage {
    pub prompt_tokens: u64,
    pub completion_tokens: u64,
}

} // verus!
