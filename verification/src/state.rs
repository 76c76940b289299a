//! What the assistant remembers while it runs, and how events from the speech
//! pipeline turn into commands for the window.

use crate::audio::AudioEvent;
use crate::config::Config;
use crate::ollama::Message;
use crate::ollama::MessageView;
use crate::profiles::ProfileError;
use crate::profiles::ProfileManager;
use vstd::prelude::*;
use vstd::string::StringExecFns;

verus! {

/// Most messages that the conversation history keeps.
pub const MAX_HISTORY_LENGTH: usize = 20;

/// What the window is asked to do.
#[derive(Debug, Clone)]
pub enum UiCommand {
    Show,
    Hide,
    Toggle,
    AppendMessage(Message),
    StreamChunk(String),
    SetListening(bool),
    SetSpeaking(bool),
    SwitchProfile(String),
    UpdateAvatar(String),
}

/// A `UiCommand` with its texts as sequences of characters.
pub enum UiCommandView {
    Show,
    Hide,
    Toggle,
    AppendMessage(MessageView),
    StreamChunk(Seq<char>),
    SetListening(bool),
    SetSpeaking(bool),
    SwitchProfile(Seq<char>),
    UpdateAvatar(Seq<char>),
}

impl View for UiCommand {
    type V = UiCommandView;

    open spec fn view(&self) -> UiCommandView {
        match self {
            UiCommand::Show => UiCommandView::Show,
            UiCommand::Hide => UiCommandView::Hide,
            UiCommand::Toggle => UiCommandView::Toggle,
            UiCommand::AppendMessage(message) => UiCommandView::AppendMessage(message@),
            UiCommand::StreamChunk(chunk) => UiCommandView::StreamChunk(chunk@),
            UiCommand::SetListening(on) => UiCommandView::SetListening(*on),
            UiCommand::SetSpeaking(on) => UiCommandView::SetSpeaking(*on),
            UiCommand::SwitchProfile(name) => UiCommandView::SwitchProfile(name@),
            UiCommand::UpdateAvatar(path) => UiCommandView::UpdateAvatar(path@),
        }
    }
}

/// The command that an event of the speech pipeline gives rise to. A final
/// transcript is shown as a message of the user; a partial one is not shown.
pub open spec fn command_for(event: AudioEvent) -> Option<UiCommandView> {
    match event {
        AudioEvent::SpeechStart => Some(UiCommandView::SetListening(true)),
        AudioEvent::SpeechEnd => Some(UiCommandView::SetListening(false)),
        AudioEvent::TranscriptFinal(text) => Some(
            UiCommandView::AppendMessage(MessageView { role: "user"@, content: text@ }),
        ),
        AudioEvent::TtsStarted => Some(UiCommandView::SetSpeaking(true)),
        AudioEvent::TtsFinished => Some(UiCommandView::SetSpeaking(false)),
        AudioEvent::TranscriptPartial(_) => None,
    }
}

/// The views of `messages`.
pub open spec fn message_views(messages: Seq<Message>) -> Seq<MessageView> {
    Seq::new(messages.len(), |i: int| messages[i]@)
}

/// The history after `message` was said: the message comes last, and the
/// oldest message leaves if there would be more than `MAX_HISTORY_LENGTH`.
pub open spec fn history_after(history: Seq<MessageView>, message: MessageView) -> Seq<
    MessageView,
> {
    let grown = history.push(message);
    if grown.len() > MAX_HISTORY_LENGTH {
        grown.drop_first()
    } else {
        grown
    }
}

/// The last messages of a conversation, oldest first.
pub struct ChatHistory {
    messages: Vec<Message>,
}

impl View for ChatHistory {
    type V = Seq<MessageView>;

    closed spec fn view(&self) -> Seq<MessageView> {
        message_views(self.messages@)
    }
}

impl ChatHistory {
    #[verifier::type_invariant]
    spec fn well_formed(&self) -> bool {
        self.messages@.len() <= MAX_HISTORY_LENGTH
    }

    /// A history without messages.
    pub fn new() -> (history: Self)
        ensures
            history@ == Seq::<MessageView>::empty(),
    {
        let history = ChatHistory { messages: Vec::new() };
        assert(history@ =~= Seq::<MessageView>::empty());
        history
    }

    /// Number of messages kept; never more than `MAX_HISTORY_LENGTH`.
    pub fn len(&self) -> (n: usize)
        ensures
            n == self@.len(),
            n <= MAX_HISTORY_LENGTH,
    {
        proof {
            use_type_invariant(self);
        }
        self.messages.len()
    }

    /// Adds `message` as the newest one.
    pub fn push(&mut self, message: Message)
        ensures
            final(self)@ == history_after(old(self)@, message@),
            final(self)@.len() <= MAX_HISTORY_LENGTH,
            final(self)@.last() == message@,
    {
        proof {
            use_type_invariant(&*self);
        }
        let mut messages: Vec<Message> = Vec::new();
        std::mem::swap(&mut self.messages, &mut messages);
        let ghost before = messages@;
        messages.push(message);
        assert(message_views(messages@) =~= message_views(before).push(message@));
        if messages.len() > MAX_HISTORY_LENGTH {
            let ghost grown = messages@;
            messages.remove(0);
            assert(message_views(messages@) =~= message_views(grown).drop_first());
        }
        self.messages = messages;
    }

    /// The messages to send to the model: `system_prompt` as a system
    /// message, then the history, oldest first.
    pub fn with_system_prompt(&self, system_prompt: &str) -> (messages: Vec<Message>)
        ensures
            message_views(messages@) == seq![
                MessageView { role: "system"@, content: system_prompt@ },
            ] + self@,
    {
        let mut messages: Vec<Message> = Vec::new();
        messages.push(Message::system(system_prompt));
        let n = self.messages.len();
        let mut i: usize = 0;
        assert(message_views(messages@) =~= seq![
            MessageView { role: "system"@, content: system_prompt@ },
        ] + self@.take(0));
        while i < n
            invariant
                i <= n,
                n == self.messages.len(),
                message_views(messages@) == seq![
                    MessageView { role: "system"@, content: system_prompt@ },
                ] + self@.take(i as int),
            decreases n - i,
        {
            let ghost before = messages@;
            messages.push(self.messages[i].clone());
            assert(message_views(messages@) =~= message_views(before).push(self.messages@[i as int]@));
            assert(self@.take(i + 1) =~= self@.take(i as int).push(self.messages@[i as int]@));
            i += 1;
        }
        assert(self@.take(n as int) =~= self@);
        messages
    }
}

/// The state of the running assistant.
pub struct AppState {
    pub config: Config,
    pub profiles: ProfileManager,
    pub chat_history: ChatHistory,
    pub visible: bool,
}

impl AppState {
    /// The state at start: the profiles of `config`, no conversation, and the
    /// window hidden.
    pub fn new(config: Config) -> (state: Self)
        ensures
            state.config == config,
            state.profiles.active@ == config.general.active_profile@,
            state.profiles.profiles@ == config.profiles@.map_values(
                |stored: crate::config::ProfileConfig| crate::profiles::voice_profile_of(stored),
            ),
            state.chat_history@ == Seq::<MessageView>::empty(),
            !state.visible,
    {
        let profiles = ProfileManager::from_config(&config);
        AppState { config, profiles, chat_history: ChatHistory::new(), visible: false }
    }

    /// Shows the window if it is hidden and hides it if it is shown, and
    /// returns the command that does so.
    pub fn toggle_visibility(&mut self) -> (command: UiCommand)
        ensures
            final(self).visible == !old(self).visible,
            final(self).config == old(self).config,
            final(self).profiles == old(self).profiles,
            final(self).chat_history == old(self).chat_history,
            command@ == if old(self).visible {
                UiCommandView::Hide
            } else {
                UiCommandView::Show
            },
    {
        self.visible = !self.visible;
        if self.visible {
            UiCommand::Show
        } else {
            UiCommand::Hide
        }
    }

    /// Whether the window is shown.
    pub fn is_visible(&self) -> (visible: bool)
        ensures
            visible == self.visible,
    {
        self.visible
    }

    /// The command for the window that `event` gives rise to, if any.
    pub fn handle_audio_event(&self, event: &AudioEvent) -> (command: Option<UiCommand>)
        ensures
            command is Some <==> command_for(*event) is Some,
            command is Some ==> command->0@ == command_for(*event)->0,
    {
        match event {
            AudioEvent::SpeechStart => Some(UiCommand::SetListening(true)),
            AudioEvent::SpeechEnd => Some(UiCommand::SetListening(false)),
            AudioEvent::TranscriptFinal(text) => Some(
                UiCommand::AppendMessage(Message::user(text.as_str())),
            ),
            AudioEvent::TtsStarted => Some(UiCommand::SetSpeaking(true)),
            AudioEvent::TtsFinished => Some(UiCommand::SetSpeaking(false)),
            AudioEvent::TranscriptPartial(_) => None,
        }
    }

    /// Records what the user said and returns the messages to send to the
    /// model: the instructions of the active profile's personality, then the
    /// history including the new message. Without an active profile nothing
    /// is sent, but the message is recorded all the same.
    pub fn process_user_message(&mut self, text: &str) -> (result: Result<
        Vec<Message>,
        ProfileError,
    >)
        ensures
            final(self).visible == old(self).visible,
            final(self).config == old(self).config,
            final(self).profiles == old(self).profiles,
            final(self).chat_history@ == history_after(
                old(self).chat_history@,
                MessageView { role: "user"@, content: text@ },
            ),
            result is Ok <==> old(self).profiles.profiles@.contains_key(old(self).profiles.active@),
            result is Err ==> result->Err_0 == ProfileError::ActiveNotFound,
            result is Ok ==> message_views(result->Ok_0@) == seq![
                MessageView {
                    role: "system"@,
                    content: crate::profiles::system_prompt_for(
                        old(self).profiles.profiles@[old(self).profiles.active@].personality@,
                    ),
                },
            ] + final(self).chat_history@,
    {
        self.chat_history.push(Message::user(text));
        let system_prompt = match self.profiles.active_profile() {
            Ok(profile) => self.profiles.get_system_prompt(profile),
            Err(e) => {
                return Err(e);
            },
        };
        Ok(self.chat_history.with_system_prompt(system_prompt.as_str()))
    }

    /// Records the reply of the model and says whether it is to be spoken:
    /// when the active profile has speech enabled and the reply is not empty.
    pub fn record_reply(&mut self, reply: &str) -> (result: Result<bool, ProfileError>)
        ensures
            final(self).visible == old(self).visible,
            final(self).config == old(self).config,
            final(self).profiles == old(self).profiles,
            final(self).chat_history@ == history_after(
                old(self).chat_history@,
                MessageView { role: "assistant"@, content: reply@ },
            ),
            result is Ok <==> old(self).profiles.profiles@.contains_key(old(self).profiles.active@),
            result is Err ==> result->Err_0 == ProfileError::ActiveNotFound,
            result is Ok ==> result->Ok_0 == (old(self).profiles.profiles@[old(
                self,
            ).profiles.active@].tts_enabled && reply@.len() > 0),
    {
        self.chat_history.push(Message::assistant(reply));
        match self.profiles.active_profile() {
            Ok(profile) => Ok(profile.tts_enabled && !reply.is_empty()),
            Err(e) => Err(e),
        }
    }

    /// Makes the profile `name` the active one and returns the command that
    /// tells the window. A name without a profile is refused and changes
    /// nothing.
    pub fn switch_profile(&mut self, name: &str) -> (result: Result<UiCommand, ProfileError>)
        ensures
            final(self).visible == old(self).visible,
            final(self).config == old(self).config,
            final(self).chat_history == old(self).chat_history,
            final(self).profiles.profiles == old(self).profiles.profiles,
            result is Ok <==> old(self).profiles.profiles@.contains_key(name@),
            result is Ok ==> final(self).profiles.active@ == name@ && result->Ok_0@
                == UiCommandView::SwitchProfile(name@),
            result is Err ==> final(self).profiles.active == old(self).profiles.active
                && result->Err_0 == ProfileError::NotFound,
    {
        match self.profiles.switch_profile(name) {
            Ok(_) => Ok(UiCommand::SwitchProfile(String::from_str(name))),
            Err(e) => Err(e),
        }
    }
}

/// The history never grows beyond its limit, and what was said last is
/// always its newest message.
pub proof fn lemma_history_bounded(history: Seq<MessageView>, message: MessageView)
    requires
        history.len() <= MAX_HISTORY_LENGTH,
    ensures
        history_after(history, message).len() <= MAX_HISTORY_LENGTH,
        history_after(history, message).last() == message,
        history.len() < MAX_HISTORY_LENGTH ==> history_after(history, message) == history.push(
            message,
        ),
        history.len() == MAX_HISTORY_LENGTH ==> history_after(history, message)
            == history.drop_first().push(message),
{
    if history.len() == MAX_HISTORY_LENGTH {
        assert(history.push(message).drop_first() =~= history.drop_first().push(message));
    }
}

} // verus!
