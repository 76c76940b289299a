//! First-run setup: how typed answers are read, and what the answers do to
//! the settings.

use crate::config::Config;
use crate::config::ProfileConfig;
use crate::config::ProfileView;
use crate::profiles::DEFAULT_PROFILE;
use crate::text::is_blank;
use crate::text::lemma_trimmed_empty_iff_blank;
use crate::text::parse_usize;
use crate::text::parsed_usize;
use crate::text::str_eq;
use crate::text::to_lowercase;
use crate::text::trim;
use crate::text::trimmed;
use crate::text::unicode_lowercase;
use vstd::prelude::*;
use vstd::string::StringExecFns;

verus! {

/// What a typed line means for a question that accepts only some answers.
#[derive(Debug, Clone, Copy, PartialEq, Eq, Structural)]
pub enum PromptReply<T> {
    /// The question is answered.
    Answer(T),
    /// The line is no valid answer: ask again.
    Retry,
}

/// The answer that a line gives to a free-text question: the trimmed line,
/// or nothing if the line is blank.
pub open spec fn string_answer(line: Seq<char>) -> Option<Seq<char>> {
    if is_blank(line) {
        None
    } else {
        Some(trimmed(line))
    }
}

/// Reads the answer to a free-text question.
pub fn prompt_string(line: &str) -> (answer: Option<String>)
    ensures
        answer is Some <==> string_answer(line@) is Some,
        answer is Some ==> answer->0@ == string_answer(line@)->0,
{
    proof {
        lemma_trimmed_empty_iff_blank(line@);
    }
    let input = trim(line);
    if input.is_empty() {
        None
    } else {
        Some(String::from_str(input))
    }
}

/// The answer that a line gives to a question for a number from `min` to
/// `max`: the default for a blank line, the number if the trimmed line
/// writes one in range, and otherwise none, so that the question is asked
/// again.
pub open spec fn number_answer(line: Seq<char>, default: Option<usize>, min: usize, max: usize)
    -> PromptReply<Option<usize>> {
    if is_blank(line) {
        PromptReply::Answer(default)
    } else {
        match parsed_usize(trimmed(line)) {
            Some(n) => if min <= n <= max {
                PromptReply::Answer(Some(n))
            } else {
                PromptReply::Retry
            },
            None => PromptReply::Retry,
        }
    }
}

/// Reads the answer to a question for a number from `min` to `max`.
pub fn prompt_number(line: &str, default: Option<usize>, min: usize, max: usize) -> (reply:
    PromptReply<Option<usize>>)
    ensures
        reply == number_answer(line@, default, min, max),
{
    proof {
        lemma_trimmed_empty_iff_blank(line@);
    }
    let input = trim(line);
    if input.is_empty() {
        return PromptReply::Answer(default);
    }
    match parse_usize(input) {
        Some(n) => {
            if n >= min && n <= max {
                PromptReply::Answer(Some(n))
            } else {
                PromptReply::Retry
            }
        },
        None => PromptReply::Retry,
    }
}

/// The answer that a trimmed line in lowercase gives to a yes-or-no
/// question: the default for an empty line, yes for `y` and `yes`, no for
/// `n` and `no`, and otherwise none.
pub open spec fn yes_no_answer(lower: Seq<char>, default: bool) -> PromptReply<bool> {
    if lower.len() == 0 {
        PromptReply::Answer(default)
    } else if lower == "y"@ || lower == "yes"@ {
        PromptReply::Answer(true)
    } else if lower == "n"@ || lower == "no"@ {
        PromptReply::Answer(false)
    } else {
        PromptReply::Retry
    }
}

/// Reads the answer to a yes-or-no question from a line that is trimmed and
/// in lowercase.
pub fn yes_no_from_lowercase(lower: &str, default: bool) -> (reply: PromptReply<bool>)
    ensures
        reply == yes_no_answer(lower@, default),
{
    if lower.is_empty() {
        PromptReply::Answer(default)
    } else if str_eq(lower, "y") || str_eq(lower, "yes") {
        PromptReply::Answer(true)
    } else if str_eq(lower, "n") || str_eq(lower, "no") {
        PromptReply::Answer(false)
    } else {
        PromptReply::Retry
    }
}

/// Reads the answer to a yes-or-no question, whatever the case of the line.
pub fn prompt_yes_no(line: &str, default: bool) -> (reply: PromptReply<bool>)
    ensures
        reply == yes_no_answer(unicode_lowercase(trimmed(line@)), default),
{
    let lower = to_lowercase(trim(line));
    yes_no_from_lowercase(lower.as_str(), default)
}

/// The personality behind a choice from the menu: 2 is sassy, 3 technical,
/// 4 concise, and everything else helpful.
pub open spec fn personality_for(choice: usize) -> Seq<char> {
    if choice == 2 {
        "sassy"@
    } else if choice == 3 {
        "technical"@
    } else if choice == 4 {
        "concise"@
    } else {
        "helpful"@
    }
}

/// The personality behind a choice from the menu.
pub fn personality_name(choice: usize) -> (name: &'static str)
    ensures
        name@ == personality_for(choice),
{
    if choice == 2 {
        "sassy"
    } else if choice == 3 {
        "technical"
    } else if choice == 4 {
        "concise"
    } else {
        "helpful"
    }
}

/// What the user answered during setup. `None` stands for a question that
/// was not asked or not answered.
#[derive(Debug)]
pub struct SetupAnswers {
    /// The model to use.
    pub model: Option<String>,
    /// The choice from the menu of personalities.
    pub personality: Option<usize>,
    /// The global hotkey.
    pub hotkey: Option<String>,
    /// Whether the assistant listens and speaks.
    pub enable_voice: bool,
    /// The aggressiveness of voice-activity detection; asked only with voice
    /// enabled.
    pub vad_level: Option<u8>,
    /// Where the avatar image lies.
    pub avatar_path: Option<String>,
}

/// The answers with their texts as sequences of characters.
pub struct AnswersView {
    pub model: Option<Seq<char>>,
    pub personality: Option<usize>,
    pub hotkey: Option<Seq<char>>,
    pub enable_voice: bool,
    pub vad_level: Option<u8>,
    pub avatar_path: Option<Seq<char>>,
}

impl View for SetupAnswers {
    type V = AnswersView;

    open spec fn view(&self) -> AnswersView {
        AnswersView {
            model: match self.model {
                Some(model) => Some(model@),
                None => None,
            },
            personality: self.personality,
            hotkey: match self.hotkey {
                Some(hotkey) => Some(hotkey@),
                None => None,
            },
            enable_voice: self.enable_voice,
            vad_level: self.vad_level,
            avatar_path: match self.avatar_path {
                Some(path) => Some(path@),
                None => None,
            },
        }
    }
}

/// The default profile after setup: the answers that were given replace what
/// it held, and speech is on exactly when voice was enabled.
pub open spec fn profile_after_setup(before: ProfileView, answers: AnswersView) -> ProfileView {
    ProfileView {
        model: match answers.model {
            Some(model) => model,
            None => before.model,
        },
        personality: match answers.personality {
            Some(choice) => personality_for(choice),
            None => before.personality,
        },
        avatar_path: match answers.avatar_path {
            Some(path) => path,
            None => before.avatar_path,
        },
        tts_enabled: answers.enable_voice,
        ..before
    }
}

/// Whether `after` is `before` with the answers written into it: the first
/// run is marked complete, a hotkey that was given replaces the old one, a
/// detection level is taken only with voice enabled, and of the profiles only
/// the one stored under `default` changes.
pub open spec fn setup_applied(before: Config, after: Config, answers: AnswersView) -> bool {
    &&& after.general.first_run_complete
    &&& after.general.ollama_url == before.general.ollama_url
    &&& after.general.active_profile == before.general.active_profile
    &&& after.general.hotkey@ == match answers.hotkey {
        Some(hotkey) => hotkey,
        None => before.general.hotkey@,
    }
    &&& after.audio.vad_aggressiveness == if answers.enable_voice && answers.vad_level is Some {
        answers.vad_level->0
    } else {
        before.audio.vad_aggressiveness
    }
    &&& after.audio.stt_model == before.audio.stt_model
    &&& after.audio.vad_enabled == before.audio.vad_enabled
    &&& after.audio.sample_rate == before.audio.sample_rate
    &&& after.audio.push_to_talk == before.audio.push_to_talk
    &&& after.audio.silence_duration_ms == before.audio.silence_duration_ms
    &&& after.pipewire == before.pipewire
    &&& after.profiles@.dom() == before.profiles@.dom()
    &&& forall|name: Seq<char>|
        name != DEFAULT_PROFILE@ && before.profiles@.contains_key(name) ==> after.profiles@[name]
            == before.profiles@[name]
    &&& after.profiles@[DEFAULT_PROFILE@]@ == profile_after_setup(
        before.profiles@[DEFAULT_PROFILE@]@,
        answers,
    )
}

/// Writes the answers into the settings and marks the first run as
/// complete. Only the profile stored under `default` changes, and it must
/// exist.
pub fn run_interactive_setup(config: &mut Config, answers: SetupAnswers)
    requires
        old(config).profiles@.contains_key(DEFAULT_PROFILE@),
    ensures
        setup_applied(*old(config), *final(config), answers@),
{
    let mut profile: ProfileConfig = match config.profiles.get(DEFAULT_PROFILE) {
        Some(profile) => profile.clone(),
        None => {
            return ;
        },
    };
    match answers.model {
        Some(model) => {
            profile.model = model;
        },
        None => {},
    }
    match answers.personality {
        Some(choice) => {
            profile.personality = String::from_str(personality_name(choice));
        },
        None => {},
    }
    match answers.hotkey {
        Some(hotkey) => {
            config.general.hotkey = hotkey;
        },
        None => {},
    }
    if answers.enable_voice {
        match answers.vad_level {
            Some(level) => {
                config.audio.vad_aggressiveness = level;
            },
            None => {},
        }
    }
    profile.tts_enabled = answers.enable_voice;
    match answers.avatar_path {
        Some(path) => {
            profile.avatar_path = path;
        },
        None => {},
    }
    config.general.first_run_complete = true;
    config.profiles.insert(String::from_str(DEFAULT_PROFILE), profile);
    assert(config.profiles@.dom() =~= old(config).profiles@.dom());
}

/// The lines typed during setup, one for each question, in the order in
/// which the questions are asked. The line for the model is read only when
/// models are on offer, and the line for the detection level only when voice
/// was enabled.
#[derive(Debug)]
pub struct SetupLines {
    pub model: String,
    pub personality: String,
    pub hotkey: String,
    pub voice: String,
    pub vad_level: String,
    pub avatar_path: String,
}

/// A question of the setup that accepts only some answers.
#[derive(Debug, Clone, Copy, PartialEq, Eq, Structural)]
pub enum SetupQuestion {
    Model,
    Personality,
    Voice,
    VadLevel,
}

/// What the typed lines answer, or the first question whose line is no valid
/// answer.
///
/// With models on offer, the model is the one chosen by its number in the
/// list, the first if the line is blank; without, none is chosen. The
/// personality is a number from 1 to 4, 1 if the line is blank. Voice is on
/// unless the line says no. The detection level is a number from 0 to 3, 2 if
/// the line is blank, and is read only with voice on. Hotkey and avatar are
/// free text, and not answered by a blank line.
pub open spec fn setup_answers(models: Seq<String>, lines: SetupLines) -> Result<
    AnswersView,
    SetupQuestion,
> {
    let model = if models.len() > 0 {
        number_answer(lines.model@, Some(1), 1, models.len() as usize)
    } else {
        PromptReply::Answer(None)
    };
    let personality = number_answer(lines.personality@, Some(1), 1, 4);
    let voice = yes_no_answer(unicode_lowercase(trimmed(lines.voice@)), true);
    let vad_level = if voice == PromptReply::Answer(true) {
        number_answer(lines.vad_level@, Some(2), 0, 3)
    } else {
        PromptReply::Answer(None)
    };
    if model is Retry {
        Err(SetupQuestion::Model)
    } else if personality is Retry {
        Err(SetupQuestion::Personality)
    } else if voice is Retry {
        Err(SetupQuestion::Voice)
    } else if vad_level is Retry {
        Err(SetupQuestion::VadLevel)
    } else {
        Ok(
            AnswersView {
                model: match model->Answer_0 {
                    Some(choice) => Some(models[choice - 1]@),
                    None => None,
                },
                personality: personality->Answer_0,
                hotkey: string_answer(lines.hotkey@),
                enable_voice: voice->Answer_0,
                vad_level: match vad_level->Answer_0 {
                    Some(level) => Some(level as u8),
                    None => None,
                },
                avatar_path: string_answer(lines.avatar_path@),
            },
        )
    }
}

/// Answers read from typed lines stay in their ranges: the personality is a
/// choice from 1 to 4, a model is chosen exactly when models are on offer and
/// is then one of them, and a detection level is given exactly with voice on
/// and is then at most 3.
pub proof fn lemma_setup_answers_in_range(models: Seq<String>, lines: SetupLines)
    requires
        setup_answers(models, lines) is Ok,
        models.len() <= usize::MAX,
    ensures
        ({
            let answers = setup_answers(models, lines)->Ok_0;
            &&& answers.personality is Some
            &&& 1 <= answers.personality->0 <= 4
            &&& answers.vad_level is Some <==> answers.enable_voice
            &&& answers.vad_level is Some ==> answers.vad_level->0 <= 3
            &&& answers.model is Some <==> models.len() > 0
            &&& answers.model is Some ==> exists|i: int|
                0 <= i < models.len() && answers.model->0 == (#[trigger] models[i])@
        }),
{
    let answers = setup_answers(models, lines)->Ok_0;
    if models.len() > 0 {
        let model = number_answer(lines.model@, Some(1), 1, models.len() as usize);
        let choice = model->Answer_0->0;
        assert(1 <= choice <= models.len());
        assert(answers.model->0 == models[choice - 1]@);
    }
}

/// Reads the answers from the typed lines, as `setup_answers` says.
pub fn read_answers(models: &Vec<String>, lines: &SetupLines) -> (result: Result<
    SetupAnswers,
    SetupQuestion,
>)
    ensures
        match setup_answers(models@, *lines) {
            Ok(answers) => result is Ok && result->Ok_0@ == answers,
            Err(question) => result == Err::<SetupAnswers, SetupQuestion>(question),
        },
{
    let model = if models.len() > 0 {
        match prompt_number(lines.model.as_str(), Some(1), 1, models.len()) {
            PromptReply::Answer(Some(choice)) => Some(models[choice - 1].clone()),
            PromptReply::Answer(None) => None,
            PromptReply::Retry => {
                return Err(SetupQuestion::Model);
            },
        }
    } else {
        None
    };
    let personality = match prompt_number(lines.personality.as_str(), Some(1), 1, 4) {
        PromptReply::Answer(choice) => choice,
        PromptReply::Retry => {
            return Err(SetupQuestion::Personality);
        },
    };
    let enable_voice = match prompt_yes_no(lines.voice.as_str(), true) {
        PromptReply::Answer(enabled) => enabled,
        PromptReply::Retry => {
            return Err(SetupQuestion::Voice);
        },
    };
    let vad_level = if enable_voice {
        match prompt_number(lines.vad_level.as_str(), Some(2), 0, 3) {
            PromptReply::Answer(Some(level)) => Some(level as u8),
            PromptReply::Answer(None) => None,
            PromptReply::Retry => {
                return Err(SetupQuestion::VadLevel);
            },
        }
    } else {
        None
    };
    let hotkey = prompt_string(lines.hotkey.as_str());
    let avatar_path = prompt_string(lines.avatar_path.as_str());
    Ok(SetupAnswers { model, personality, hotkey, enable_voice, vad_level, avatar_path })
}

/// Whether `name` is one of the four personalities of the menu.
pub open spec fn is_menu_personality(name: Seq<char>) -> bool {
    name == "helpful"@ || name == "sassy"@ || name == "technical"@ || name == "concise"@
}

/// Runs the setup on the typed lines: reads the answers and writes them into
/// the settings. If a line is no valid answer, the question is named and the
/// settings stay as they were.
///
/// After a setup that went through, the first run is complete, speech of the
/// default profile is on exactly when voice was enabled, its personality is
/// one of the menu, its model is one of those on offer if any were, and with
/// voice enabled the detection level is at most 3.
pub fn setup_from_lines(config: &mut Config, models: &Vec<String>, lines: &SetupLines) -> (result:
    Result<(), SetupQuestion>)
    requires
        old(config).profiles@.contains_key(DEFAULT_PROFILE@),
    ensures
        match setup_answers(models@, *lines) {
            Ok(answers) => result is Ok && setup_applied(*old(config), *final(config), answers),
            Err(question) => result == Err::<(), SetupQuestion>(question) && *final(config)
                == *old(config),
        },
        result is Ok ==> final(config).general.first_run_complete,
        result is Ok ==> final(config).profiles@[DEFAULT_PROFILE@].tts_enabled == setup_answers(
            models@,
            *lines,
        )->Ok_0.enable_voice,
        result is Ok ==> is_menu_personality(
            final(config).profiles@[DEFAULT_PROFILE@].personality@,
        ),
        result is Ok && models@.len() > 0 ==> exists|i: int|
            0 <= i < models@.len() && final(config).profiles@[DEFAULT_PROFILE@].model@
                == (#[trigger] models@[i])@,
        result is Ok && models@.len() == 0 ==> final(config).profiles@[DEFAULT_PROFILE@].model@
            == old(config).profiles@[DEFAULT_PROFILE@].model@,
        result is Ok && final(config).profiles@[DEFAULT_PROFILE@].tts_enabled ==> final(config).audio.vad_aggressiveness <= 3,
{
    let answers = match read_answers(models, lines) {
        Ok(answers) => answers,
        Err(question) => {
            return Err(question);
        },
    };
    let offered = models.len();
    proof {
        assert(models@.len() == offered);
        lemma_setup_answers_in_range(models@, *lines);
    }
    run_interactive_setup(config, answers);
    Ok(())
}

} // verus!
