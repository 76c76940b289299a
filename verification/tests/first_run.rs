use blipply_assistant::config::Config;
use blipply_assistant::first_run::personality_name;
use blipply_assistant::first_run::prompt_number;
use blipply_assistant::first_run::prompt_string;
use blipply_assistant::first_run::prompt_yes_no;
use blipply_assistant::first_run::read_answers;
use blipply_assistant::first_run::setup_from_lines;
use blipply_assistant::first_run::SetupLines;
use blipply_assistant::first_run::SetupQuestion;
use blipply_assistant::first_run::run_interactive_setup;
use blipply_assistant::first_run::yes_no_from_lowercase;
use blipply_assistant::first_run::PromptReply;
use blipply_assistant::first_run::SetupAnswers;

#[test]
fn test_prompt_parsing() {
    // These would need proper input mocking to test
    assert!(true);
}

#[test]
fn free_text_answers() {
    assert_eq!(prompt_string("Super+Alt+X\n"), Some("Super+Alt+X".to_string()));
    assert_eq!(prompt_string("  /home/me/cat.gif  "), Some("/home/me/cat.gif".to_string()));
    assert_eq!(prompt_string("\n"), None);
    assert_eq!(prompt_string(""), None);
    assert_eq!(prompt_string(" \t \r\n"), None);
}

#[test]
fn number_answers() {
    assert_eq!(prompt_number("3\n", Some(1), 1, 4), PromptReply::Answer(Some(3)));
    assert_eq!(prompt_number(" 1 ", Some(2), 1, 4), PromptReply::Answer(Some(1)));
    assert_eq!(prompt_number("4", None, 1, 4), PromptReply::Answer(Some(4)));
    assert_eq!(prompt_number("+2", Some(1), 1, 4), PromptReply::Answer(Some(2)));
    assert_eq!(prompt_number("\n", Some(1), 1, 4), PromptReply::Answer(Some(1)));
    assert_eq!(prompt_number("", None, 1, 4), PromptReply::Answer(None));
    // The default is not held to the range.
    assert_eq!(prompt_number(" ", Some(9), 1, 4), PromptReply::Answer(Some(9)));
    assert_eq!(prompt_number("0", Some(1), 1, 4), PromptReply::Retry);
    assert_eq!(prompt_number("5", Some(1), 1, 4), PromptReply::Retry);
    assert_eq!(prompt_number("-1", Some(1), 0, 4), PromptReply::Retry);
    assert_eq!(prompt_number("two", Some(1), 1, 4), PromptReply::Retry);
    assert_eq!(prompt_number("1 2", Some(1), 1, 4), PromptReply::Retry);
    assert_eq!(prompt_number("99999999999999999999999", Some(1), 1, 4), PromptReply::Retry);
    assert_eq!(prompt_number("0", Some(2), 0, 3), PromptReply::Answer(Some(0)));
    assert_eq!(prompt_number("3", Some(2), 5, 1), PromptReply::Retry);
}

#[test]
fn yes_no_answers() {
    assert_eq!(prompt_yes_no("y\n", false), PromptReply::Answer(true));
    assert_eq!(prompt_yes_no(" YES ", false), PromptReply::Answer(true));
    assert_eq!(prompt_yes_no("Yes", false), PromptReply::Answer(true));
    assert_eq!(prompt_yes_no("n", true), PromptReply::Answer(false));
    assert_eq!(prompt_yes_no("No\n", true), PromptReply::Answer(false));
    assert_eq!(prompt_yes_no("\n", true), PromptReply::Answer(true));
    assert_eq!(prompt_yes_no("", false), PromptReply::Answer(false));
    assert_eq!(prompt_yes_no("maybe", true), PromptReply::Retry);
    assert_eq!(prompt_yes_no("yess", true), PromptReply::Retry);
    assert_eq!(prompt_yes_no("y e s", true), PromptReply::Retry);
    assert_eq!(yes_no_from_lowercase("Y", true), PromptReply::Retry);
    assert_eq!(yes_no_from_lowercase("yes", false), PromptReply::Answer(true));
    assert_eq!(yes_no_from_lowercase("no", true), PromptReply::Answer(false));
}

#[test]
fn personalities_of_the_menu() {
    assert_eq!(personality_name(1), "helpful");
    assert_eq!(personality_name(2), "sassy");
    assert_eq!(personality_name(3), "technical");
    assert_eq!(personality_name(4), "concise");
    assert_eq!(personality_name(0), "helpful");
    assert_eq!(personality_name(5), "helpful");
}

#[test]
fn setup_with_every_answer() {
    let mut config = Config::default();
    let answers = SetupAnswers {
        model: Some("mistral:7b".to_string()),
        personality: Some(3),
        hotkey: Some("Ctrl+Alt+B".to_string()),
        enable_voice: true,
        vad_level: Some(1),
        avatar_path: Some("/tmp/owl.png".to_string()),
    };
    run_interactive_setup(&mut config, answers);
    assert!(config.general.first_run_complete);
    assert_eq!(config.general.hotkey, "Ctrl+Alt+B");
    assert_eq!(config.general.active_profile, "default");
    assert_eq!(config.audio.vad_aggressiveness, 1);
    assert_eq!(config.profiles.len(), 1);
    let profile = config.active_profile().unwrap();
    assert_eq!(profile.model, "mistral:7b");
    assert_eq!(profile.personality, "technical");
    assert_eq!(profile.avatar_path, "/tmp/owl.png");
    assert!(profile.tts_enabled);
    assert_eq!(profile.name, "Blipply Classic");
    assert_eq!(profile.voice_model, "en_US-lessac-medium");
}

#[test]
fn setup_without_answers_and_without_voice() {
    let mut config = Config::default();
    config.profiles.insert(
        "other".to_string(),
        blipply_assistant::config::ProfileConfig::with_defaults("Other".to_string()),
    );
    let answers = SetupAnswers {
        model: None,
        personality: None,
        hotkey: None,
        enable_voice: false,
        vad_level: Some(3),
        avatar_path: None,
    };
    run_interactive_setup(&mut config, answers);
    assert!(config.general.first_run_complete);
    assert_eq!(config.general.hotkey, "Super+Shift+A");
    // The level is only taken with voice enabled.
    assert_eq!(config.audio.vad_aggressiveness, 2);
    let profile = config.active_profile().unwrap();
    assert_eq!(profile.model, "llama3.2:3b");
    assert_eq!(profile.personality, "helpful");
    assert_eq!(profile.avatar_path, "/usr/share/blipply/clippy.gif");
    assert!(!profile.tts_enabled);
    assert!(config.profiles.get("other").unwrap().tts_enabled);
    assert_eq!(config.profiles.len(), 2);
}

fn lines(model: &str, personality: &str, hotkey: &str, voice: &str, vad: &str, avatar: &str) -> SetupLines {
    SetupLines {
        model: model.to_string(),
        personality: personality.to_string(),
        hotkey: hotkey.to_string(),
        voice: voice.to_string(),
        vad_level: vad.to_string(),
        avatar_path: avatar.to_string(),
    }
}

fn offered() -> Vec<String> {
    vec!["llama3.2:3b".to_string(), "mistral:7b".to_string(), "qwen2:1.5b".to_string()]
}

#[test]
fn answers_are_read_from_the_lines() {
    let answers =
        read_answers(&offered(), &lines("2\n", " 4 \n", "Ctrl+B\n", "Y\n", "0\n", " /a.png \n"))
            .unwrap();
    assert_eq!(answers.model, Some("mistral:7b".to_string()));
    assert_eq!(answers.personality, Some(4));
    assert_eq!(answers.hotkey, Some("Ctrl+B".to_string()));
    assert!(answers.enable_voice);
    assert_eq!(answers.vad_level, Some(0));
    assert_eq!(answers.avatar_path, Some("/a.png".to_string()));
}

#[test]
fn blank_lines_take_the_defaults() {
    let answers = read_answers(&offered(), &lines("\n", "\n", "\n", "\n", "\n", "\n")).unwrap();
    assert_eq!(answers.model, Some("llama3.2:3b".to_string()));
    assert_eq!(answers.personality, Some(1));
    assert_eq!(answers.hotkey, None);
    assert!(answers.enable_voice);
    assert_eq!(answers.vad_level, Some(2));
    assert_eq!(answers.avatar_path, None);
}

#[test]
fn lines_of_questions_not_asked_are_not_read() {
    // No models on offer: the model line is not read. Voice off: the level
    // line is not read.
    let answers = read_answers(&Vec::new(), &lines("seven", "3", "", "no", "ninety", "")).unwrap();
    assert_eq!(answers.model, None);
    assert_eq!(answers.personality, Some(3));
    assert!(!answers.enable_voice);
    assert_eq!(answers.vad_level, None);
}

#[test]
fn first_bad_line_names_its_question() {
    let models = offered();
    assert_eq!(read_answers(&models, &lines("4", "9", "", "x", "7", "")).err(), Some(SetupQuestion::Model));
    assert_eq!(read_answers(&models, &lines("0", "1", "", "y", "1", "")).err(), Some(SetupQuestion::Model));
    assert_eq!(
        read_answers(&models, &lines("3", "5", "", "x", "7", "")).err(),
        Some(SetupQuestion::Personality)
    );
    assert_eq!(read_answers(&models, &lines("3", "4", "", "x", "7", "")).err(), Some(SetupQuestion::Voice));
    assert_eq!(
        read_answers(&models, &lines("3", "4", "", "yes", "4", "")).err(),
        Some(SetupQuestion::VadLevel)
    );
    assert!(read_answers(&models, &lines("3", "4", "", "yes", "3", "")).is_ok());
}

#[test]
fn setup_from_typed_lines() {
    let mut config = Config::default();
    let models = offered();
    assert_eq!(
        setup_from_lines(&mut config, &models, &lines("3", "2", " Alt+X ", "YES", "3", "")),
        Ok(())
    );
    assert!(config.general.first_run_complete);
    assert_eq!(config.general.hotkey, "Alt+X");
    assert_eq!(config.audio.vad_aggressiveness, 3);
    let profile = config.active_profile().unwrap();
    assert_eq!(profile.model, "qwen2:1.5b");
    assert_eq!(profile.personality, "sassy");
    assert!(profile.tts_enabled);
    assert_eq!(profile.avatar_path, "/usr/share/blipply/clippy.gif");

    let mut quiet = Config::default();
    assert_eq!(setup_from_lines(&mut quiet, &Vec::new(), &lines("", "", "", "n", "", "")), Ok(()));
    assert!(quiet.general.first_run_complete);
    assert_eq!(quiet.audio.vad_aggressiveness, 2);
    let profile = quiet.active_profile().unwrap();
    assert_eq!(profile.model, "llama3.2:3b");
    assert_eq!(profile.personality, "helpful");
    assert!(!profile.tts_enabled);
}

#[test]
fn setup_refused_changes_nothing() {
    let mut config = Config::default();
    assert_eq!(
        setup_from_lines(&mut config, &offered(), &lines("1", "1", "Alt+X", "y", "four", "/x")),
        Err(SetupQuestion::VadLevel)
    );
    assert!(!config.general.first_run_complete);
    assert_eq!(config.general.hotkey, "Super+Shift+A");
    assert_eq!(config.audio.vad_aggressiveness, 2);
    assert_eq!(config.active_profile().unwrap().avatar_path, "/usr/share/blipply/clippy.gif");
}
