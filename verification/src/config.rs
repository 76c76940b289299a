//! The settings of the assistant and their defaults.

use crate::table::StringTable;
use vstd::prelude::*;
use vstd::string::StringExecFns;

verus! {

/// Directory of the assistant below the user's configuration and data
/// directories.
pub const APP_DIR_NAME: &'static str = "blipply-assistant";

/// Name of the settings file.
pub const CONFIG_FILE_NAME: &'static str = "config.toml";

/// A speed scale for synthesis, held as the bit pattern of a single-precision
/// number. The library carries it through and never computes with it.
#[derive(Debug, Clone, Copy, PartialEq, Eq, Structural)]
pub struct SpeedScale {
    pub bits: u32,
}

/// Bit pattern of the speed scale 1.0.
pub const NORMAL_SPEED_BITS: u32 = 0x3F80_0000;

/// Edge length of the default avatar in pixels.
pub const DEFAULT_AVATAR_SIZE_PX: u32 = 96;

impl SpeedScale {
    /// The scale 1.0: speech at the voice's own speed.
    pub fn normal() -> (scale: Self)
        ensures
            scale.bits == NORMAL_SPEED_BITS,
    {
        SpeedScale { bits: NORMAL_SPEED_BITS }
    }
}

/// General settings: the model server, the hotkey and the active profile.
#[derive(Debug)]
pub struct GeneralConfig {
    pub ollama_url: String,
    pub hotkey: String,
    pub first_run_complete: bool,
    pub active_profile: String,
}

/// Settings of capture and voice-activity detection.
#[derive(Debug)]
pub struct AudioConfig {
    pub stt_model: String,
    pub vad_enabled: bool,
    pub vad_aggressiveness: u8,
    pub sample_rate: u32,
    pub push_to_talk: bool,
    pub silence_duration_ms: u64,
}

/// The audio devices to use.
#[derive(Debug)]
pub struct PipewireConfig {
    pub input_device: String,
    pub output_device: String,
    pub buffer_size: u32,
}

/// A profile as it is stored in the settings.
#[derive(Debug)]
pub struct ProfileConfig {
    pub name: String,
    pub model: String,
    pub personality: String,
    pub avatar_path: String,
    pub avatar_size_px: u32,
    pub voice_model: String,
    pub tts_speed: SpeedScale,
    pub tts_enabled: bool,
}

/// A profile with its texts as sequences of characters.
pub struct ProfileView {
    pub name: Seq<char>,
    pub model: Seq<char>,
    pub personality: Seq<char>,
    pub avatar_path: Seq<char>,
    pub avatar_size_px: u32,
    pub voice_model: Seq<char>,
    pub tts_speed: SpeedScale,
    pub tts_enabled: bool,
}

/// The profile that a new installation and a profile made from scratch start
/// from, under the display name `name`.
pub open spec fn default_profile(name: Seq<char>) -> ProfileView {
    ProfileView {
        name,
        model: "llama3.2:3b"@,
        personality: "helpful"@,
        avatar_path: "/usr/share/blipply/clippy.gif"@,
        avatar_size_px: DEFAULT_AVATAR_SIZE_PX,
        voice_model: "en_US-lessac-medium"@,
        tts_speed: SpeedScale { bits: NORMAL_SPEED_BITS },
        tts_enabled: true,
    }
}

impl View for ProfileConfig {
    type V = ProfileView;

    open spec fn view(&self) -> ProfileView {
        ProfileView {
            name: self.name@,
            model: self.model@,
            personality: self.personality@,
            avatar_path: self.avatar_path@,
            avatar_size_px: self.avatar_size_px,
            voice_model: self.voice_model@,
            tts_speed: self.tts_speed,
            tts_enabled: self.tts_enabled,
        }
    }
}

impl Clone for GeneralConfig {
    fn clone(&self) -> (copy: Self)
        ensures
            copy == *self,
    {
        GeneralConfig {
            ollama_url: self.ollama_url.clone(),
            hotkey: self.hotkey.clone(),
            first_run_complete: self.first_run_complete,
            active_profile: self.active_profile.clone(),
        }
    }
}

impl Clone for AudioConfig {
    fn clone(&self) -> (copy: Self)
        ensures
            copy == *self,
    {
        AudioConfig {
            stt_model: self.stt_model.clone(),
            vad_enabled: self.vad_enabled,
            vad_aggressiveness: self.vad_aggressiveness,
            sample_rate: self.sample_rate,
            push_to_talk: self.push_to_talk,
            silence_duration_ms: self.silence_duration_ms,
        }
    }
}

impl Clone for PipewireConfig {
    fn clone(&self) -> (copy: Self)
        ensures
            copy == *self,
    {
        PipewireConfig {
            input_device: self.input_device.clone(),
            output_device: self.output_device.clone(),
            buffer_size: self.buffer_size,
        }
    }
}

impl Clone for ProfileConfig {
    fn clone(&self) -> (copy: Self)
        ensures
            copy == *self,
    {
        ProfileConfig {
            name: self.name.clone(),
            model: self.model.clone(),
            personality: self.personality.clone(),
            avatar_path: self.avatar_path.clone(),
            avatar_size_px: self.avatar_size_px,
            voice_model: self.voice_model.clone(),
            tts_speed: self.tts_speed,
            tts_enabled: self.tts_enabled,
        }
    }
}

impl ProfileConfig {
    /// The default profile under the display name `name`.
    pub fn with_defaults(name: String) -> (profile: Self)
        ensures
            profile@ == default_profile(name@),
    {
        ProfileConfig {
            name,
            model: String::from_str("llama3.2:3b"),
            personality: String::from_str("helpful"),
            avatar_path: String::from_str("/usr/share/blipply/clippy.gif"),
            avatar_size_px: DEFAULT_AVATAR_SIZE_PX,
            voice_model: String::from_str("en_US-lessac-medium"),
            tts_speed: SpeedScale::normal(),
            tts_enabled: true,
        }
    }
}

/// Why a lookup in the settings failed.
#[derive(Debug, Clone, Copy, PartialEq, Eq, Structural)]
pub enum ConfigError {
    /// No profile is stored under the name of the active profile.
    ActiveProfileNotFound,
}

/// All settings of the assistant.
pub struct Config {
    pub general: GeneralConfig,
    pub audio: AudioConfig,
    pub pipewire: PipewireConfig,
    pub profiles: StringTable<ProfileConfig>,
}

/// Whether `config` holds the settings of a new installation.
pub open spec fn is_default_config(config: Config) -> bool {
    &&& config.general.ollama_url@ == "http://127.0.0.1:11434"@
    &&& config.general.hotkey@ == "Super+Shift+A"@
    &&& !config.general.first_run_complete
    &&& config.general.active_profile@ == "default"@
    &&& config.audio.stt_model@ == "base.en"@
    &&& config.audio.vad_enabled
    &&& config.audio.vad_aggressiveness == 2
    &&& config.audio.sample_rate == 16000
    &&& !config.audio.push_to_talk
    &&& config.audio.silence_duration_ms == 1000
    &&& config.pipewire.input_device@ == "auto"@
    &&& config.pipewire.output_device@ == "auto"@
    &&& config.pipewire.buffer_size == 480
    &&& config.profiles@.dom() == set!["default"@]
    &&& config.profiles@["default"@]@ == default_profile("Blipply Classic"@)
}

impl Default for Config {
    /// The settings of a new installation: one profile, stored under
    /// `default` and active.
    fn default() -> (config: Self)
        ensures
            is_default_config(config),
    {
        let mut profiles: StringTable<ProfileConfig> = StringTable::new();
        profiles.insert(
            String::from_str("default"),
            ProfileConfig::with_defaults(String::from_str("Blipply Classic")),
        );
        assert(profiles@.dom() =~= set!["default"@]);
        Config {
            general: GeneralConfig {
                ollama_url: String::from_str("http://127.0.0.1:11434"),
                hotkey: String::from_str("Super+Shift+A"),
                first_run_complete: false,
                active_profile: String::from_str("default"),
            },
            audio: AudioConfig {
                stt_model: String::from_str("base.en"),
                vad_enabled: true,
                vad_aggressiveness: 2,
                sample_rate: 16000,
                push_to_talk: false,
                silence_duration_ms: 1000,
            },
            pipewire: PipewireConfig {
                input_device: String::from_str("auto"),
                output_device: String::from_str("auto"),
                buffer_size: 480,
            },
            profiles,
        }
    }
}

impl Config {
    /// Where the settings file lies below the user's configuration
    /// directory, one path component after the other.
    pub fn config_path() -> (path: Vec<String>)
        ensures
            path@.len() == 2,
            path@[0]@ == APP_DIR_NAME@,
            path@[1]@ == CONFIG_FILE_NAME@,
    {
        let mut path: Vec<String> = Vec::new();
        path.push(String::from_str(APP_DIR_NAME));
        path.push(String::from_str(CONFIG_FILE_NAME));
        path
    }

    /// Where the assistant's data lies below the user's data directory, one
    /// path component after the other.
    pub fn data_dir() -> (path: Vec<String>)
        ensures
            path@.len() == 1,
            path@[0]@ == APP_DIR_NAME@,
    {
        let mut path: Vec<String> = Vec::new();
        path.push(String::from_str(APP_DIR_NAME));
        path
    }

    /// The profile stored under the name of the active profile.
    pub fn active_profile(&self) -> (result: Result<&ProfileConfig, ConfigError>)
        ensures
            result is Ok <==> self.profiles@.contains_key(self.general.active_profile@),
            result is Ok ==> *result->Ok_0 == self.profiles@[self.general.active_profile@],
            result is Err ==> result->Err_0 == ConfigError::ActiveProfileNotFound,
    {
        match self.profiles.get(self.general.active_profile.as_str()) {
            Some(profile) => Ok(profile),
            None => Err(ConfigError::ActiveProfileNotFound),
        }
    }

    /// Where the transcription model lies below the user's data directory:
    /// `blipply-assistant/models/whisper/<stt_model>.bin`, one path component
    /// after the other.
    pub fn whisper_model_path(&self) -> (path: Vec<String>)
        ensures
            path@.len() == 4,
            path@[0]@ == APP_DIR_NAME@,
            path@[1]@ == "models"@,
            path@[2]@ == "whisper"@,
            path@[3]@ == self.audio.stt_model@ + ".bin"@,
    {
        let mut path = Self::data_dir();
        path.push(String::from_str("models"));
        path.push(String::from_str("whisper"));
        path.push(self.audio.stt_model.clone().concat(".bin"));
        path
    }

    /// Where the voice `voice` lies below the user's data directory:
    /// `blipply-assistant/models/piper/<voice>.onnx`, one path component after
    /// the other.
    pub fn piper_voice_path(&self, voice: &str) -> (path: Vec<String>)
        ensures
            path@.len() == 4,
            path@[0]@ == APP_DIR_NAME@,
            path@[1]@ == "models"@,
            path@[2]@ == "piper"@,
            path@[3]@ == voice@ + ".onnx"@,
    {
        let mut path = Self::data_dir();
        path.push(String::from_str("models"));
        path.push(String::from_str("piper"));
        path.push(String::from_str(voice).concat(".onnx"));
        path
    }
}

} // verus!
