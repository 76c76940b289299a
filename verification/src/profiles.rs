//! Voice profiles and the rules for creating, switching and deleting them.

use crate::config::default_profile;
use crate::config::Config;
use crate::config::ProfileConfig;
use crate::config::ProfileView;
use crate::config::SpeedScale;
use crate::table::lemma_table_prefix;
use crate::table::lemma_table_push;
use crate::table::table_of;
use crate::table::StringTable;
use crate::text::str_eq;
use vstd::prelude::*;
use vstd::std_specs::convert::FromSpecImpl;
use vstd::string::StringExecFns;

verus! {

/// Name of the profile that can never be deleted.
pub const DEFAULT_PROFILE: &'static str = "default";

/// A profile as the running assistant uses it.
#[derive(Debug)]
pub struct VoiceProfile {
    pub name: String,
    pub model: String,
    pub personality: String,
    pub avatar_path: String,
    pub avatar_size_px: u32,
    pub voice_model: String,
    pub tts_speed: SpeedScale,
    pub tts_enabled: bool,
}

impl View for VoiceProfile {
    type V = ProfileView;

    open spec fn view(&self) -> ProfileView {
        ProfileView {
            name: self.name@,
            model: self.model@,
            personality: self.personality@,
            avatar_path: self.avatar_path@,
            avatar_size_px: self.avatar_size_px,
            voice_model: self.voice_model@,
            tts_speed: self.tts_speed,
            tts_enabled: self.tts_enabled,
        }
    }
}

impl Clone for VoiceProfile {
    fn clone(&self) -> (copy: Self)
        ensures
            copy == *self,
    {
        VoiceProfile {
            name: self.name.clone(),
            model: self.model.clone(),
            personality: self.personality.clone(),
            avatar_path: self.avatar_path.clone(),
            avatar_size_px: self.avatar_size_px,
            voice_model: self.voice_model.clone(),
            tts_speed: self.tts_speed,
            tts_enabled: self.tts_enabled,
        }
    }
}

impl From<ProfileConfig> for VoiceProfile {
    fn from(config: ProfileConfig) -> (profile: Self) {
        VoiceProfile {
            name: config.name,
            model: config.model,
            personality: config.personality,
            avatar_path: config.avatar_path,
            avatar_size_px: config.avatar_size_px,
            voice_model: config.voice_model,
            tts_speed: config.tts_speed,
            tts_enabled: config.tts_enabled,
        }
    }
}

/// The profile for use that holds what the stored profile `config` holds.
pub open spec fn voice_profile_of(config: ProfileConfig) -> VoiceProfile {
    VoiceProfile {
        name: config.name,
        model: config.model,
        personality: config.personality,
        avatar_path: config.avatar_path,
        avatar_size_px: config.avatar_size_px,
        voice_model: config.voice_model,
        tts_speed: config.tts_speed,
        tts_enabled: config.tts_enabled,
    }
}

impl FromSpecImpl<ProfileConfig> for VoiceProfile {
    open spec fn obeys_from_spec() -> bool {
        true
    }

    open spec fn from_spec(config: ProfileConfig) -> Self {
        voice_profile_of(config)
    }
}

impl From<VoiceProfile> for ProfileConfig {
    fn from(profile: VoiceProfile) -> (config: Self) {
        ProfileConfig {
            name: profile.name,
            model: profile.model,
            personality: profile.personality,
            avatar_path: profile.avatar_path,
            avatar_size_px: profile.avatar_size_px,
            voice_model: profile.voice_model,
            tts_speed: profile.tts_speed,
            tts_enabled: profile.tts_enabled,
        }
    }
}

/// The profile for storing that holds what the profile `profile` holds.
pub open spec fn profile_config_of(profile: VoiceProfile) -> ProfileConfig {
    ProfileConfig {
        name: profile.name,
        model: profile.model,
        personality: profile.personality,
        avatar_path: profile.avatar_path,
        avatar_size_px: profile.avatar_size_px,
        voice_model: profile.voice_model,
        tts_speed: profile.tts_speed,
        tts_enabled: profile.tts_enabled,
    }
}

impl FromSpecImpl<VoiceProfile> for ProfileConfig {
    open spec fn obeys_from_spec() -> bool {
        true
    }

    open spec fn from_spec(profile: VoiceProfile) -> Self {
        profile_config_of(profile)
    }
}

/// Converting a stored profile for use and back gives the stored profile.
pub proof fn lemma_profile_round_trip(config: ProfileConfig)
    ensures
        profile_config_of(voice_profile_of(config)) == config,
        voice_profile_of(config)@ == config@,
{
}

/// Why an operation on the profiles was refused.
#[derive(Debug, Clone, Copy, PartialEq, Eq, Structural)]
pub enum ProfileError {
    /// A profile of that name exists already.
    AlreadyExists,
    /// The profile to copy from does not exist.
    BaseNotFound,
    /// No profile of that name exists.
    NotFound,
    /// The profile named `default` cannot be deleted.
    CannotDeleteDefault,
    /// The active profile cannot be deleted.
    CannotDeleteActive,
    /// No profile is stored under the name of the active profile.
    ActiveNotFound,
}

/// The instructions given to the language model for a personality.
pub open spec fn system_prompt_for(personality: Seq<char>) -> Seq<char> {
    if personality == "helpful"@ {
        HELPFUL_PROMPT@
    } else if personality == "sassy"@ {
        SASSY_PROMPT@
    } else if personality == "technical"@ {
        TECHNICAL_PROMPT@
    } else if personality == "concise"@ {
        CONCISE_PROMPT@
    } else {
        FALLBACK_PROMPT@
    }
}

/// Instructions for the personality `helpful`.
pub const HELPFUL_PROMPT: &'static str =
    "You are Blipply \u{e2}\u{20ac}\u{201c} a friendly, concise desktop assistant for NixOS. Be accurate, use markdown for formatting, and keep answers short unless asked for detail. You have access to the user's desktop context.";

/// Instructions for the personality `sassy`.
pub const SASSY_PROMPT: &'static str =
    "You are a sassy, witty desktop assistant. Be helpful but don't be afraid to add some personality. Keep it fun but professional.";

/// Instructions for the personality `technical`.
pub const TECHNICAL_PROMPT: &'static str =
    "You are a technical assistant specializing in NixOS, Linux systems, and programming. Provide detailed, accurate technical information with code examples when relevant.";

/// Instructions for the personality `concise`.
pub const CONCISE_PROMPT: &'static str =
    "You are a minimalist assistant. Provide the most direct, concise answers possible. No fluff, just facts.";

/// Instructions for a personality that is not known.
pub const FALLBACK_PROMPT: &'static str = "You are a helpful desktop assistant.";

/// The profiles of the running assistant and the name of the active one.
pub struct ProfileManager {
    pub active: String,
    pub profiles: StringTable<VoiceProfile>,
}

impl ProfileManager {
    /// The profiles of `config`, each converted for use, with the active
    /// profile that the settings name.
    pub fn from_config(config: &Config) -> (manager: Self)
        ensures
            manager.active@ == config.general.active_profile@,
            manager.profiles@ == config.profiles@.map_values(
                |stored: ProfileConfig| voice_profile_of(stored),
            ),
    {
        let ghost convert = |stored: ProfileConfig| voice_profile_of(stored);
        let mut profiles: StringTable<VoiceProfile> = StringTable::new();
        let n = config.profiles.len();
        let mut i: usize = 0;
        assert(table_of(config.profiles.entries().take(0)).map_values(convert) =~= profiles@);
        while i < n
            invariant
                i <= n,
                n == config.profiles.entries().len(),
                crate::table::keys_distinct(config.profiles.entries()),
                convert == |stored: ProfileConfig| voice_profile_of(stored),
                profiles@ == table_of(config.profiles.entries().take(i as int)).map_values(
                    convert,
                ),
            decreases n - i,
        {
            let key = config.profiles.key_at(i).clone();
            let value = VoiceProfile::from(config.profiles.value_at(i).clone());
            proof {
                let entries = config.profiles.entries();
                lemma_table_prefix(entries, i as int);
                lemma_table_push(entries.take(i as int), entries[i as int].0, entries[i as int].1);
                assert(table_of(entries.take(i + 1)).map_values(convert) =~= table_of(
                    entries.take(i as int),
                ).map_values(convert).insert(key@, value));
            }
            profiles.insert(key, value);
            i += 1;
        }
        assert(config.profiles.entries().take(n as int) =~= config.profiles.entries());
        ProfileManager { active: config.general.active_profile.clone(), profiles }
    }

    /// The profiles, each converted for storing, under the names they had.
    pub fn into_config_map(self) -> (stored: StringTable<ProfileConfig>)
        ensures
            stored@ == self.profiles@.map_values(
                |profile: VoiceProfile| profile_config_of(profile),
            ),
    {
        let ghost convert = |profile: VoiceProfile| profile_config_of(profile);
        let mut stored: StringTable<ProfileConfig> = StringTable::new();
        let n = self.profiles.len();
        let mut i: usize = 0;
        assert(table_of(self.profiles.entries().take(0)).map_values(convert) =~= stored@);
        while i < n
            invariant
                i <= n,
                n == self.profiles.entries().len(),
                crate::table::keys_distinct(self.profiles.entries()),
                convert == |profile: VoiceProfile| profile_config_of(profile),
                stored@ == table_of(self.profiles.entries().take(i as int)).map_values(convert),
            decreases n - i,
        {
            let key = self.profiles.key_at(i).clone();
            let value = ProfileConfig::from(self.profiles.value_at(i).clone());
            proof {
                let entries = self.profiles.entries();
                lemma_table_prefix(entries, i as int);
                lemma_table_push(entries.take(i as int), entries[i as int].0, entries[i as int].1);
                assert(table_of(entries.take(i + 1)).map_values(convert) =~= table_of(
                    entries.take(i as int),
                ).map_values(convert).insert(key@, value));
            }
            stored.insert(key, value);
            i += 1;
        }
        assert(self.profiles.entries().take(n as int) =~= self.profiles.entries());
        stored
    }

    /// Adds a profile under `name`: a copy of the profile `base` if one is
    /// named, the default profile if not, in either case with `name` as its
    /// display name. A name that is taken and a base that does not exist are
    /// refused, the name first, and leave the profiles as they were.
    pub fn create_profile(&mut self, name: String, base: Option<&str>) -> (result: Result<
        (),
        ProfileError,
    >)
        ensures
            final(self).active == old(self).active,
            old(self).profiles@.contains_key(name@) ==> result == Err::<(), ProfileError>(
                ProfileError::AlreadyExists,
            ),
            !old(self).profiles@.contains_key(name@) && base is Some && !old(self).profiles@.contains_key(base->0@) ==> result == Err::<(), ProfileError>(
                ProfileError::BaseNotFound,
            ),
            result is Err ==> final(self).profiles@ == old(self).profiles@,
            result is Ok <==> !old(self).profiles@.contains_key(name@) && (base is Some ==> old(self).profiles@.contains_key(base->0@)),
            result is Ok ==> final(self).profiles@.dom() == old(self).profiles@.dom().insert(
                name@,
            ),
            result is Ok ==> forall|other: Seq<char>|
                other != name@ && old(self).profiles@.contains_key(other) ==> final(self).profiles@[other] == old(self).profiles@[other],
            result is Ok ==> final(self).profiles@[name@]@ == match base {
                Some(base_name) => ProfileView {
                    name: name@,
                    ..old(self).profiles@[base_name@]@
                },
                None => default_profile(name@),
            },
    {
        if self.profiles.contains_key(name.as_str()) {
            return Err(ProfileError::AlreadyExists);
        }
        let template = match base {
            Some(base_name) => match self.profiles.get(base_name) {
                Some(profile) => profile.clone(),
                None => {
                    return Err(ProfileError::BaseNotFound);
                },
            },
            None => VoiceProfile::from(ProfileConfig::with_defaults(name.clone())),
        };
        let profile = VoiceProfile {
            name: name.clone(),
            model: template.model,
            personality: template.personality,
            avatar_path: template.avatar_path,
            avatar_size_px: template.avatar_size_px,
            voice_model: template.voice_model,
            tts_speed: template.tts_speed,
            tts_enabled: template.tts_enabled,
        };
        self.profiles.insert(name, profile);
        assert(self.profiles@.dom() =~= old(self).profiles@.dom().insert(name@));
        Ok(())
    }

    /// Makes the profile `name` the active one and returns it. A name without
    /// a profile is refused and changes nothing.
    pub fn switch_profile(&mut self, name: &str) -> (result: Result<&VoiceProfile, ProfileError>)
        ensures
            final(self).profiles == old(self).profiles,
            result is Ok <==> old(self).profiles@.contains_key(name@),
            result is Ok ==> final(self).active@ == name@ && *result->Ok_0 == old(self).profiles@[name@],
            result is Err ==> final(self).active == old(self).active && result->Err_0
                == ProfileError::NotFound,
    {
        if !self.profiles.contains_key(name) {
            return Err(ProfileError::NotFound);
        }
        self.active = String::from_str(name);
        match self.profiles.get(name) {
            Some(profile) => Ok(profile),
            None => Err(ProfileError::NotFound),
        }
    }

    /// The active profile.
    pub fn active_profile(&self) -> (result: Result<&VoiceProfile, ProfileError>)
        ensures
            result is Ok <==> self.profiles@.contains_key(self.active@),
            result is Ok ==> *result->Ok_0 == self.profiles@[self.active@],
            result is Err ==> result->Err_0 == ProfileError::ActiveNotFound,
    {
        match self.profiles.get(self.active.as_str()) {
            Some(profile) => Ok(profile),
            None => Err(ProfileError::ActiveNotFound),
        }
    }

    /// Replaces the profile stored under `name`. A name without a profile is
    /// refused and changes nothing.
    pub fn update_profile(&mut self, name: &str, profile: VoiceProfile) -> (result: Result<
        (),
        ProfileError,
    >)
        ensures
            final(self).active == old(self).active,
            result is Ok <==> old(self).profiles@.contains_key(name@),
            result is Ok ==> final(self).profiles@ == old(self).profiles@.insert(name@, profile),
            result is Err ==> final(self).profiles@ == old(self).profiles@ && result->Err_0
                == ProfileError::NotFound,
    {
        if !self.profiles.contains_key(name) {
            return Err(ProfileError::NotFound);
        }
        self.profiles.insert(String::from_str(name), profile);
        Ok(())
    }

    /// Deletes the profile `name`. The profile named `default`, the active
    /// profile and a name without a profile are refused, in this order, and
    /// change nothing.
    pub fn delete_profile(&mut self, name: &str) -> (result: Result<(), ProfileError>)
        ensures
            final(self).active == old(self).active,
            result == if name@ == DEFAULT_PROFILE@ {
                Err::<(), ProfileError>(ProfileError::CannotDeleteDefault)
            } else if name@ == old(self).active@ {
                Err(ProfileError::CannotDeleteActive)
            } else if !old(self).profiles@.contains_key(name@) {
                Err(ProfileError::NotFound)
            } else {
                Ok(())
            },
            result is Ok ==> final(self).profiles@ == old(self).profiles@.remove(name@),
            result is Err ==> final(self).profiles@ == old(self).profiles@,
    {
        if str_eq(name, DEFAULT_PROFILE) {
            return Err(ProfileError::CannotDeleteDefault);
        }
        if str_eq(name, self.active.as_str()) {
            return Err(ProfileError::CannotDeleteActive);
        }
        if !self.profiles.contains_key(name) {
            return Err(ProfileError::NotFound);
        }
        self.profiles.remove(name);
        Ok(())
    }

    /// The instructions given to the language model for `profile`: those of
    /// its personality, or general ones if the personality is not known.
    pub fn get_system_prompt(&self, profile: &VoiceProfile) -> (prompt: String)
        ensures
            prompt@ == system_prompt_for(profile.personality@),
    {
        let personality = profile.personality.as_str();
        if str_eq(personality, "helpful") {
            String::from_str(HELPFUL_PROMPT)
        } else if str_eq(personality, "sassy") {
            String::from_str(SASSY_PROMPT)
        } else if str_eq(personality, "technical") {
            String::from_str(TECHNICAL_PROMPT)
        } else if str_eq(personality, "concise") {
            String::from_str(CONCISE_PROMPT)
        } else {
            String::from_str(FALLBACK_PROMPT)
        }
    }
}

/// After a deletion that succeeded, the default profile and the active
/// profile are still there if they were there before.
pub proof fn lemma_delete_keeps_default_and_active(
    profiles: Map<Seq<char>, VoiceProfile>,
    active: Seq<char>,
    name: Seq<char>,
)
    requires
        name != DEFAULT_PROFILE@,
        name != active,
    ensures
        profiles.contains_key(DEFAULT_PROFILE@) ==> profiles.remove(name).contains_key(
            DEFAULT_PROFILE@,
        ),
        profiles.contains_key(active) ==> profiles.remove(name).contains_key(active),
{
}

} // verus!
