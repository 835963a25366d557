//! The settings of the application.

use vstd::prelude::*;

use std::collections::HashMap;

use crate::speech_model::{DEFAULT_LOCAL_SPEECH_MODEL_ID, DEFAULT_SENSE_VOICE_LANGUAGE};
use crate::text::{blank, is_blank, lowercase, lowercased, same_text, trim, trimmed};
use crate::transcript::option_view;

verus! {

/// How a provider is reached, and which of its models are used.
#[derive(Clone, Debug)]
pub struct ProviderConfig {
    pub base_url: String,
    pub api_key: String,
    pub text_model: String,
    pub vision_model: String,
    pub available_models: Vec<String>,
}

impl Default for ProviderConfig {
    fn default() -> (config: Self)
        ensures
            config.base_url@ == Seq::<char>::empty(),
            config.api_key@ == Seq::<char>::empty(),
            config.text_model@ == Seq::<char>::empty(),
            config.vision_model@ == Seq::<char>::empty(),
            config.available_models@ == Seq::<String>::empty(),
    {
        ProviderConfig {
            base_url: String::new(),
            api_key: String::new(),
            text_model: String::new(),
            vision_model: String::new(),
            available_models: Vec::new(),
        }
    }
}

/// The settings of the application.
pub struct Settings {
    pub text: String,
    pub always_on_top: bool,
    pub font_size: u32,
    pub font_color: String,
    pub background_color: String,
    /// The opacity, as the bit pattern of a double-precision number.
    pub opacity_bits: u64,
    pub caption_position: String,
    pub caption_background_style: String,
    pub translation_enabled: bool,
    pub translation_source_language: String,
    pub translation_target_language: String,
    pub model_type: String,
    pub audio_source: String,
    pub audio_input_device_id: String,
    pub process_audio_pid: u32,
    pub local_model_path: String,
    pub is_model_downloaded: bool,
    pub local_speech_model: String,
    pub sense_voice_language: String,
    pub assistant_provider: String,
    pub assistant_text_model: String,
    pub assistant_vision_model: String,
    pub ollama_base_url: String,
    pub speech_provider: String,
    pub assistant_text_provider: String,
    pub assistant_vision_provider: String,
    pub provider_configs: HashMap<String, ProviderConfig>,
    pub auto_format_transcripts: bool,
    pub speaker_diarization_enabled: bool,
    pub toggle_recording_hotkey: String,
    pub capture_visual_hotkey: String,
    pub start_recording_hotkey: String,
    pub stop_recording_hotkey: String,
}

/// The bit pattern of one half.
pub const HALF_BITS: u64 = 0x3fe0_0000_0000_0000;

impl Settings {
    /// The settings that a new installation starts with. The providers of the single uses are left
    /// empty: that tells a settings file from before they were set apart.
    pub open spec fn is_default(&self) -> bool {
        &&& self.text@ == "默认字幕"@
        &&& self.always_on_top
        &&& self.font_size == 24
        &&& self.font_color@ == "#FFFFFF"@
        &&& self.background_color@ == "#000000"@
        &&& self.opacity_bits == HALF_BITS
        &&& self.caption_position@ == "bottom"@
        &&& self.caption_background_style@ == "glass"@
        &&& !self.translation_enabled
        &&& self.translation_source_language@ == "auto"@
        &&& self.translation_target_language@ == "zh-CN"@
        &&& self.model_type@ == "online"@
        &&& self.audio_source@ == "microphone"@
        &&& self.audio_input_device_id@ == Seq::<char>::empty()
        &&& self.process_audio_pid == 0
        &&& self.local_model_path@ == Seq::<char>::empty()
        &&& !self.is_model_downloaded
        &&& self.local_speech_model@ == DEFAULT_LOCAL_SPEECH_MODEL_ID@
        &&& self.sense_voice_language@ == DEFAULT_SENSE_VOICE_LANGUAGE@
        &&& self.assistant_provider@ == "dashscope"@
        &&& self.assistant_text_model@ == "qwen-plus"@
        &&& self.assistant_vision_model@ == "qwen-vl-plus"@
        &&& self.ollama_base_url@ == "http://127.0.0.1:11434"@
        &&& self.speech_provider@ == Seq::<char>::empty()
        &&& self.assistant_text_provider@ == Seq::<char>::empty()
        &&& self.assistant_vision_provider@ == Seq::<char>::empty()
        &&& self.provider_configs@ == Map::<String, ProviderConfig>::empty()
        &&& !self.auto_format_transcripts
        &&& self.speaker_diarization_enabled
        &&& self.toggle_recording_hotkey@ == "Alt+F1"@
        &&& self.capture_visual_hotkey@ == "Alt+F2"@
        &&& self.start_recording_hotkey@ == Seq::<char>::empty()
        &&& self.stop_recording_hotkey@ == Seq::<char>::empty()
    }
}

impl Default for Settings {
    /// The settings that a new installation starts with.
    fn default() -> (settings: Self)
        ensures
            settings.is_default(),
    {
        Settings {
            text: "默认字幕".to_string(),
            always_on_top: true,
            font_size: 24,
            font_color: "#FFFFFF".to_string(),
            background_color: "#000000".to_string(),
            opacity_bits: HALF_BITS,
            caption_position: "bottom".to_string(),
            caption_background_style: "glass".to_string(),
            translation_enabled: false,
            translation_source_language: "auto".to_string(),
            translation_target_language: "zh-CN".to_string(),
            model_type: "online".to_string(),
            audio_source: "microphone".to_string(),
            audio_input_device_id: String::new(),
            process_audio_pid: 0,
            local_model_path: String::new(),
            is_model_downloaded: false,
            local_speech_model: DEFAULT_LOCAL_SPEECH_MODEL_ID.to_string(),
            sense_voice_language: DEFAULT_SENSE_VOICE_LANGUAGE.to_string(),
            assistant_provider: "dashscope".to_string(),
            assistant_text_model: "qwen-plus".to_string(),
            assistant_vision_model: "qwen-vl-plus".to_string(),
            ollama_base_url: "http://127.0.0.1:11434".to_string(),
            speech_provider: String::new(),
            assistant_text_provider: String::new(),
            assistant_vision_provider: String::new(),
            provider_configs: HashMap::new(),
            auto_format_transcripts: false,
            speaker_diarization_enabled: true,
            toggle_recording_hotkey: "Alt+F1".to_string(),
            capture_visual_hotkey: "Alt+F2".to_string(),
            start_recording_hotkey: String::new(),
            stop_recording_hotkey: String::new(),
        }
    }
}

/// A key combination, and the event that it raises.
pub struct ShortcutBinding {
    pub hotkey: String,
    pub event: &'static str,
}

/// A key combination and the event that it raises, as sequences.
pub open spec fn binding_views(bindings: Seq<ShortcutBinding>) -> Seq<(Seq<char>, Seq<char>)> {
    bindings.map_values(|binding: ShortcutBinding| (binding.hotkey@, binding.event@))
}

/// The binding of a key combination, where it is not blank.
pub open spec fn binding_of(hotkey: Seq<char>, event: Seq<char>) -> Seq<(Seq<char>, Seq<char>)> {
    if is_blank(hotkey) {
        Seq::empty()
    } else {
        seq![(trim(hotkey), event)]
    }
}

/// The key combinations that are to be listened to, with their events.
pub fn shortcut_bindings(settings: &Settings) -> (bindings: Vec<ShortcutBinding>)
    ensures
        binding_views(bindings@) == binding_of(settings.toggle_recording_hotkey@, "toggle_recording_shortcut"@)
            + binding_of(settings.capture_visual_hotkey@, "capture_visual_shortcut"@),
{
    let mut bindings: Vec<ShortcutBinding> = Vec::new();
    let toggle = trimmed(settings.toggle_recording_hotkey.as_str());
    if !toggle.as_str().is_empty() {
        bindings.push(ShortcutBinding { hotkey: toggle, event: "toggle_recording_shortcut" });
    }
    assert(binding_views(bindings@) =~= binding_of(
        settings.toggle_recording_hotkey@,
        "toggle_recording_shortcut"@,
    ));
    let ghost before = bindings@;
    let capture = trimmed(settings.capture_visual_hotkey.as_str());
    if !capture.as_str().is_empty() {
        bindings.push(ShortcutBinding { hotkey: capture, event: "capture_visual_shortcut" });
        assert(binding_views(bindings@) =~= binding_views(before) + binding_of(
            settings.capture_visual_hotkey@,
            "capture_visual_shortcut"@,
        ));
    } else {
        assert(binding_views(bindings@) =~= binding_views(before) + binding_of(
            settings.capture_visual_hotkey@,
            "capture_visual_shortcut"@,
        ));
    }
    bindings
}

/// The key combination that starts and stops a recording, where the settings file holds `stored`:
/// one from before there was a single combination gives the one that started recordings.
pub open spec fn toggle_hotkey(
    stored: Option<Seq<char>>,
    toggle: Seq<char>,
    start: Seq<char>,
) -> Seq<char> {
    if (stored is None || is_blank(stored->0)) && !is_blank(start) {
        start
    } else {
        toggle
    }
}

impl Settings {
    /// These are `settings`, brought up to date; `stored` is the combination that the settings file
    /// itself holds.
    pub open spec fn is_update_of(&self, settings: Settings, stored: Option<Seq<char>>) -> bool {
        &&& self.toggle_recording_hotkey@ == toggle_hotkey(
            stored,
            settings.toggle_recording_hotkey@,
            settings.start_recording_hotkey@,
        )
        &&& *self == (Settings { toggle_recording_hotkey: self.toggle_recording_hotkey, ..settings })
    }
}

/// Brings settings that were read up to date. `stored_toggle` is the combination that the settings
/// file itself holds.
pub fn migrate_settings(settings: Settings, stored_toggle: Option<String>) -> (migrated: Settings)
    ensures
        migrated.is_update_of(settings, option_view(stored_toggle)),
{
    let mut settings = settings;
    let has_toggle_hotkey = match &stored_toggle {
        Some(stored) => !blank(stored.as_str()),
        None => false,
    };
    if !has_toggle_hotkey && !blank(settings.start_recording_hotkey.as_str()) {
        settings.toggle_recording_hotkey = settings.start_recording_hotkey.clone();
    }
    settings
}

/// The settings that are stored.
pub enum StoredSettings {
    /// None yet.
    Missing,
    /// Some that cannot be read.
    Unreadable,
    /// These; `toggle` is the combination that the settings file itself holds.
    Read { settings: Settings, toggle: Option<String> },
}

/// The settings to go by, and whether they are to be stored.
pub struct LoadedSettings {
    pub settings: Settings,
    pub store: bool,
}

/// Finds out which settings to go by: those that were read, brought up to date, and otherwise the
/// default ones. Where there are none yet, the default ones are to be stored.
pub fn load_settings(stored: StoredSettings) -> (loaded: LoadedSettings)
    ensures
        loaded.store == (stored is Missing),
        match stored {
            StoredSettings::Read { settings, toggle } => loaded.settings.is_update_of(
                settings,
                option_view(toggle),
            ),
            _ => loaded.settings.is_default(),
        },
{
    match stored {
        StoredSettings::Missing => LoadedSettings { settings: Settings::default(), store: true },
        StoredSettings::Unreadable => LoadedSettings { settings: Settings::default(), store: false },
        StoredSettings::Read { settings, toggle } => LoadedSettings {
            settings: migrate_settings(settings, toggle),
            store: false,
        },
    }
}

/// What is said of the variable that turns debug messages on.
pub fn test_logging(value: &str) -> (said: String)
    ensures
        said@ == "TAURI_LLM_DEBUG = "@ + value@,
{
    "TAURI_LLM_DEBUG = ".to_string().concat(value)
}

/// Debug messages are written: the variable is `1`, or `true` in any case.
pub open spec fn enables_logging(value: Seq<char>, lower: Seq<char>) -> bool {
    value == "1"@ || lower == "true"@
}

/// Whether debug messages are written, given the value of the variable that says so.
pub fn logging_enabled(value: &str) -> (enabled: bool)
    ensures
        enabled == enables_logging(value@, lowercase(value@)),
        value.is_ascii() ==> enabled == enables_logging(value@, crate::text::ascii_lowercase(value@)),
{
    let lower = lowercased(value);
    same_text(value, "1") || same_text(lower.as_str(), "true")
}

/// A combination is listened to exactly when it is not blank, without the white space around it, and
/// raises its own event: first the one that starts and stops recordings, then the one that takes
/// pictures.
pub proof fn law_combinations_raise_their_events(hotkey: Seq<char>, event: Seq<char>)
    ensures
        is_blank(hotkey) ==> binding_of(hotkey, event).len() == 0,
        !is_blank(hotkey) ==> binding_of(hotkey, event).len() == 1 && binding_of(hotkey, event)[0].0 == trim(hotkey)
            && binding_of(hotkey, event)[0].1 == event,
{
}

/// The combination that starts and stops recordings is the one that the settings say, unless the
/// settings file holds none of its own and an older one names one that starts them.
pub proof fn law_a_stored_combination_counts(stored: Seq<char>, toggle: Seq<char>, start: Seq<char>)
    ensures
        !is_blank(stored) ==> toggle_hotkey(Some(stored), toggle, start) == toggle,
        is_blank(start) ==> toggle_hotkey(Some(stored), toggle, start) == toggle && toggle_hotkey(None, toggle, start)
            == toggle,
        !is_blank(start) ==> toggle_hotkey(None, toggle, start) == start,
        !is_blank(start) && is_blank(stored) ==> toggle_hotkey(Some(stored), toggle, start) == start,
{
}

/// Bringing settings up to date changes none of them but the combination that starts and stops
/// recordings.
pub proof fn law_updates_keep_the_settings(updated: Settings, settings: Settings, stored: Option<Seq<char>>)
    requires
        updated.is_update_of(settings, stored),
    ensures
        updated.text == settings.text,
        updated.provider_configs == settings.provider_configs,
        updated.capture_visual_hotkey == settings.capture_visual_hotkey,
        updated.start_recording_hotkey == settings.start_recording_hotkey,
        updated.local_speech_model == settings.local_speech_model,
        updated.sense_voice_language == settings.sense_voice_language,
        updated.audio_source == settings.audio_source,
        updated.model_type == settings.model_type,
        updated.translation_enabled == settings.translation_enabled,
        updated.translation_target_language == settings.translation_target_language,
        updated.auto_format_transcripts == settings.auto_format_transcripts,
        updated.speaker_diarization_enabled == settings.speaker_diarization_enabled,
        !is_blank(settings.start_recording_hotkey@) && stored is None ==> updated.toggle_recording_hotkey@
            == settings.start_recording_hotkey@,
        is_blank(settings.start_recording_hotkey@) ==> updated.toggle_recording_hotkey@
            == settings.toggle_recording_hotkey@,
{
}

/// The settings of a new installation can be worked with: they name a speech model and languages that
/// there are, ask for the microphone, and have two combinations that differ.
pub proof fn law_default_settings_are_usable(settings: Settings)
    requires
        settings.is_default(),
    ensures
        crate::speech_model::kind_with_id(settings.local_speech_model@) is Some,
        crate::speech_model::sense_voice_language(Some(settings.sense_voice_language@)) == Some(
            settings.sense_voice_language@,
        ),
        crate::translation::language_name(settings.translation_source_language@, true) is Some,
        crate::translation::language_name(settings.translation_target_language@, false) is Some,
        settings.audio_source@ == "microphone"@,
        binding_of(settings.toggle_recording_hotkey@, "toggle_recording_shortcut"@).len() == 1,
        binding_of(settings.capture_visual_hotkey@, "capture_visual_shortcut"@).len() == 1,
        settings.toggle_recording_hotkey@ != settings.capture_visual_hotkey@,
        !settings.translation_enabled,
        !settings.is_model_downloaded,
{
    crate::speech_model::law_identifiers_round_trip(crate::speech_model::LocalSpeechModelKind::ParaformerStreaming);
    crate::speech_model::law_languages_are_asked_for_by_their_codes("auto"@);
    crate::speech_model::law_language_codes_are_stable(None);
    reveal_strlit("Alt+F1");
    reveal_strlit("Alt+F2");
    assert("Alt+F1"@[5] == '1' && "Alt+F2"@[5] == '2');
    crate::text::lemma_trim_fixed("Alt+F1"@);
    crate::text::lemma_trim_fixed("Alt+F2"@);
}

/// Settings that were read are gone by, and never stored anew; where there are none yet the default
/// ones are stored, and where they cannot be read they are left alone.
pub proof fn law_stored_settings_are_kept(stored: StoredSettings, loaded: LoadedSettings)
    requires
        call_ensures(load_settings, (stored,), loaded),
    ensures
        stored is Read ==> !loaded.store && loaded.settings.text == stored->settings.text
            && loaded.settings.provider_configs == stored->settings.provider_configs
            && loaded.settings.local_speech_model == stored->settings.local_speech_model,
        stored is Read && stored->toggle is Some && !is_blank(stored->toggle->0@)
            ==> loaded.settings.toggle_recording_hotkey@ == stored->settings.toggle_recording_hotkey@,
        stored is Missing ==> loaded.store && loaded.settings.is_default(),
        stored is Unreadable ==> !loaded.store && loaded.settings.is_default(),
{
}

/// The combinations that are listened to are those of the settings that are not blank, each with its
/// own event.
pub proof fn law_shortcuts_are_those_of_the_settings(settings: &Settings, bindings: Vec<ShortcutBinding>)
    requires
        call_ensures(shortcut_bindings, (settings,), bindings),
    ensures
        ({
            let toggles = !is_blank(settings.toggle_recording_hotkey@);
            let captures = !is_blank(settings.capture_visual_hotkey@);
            &&& toggles && captures ==> bindings@.len() == 2
            &&& toggles != captures ==> bindings@.len() == 1
            &&& !toggles && !captures ==> bindings@.len() == 0
            &&& toggles ==> bindings@[0].hotkey@ == trim(settings.toggle_recording_hotkey@) && bindings@[0].event@
                == "toggle_recording_shortcut"@
            &&& captures ==> bindings@.last().hotkey@ == trim(settings.capture_visual_hotkey@)
                && bindings@.last().event@ == "capture_visual_shortcut"@
        }),
{
    let all = binding_views(bindings@);
    assert(all.len() == bindings@.len());
    if all.len() > 0 {
        assert(all[0] == (bindings@[0].hotkey@, bindings@[0].event@));
        assert(all[all.len() - 1] == (bindings@.last().hotkey@, bindings@.last().event@));
    }
}

/// Debug messages are written where the variable is `1`, or `true` in whatever case, and nowhere else.
pub proof fn law_debug_messages_are_asked_for(value: Seq<char>, lower: Seq<char>)
    ensures
        enables_logging("1"@, lower),
        lower == "true"@ ==> enables_logging(value, lower),
        value != "1"@ && lower != "true"@ ==> !enables_logging(value, lower),
{
}

} // verus!
