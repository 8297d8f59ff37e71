//! The settings file `config.toml`, and what follows from it.
use vstd::prelude::*;
use vstd::string::StringExecFns;

use crate::document::{Document, DocumentView};
use crate::paths::{join, Environment};
use crate::protocol::{ErrorKind, WireError, WireErrorView};
use crate::text::{
    ascii_alphanumeric, chars_of, decimal_string, joined, push, same, slice_text, strip_prefix,
};
use crate::toml_text::{
    can_print, from_value, insert, new_table, parse_toml, table_from_str, to_string_pretty, ParsedToml,
    PrintedToml, Setting,
};

verus! {

/// What a recording shows unless it is told otherwise.
#[derive(Clone, Debug, PartialEq, Eq)]
pub enum RecordDefaultTarget {
    Focused,
    Output(String),
    Both,
}

/// What a [`RecordDefaultTarget`] says.
pub enum TargetView {
    Focused,
    Output(Seq<char>),
    Both,
}

impl RecordDefaultTarget {
    /// What the target says.
    pub open spec fn view(&self) -> TargetView {
        match self {
            RecordDefaultTarget::Focused => TargetView::Focused,
            RecordDefaultTarget::Output(name) => TargetView::Output(name@),
            RecordDefaultTarget::Both => TargetView::Both,
        }
    }
}

/// How two outputs are recorded.
#[derive(Clone, Copy, Debug, PartialEq, Eq, Structural)]
pub enum RecordBothMode {
    Separate,
    Combined,
}

/// Which sound is recorded.
#[derive(Clone, Copy, Debug, PartialEq, Eq, Structural)]
pub enum RecordAudioSource {
    SystemAndMic,
    Mic,
    System,
}

/// How recordings show the pointer. The smooth ones record without it and draw a smoothed one when
/// the recording is saved.
#[derive(Clone, Copy, Debug, PartialEq, Eq, Structural)]
pub enum RecordCursor {
    System,
    Mellow,
    Quick,
}

impl RecordCursor {
    /// The name of the kind in settings.
    pub open spec fn name(self) -> Seq<char> {
        match self {
            RecordCursor::System => "system"@,
            RecordCursor::Mellow => "mellow"@,
            RecordCursor::Quick => "quick"@,
        }
    }

    /// The name of the kind in settings.
    pub fn key(self) -> (r: &'static str)
        ensures
            r@ == self.name(),
    {
        match self {
            RecordCursor::System => "system",
            RecordCursor::Mellow => "mellow",
            RecordCursor::Quick => "quick",
        }
    }
}

impl Default for RecordCursor {
    fn default() -> (r: Self)
        ensures
            r == RecordCursor::System,
    {
        RecordCursor::System
    }
}

/// How a recording trades quality for quiet.
#[derive(Clone, Copy, Debug, PartialEq, Eq, Structural)]
pub enum RecordProfile {
    Quality,
    Quiet,
    /// `record_fps`: an explicit frame rate.
    Fps(u32),
}

impl RecordProfile {
    /// The frame rate of the profile.
    pub fn fps(self) -> (r: u32)
        ensures
            r == (match self {
                RecordProfile::Quality => 240u32,
                RecordProfile::Quiet => 60u32,
                RecordProfile::Fps(fps) => fps,
            }),
    {
        match self {
            RecordProfile::Quality => 240,
            RecordProfile::Quiet => 60,
            RecordProfile::Fps(fps) => fps,
        }
    }
}

impl Default for RecordProfile {
    fn default() -> (r: Self)
        ensures
            r == RecordProfile::Quality,
    {
        RecordProfile::Quality
    }
}

/// What a user prefers of recordings.
#[derive(Clone, Debug, PartialEq, Eq)]
pub struct RecordingPrefs {
    pub default_target: RecordDefaultTarget,
    pub both_mode: RecordBothMode,
    pub show_frame: bool,
    pub disk_add_to_shelf: bool,
    pub audio_enabled: bool,
    pub audio_source: RecordAudioSource,
    pub cursor: RecordCursor,
}

/// What [`RecordingPrefs`] say.
pub struct PrefsView {
    pub default_target: TargetView,
    pub both_mode: RecordBothMode,
    pub show_frame: bool,
    pub disk_add_to_shelf: bool,
    pub audio_enabled: bool,
    pub audio_source: RecordAudioSource,
    pub cursor: RecordCursor,
}

impl PrefsView {
    /// What holds where nothing is set.
    pub open spec fn unset() -> PrefsView {
        PrefsView {
            default_target: TargetView::Focused,
            both_mode: RecordBothMode::Separate,
            show_frame: true,
            disk_add_to_shelf: true,
            audio_enabled: true,
            audio_source: RecordAudioSource::SystemAndMic,
            cursor: RecordCursor::System,
        }
    }
}

impl RecordingPrefs {
    /// What the preferences say.
    pub open spec fn view(&self) -> PrefsView {
        PrefsView {
            default_target: self.default_target@,
            both_mode: self.both_mode,
            show_frame: self.show_frame,
            disk_add_to_shelf: self.disk_add_to_shelf,
            audio_enabled: self.audio_enabled,
            audio_source: self.audio_source,
            cursor: self.cursor,
        }
    }
}

impl Default for RecordingPrefs {
    fn default() -> (r: Self)
        ensures
            r@ == PrefsView::unset(),
    {
        RecordingPrefs {
            default_target: RecordDefaultTarget::Focused,
            both_mode: RecordBothMode::Separate,
            show_frame: true,
            disk_add_to_shelf: true,
            audio_enabled: true,
            audio_source: RecordAudioSource::SystemAndMic,
            cursor: RecordCursor::System,
        }
    }
}

/// The settings file. A key that is not set leaves its field `None`; what holds then is decided
/// where the setting is used.
#[derive(Debug, PartialEq, Eq)]
pub struct Config {
    pub save_dir: Option<String>,
    pub record_codec: Option<String>,
    pub record_profile: Option<String>,
    /// `Some(None)`: set, but not a whole number.
    pub record_fps: Option<Option<i64>>,
    pub record_dir: Option<String>,
    pub record_default_target: Option<String>,
    pub record_both_mode: Option<String>,
    pub record_cursor: Option<String>,
    pub record_show_frame: Option<bool>,
    pub record_disk_add_to_shelf: Option<bool>,
    pub record_audio_enabled: Option<bool>,
    pub record_audio_source: Option<String>,
    pub record_shelf_to_disk_after_seconds: Option<i64>,
    /// The font of the selector and the shelf. Unset follows the desktop's.
    pub ui_font: Option<String>,
}

/// What a [`Config`] says.
pub struct ConfigView {
    pub save_dir: Option<Seq<char>>,
    pub record_codec: Option<Seq<char>>,
    pub record_profile: Option<Seq<char>>,
    pub record_fps: Option<Option<i64>>,
    pub record_dir: Option<Seq<char>>,
    pub record_default_target: Option<Seq<char>>,
    pub record_both_mode: Option<Seq<char>>,
    pub record_cursor: Option<Seq<char>>,
    pub record_show_frame: Option<bool>,
    pub record_disk_add_to_shelf: Option<bool>,
    pub record_audio_enabled: Option<bool>,
    pub record_audio_source: Option<Seq<char>>,
    pub record_shelf_to_disk_after_seconds: Option<i64>,
    pub ui_font: Option<Seq<char>>,
}

impl ConfigView {
    /// Nothing is set.
    pub open spec fn unset() -> ConfigView {
        ConfigView {
            save_dir: None,
            record_codec: None,
            record_profile: None,
            record_fps: None,
            record_dir: None,
            record_default_target: None,
            record_both_mode: None,
            record_cursor: None,
            record_show_frame: None,
            record_disk_add_to_shelf: None,
            record_audio_enabled: None,
            record_audio_source: None,
            record_shelf_to_disk_after_seconds: None,
            ui_font: None,
        }
    }

    /// The settings of a document. A value of the wrong type is as good as none, but for the two
    /// settings whose errors are shown.
    pub open spec fn described(value: DocumentView) -> ConfigView {
        ConfigView {
            save_dir: value.text_at("save_dir"@),
            record_codec: value.text_at("record_codec"@),
            record_profile: match value.field("record_profile"@) {
                Some(DocumentView::Text(text)) => Some(text),
                Some(_) => Some(Seq::empty()),
                None => None,
            },
            record_fps: match value.field("record_fps"@) {
                Some(_) => Some(value.i64_at("record_fps"@)),
                None => None,
            },
            record_dir: value.text_at("record_dir"@),
            record_default_target: value.text_at("record_default_target"@),
            record_both_mode: value.text_at("record_both_mode"@),
            record_cursor: value.text_at("record_cursor"@),
            record_show_frame: value.bool_at("record_show_frame"@),
            record_disk_add_to_shelf: value.bool_at("record_disk_add_to_shelf"@),
            record_audio_enabled: value.bool_at("record_audio_enabled"@),
            record_audio_source: value.text_at("record_audio_source"@),
            record_shelf_to_disk_after_seconds: value.i64_at(
                "record_shelf_to_disk_after_seconds"@,
            ),
            ui_font: value.text_at("ui_font"@),
        }
    }

    /// The settings in a text: none where it cannot be read.
    pub open spec fn read(text: Seq<char>) -> ConfigView {
        match crate::toml_text::parsed_toml(text) {
            ParsedToml::Document(value) => ConfigView::described(value),
            ParsedToml::Refused(_) => ConfigView::unset(),
        }
    }

    /// The preferences that the settings give.
    pub open spec fn prefs(self) -> PrefsView {
        PrefsView {
            default_target: match self.record_default_target {
                None => TargetView::Focused,
                Some(target) => if target == "focused"@ {
                    TargetView::Focused
                } else if target == "both"@ {
                    TargetView::Both
                } else {
                    match crate::text::without_prefix(target, "output:"@) {
                        Some(name) if name.len() > 0 => TargetView::Output(name),
                        _ => TargetView::Focused,
                    }
                },
            },
            both_mode: if self.record_both_mode == Some("combined"@) {
                RecordBothMode::Combined
            } else {
                RecordBothMode::Separate
            },
            show_frame: self.record_show_frame.unwrap_or(true),
            disk_add_to_shelf: self.record_disk_add_to_shelf.unwrap_or(true),
            audio_enabled: self.record_audio_enabled.unwrap_or(true),
            audio_source: if self.record_audio_source == Some("mic"@) {
                RecordAudioSource::Mic
            } else if self.record_audio_source == Some("system"@) {
                RecordAudioSource::System
            } else {
                RecordAudioSource::SystemAndMic
            },
            cursor: if self.record_cursor == Some("mellow"@) {
                RecordCursor::Mellow
            } else if self.record_cursor == Some("quick"@) {
                RecordCursor::Quick
            } else {
                RecordCursor::System
            },
        }
    }
}

impl Default for Config {
    fn default() -> (r: Self)
        ensures
            r@ == ConfigView::unset(),
    {
        Config {
            save_dir: None,
            record_codec: None,
            record_profile: None,
            record_fps: None,
            record_dir: None,
            record_default_target: None,
            record_both_mode: None,
            record_cursor: None,
            record_show_frame: None,
            record_disk_add_to_shelf: None,
            record_audio_enabled: None,
            record_audio_source: None,
            record_shelf_to_disk_after_seconds: None,
            ui_font: None,
        }
    }
}

/// The text in the field `name`.
fn owned_text_at(value: &Document, name: &str) -> (r: Option<String>)
    ensures
        crate::text::view_of(r) == value@.text_at(name@),
{
    match value.text_at(name) {
        Some(text) => Some(text.to_owned()),
        None => None,
    }
}

/// `text` is there and is `expected`.
fn is_text(text: &Option<String>, expected: &str) -> (r: bool)
    ensures
        r == (crate::text::view_of(*text) == Some(expected@)),
{
    match text {
        Some(text) => same(text.as_str(), expected),
        None => false,
    }
}

impl Config {
    /// What the settings say.
    pub open spec fn view(&self) -> ConfigView {
        ConfigView {
            save_dir: crate::text::view_of(self.save_dir),
            record_codec: crate::text::view_of(self.record_codec),
            record_profile: crate::text::view_of(self.record_profile),
            record_fps: self.record_fps,
            record_dir: crate::text::view_of(self.record_dir),
            record_default_target: crate::text::view_of(self.record_default_target),
            record_both_mode: crate::text::view_of(self.record_both_mode),
            record_cursor: crate::text::view_of(self.record_cursor),
            record_show_frame: self.record_show_frame,
            record_disk_add_to_shelf: self.record_disk_add_to_shelf,
            record_audio_enabled: self.record_audio_enabled,
            record_audio_source: crate::text::view_of(self.record_audio_source),
            record_shelf_to_disk_after_seconds: self.record_shelf_to_disk_after_seconds,
            ui_font: crate::text::view_of(self.ui_font),
        }
    }

    /// The profile of recordings. `record_fps`, from 1 to 240, overrides the profile's frame rate.
    pub fn record_profile(&self) -> (r: Result<RecordProfile, String>)
        ensures
            match self@.record_fps {
                Some(Some(fps)) if 1 <= fps <= 240 => r == Ok::<RecordProfile, String>(
                    RecordProfile::Fps(fps as u32),
                ),
                Some(_) => r matches Err(message) && message@
                    == "record_fps must be a whole number from 1 to 240"@,
                None => if self@.record_profile is None || self@.record_profile == Some(
                    "quality"@,
                ) {
                    r == Ok::<RecordProfile, String>(RecordProfile::Quality)
                } else if self@.record_profile == Some("quiet"@) {
                    r == Ok::<RecordProfile, String>(RecordProfile::Quiet)
                } else {
                    r matches Err(message) && message@
                        == "record_profile must be \"quality\" or \"quiet\""@
                },
            },
    {
        match self.record_fps {
            Some(Some(fps)) => if 1 <= fps && fps <= 240 {
                return Ok(RecordProfile::Fps(fps as u32));
            } else {
                return Err("record_fps must be a whole number from 1 to 240".to_owned());
            },
            Some(None) => {
                return Err("record_fps must be a whole number from 1 to 240".to_owned());
            },
            None => {},
        }
        if self.record_profile.is_none() || is_text(&self.record_profile, "quality") {
            Ok(RecordProfile::Quality)
        } else if is_text(&self.record_profile, "quiet") {
            Ok(RecordProfile::Quiet)
        } else {
            Err("record_profile must be \"quality\" or \"quiet\"".to_owned())
        }
    }

    /// The settings in `text`. Unknown keys are ignored; text that cannot be read sets nothing, so
    /// that a slip of the pen stops nothing.
    pub fn parse(text: &str) -> (r: Config)
        ensures
            r@ == ConfigView::read(text@),
    {
        match parse_toml(text) {
            Err(_) => Config::default(),
            Ok(value) => Config {
                save_dir: owned_text_at(&value, "save_dir"),
                record_codec: owned_text_at(&value, "record_codec"),
                record_profile: match value.get("record_profile") {
                    Some(Document::Text(text)) => Some(text.clone()),
                    Some(_) => Some(String::new()),
                    None => None,
                },
                record_fps: match value.get("record_fps") {
                    Some(_) => Some(value.i64_at("record_fps")),
                    None => None,
                },
                record_dir: owned_text_at(&value, "record_dir"),
                record_default_target: owned_text_at(&value, "record_default_target"),
                record_both_mode: owned_text_at(&value, "record_both_mode"),
                record_cursor: owned_text_at(&value, "record_cursor"),
                record_show_frame: value.bool_at("record_show_frame"),
                record_disk_add_to_shelf: value.bool_at("record_disk_add_to_shelf"),
                record_audio_enabled: value.bool_at("record_audio_enabled"),
                record_audio_source: owned_text_at(&value, "record_audio_source"),
                record_shelf_to_disk_after_seconds: value.i64_at(
                    "record_shelf_to_disk_after_seconds",
                ),
                ui_font: owned_text_at(&value, "ui_font"),
            },
        }
    }

    /// The settings in the file, given its text where it can be read: without it nothing is set.
    pub fn load(text: Option<&str>) -> (r: Config)
        ensures
            r@ == (match text {
                Some(text) => ConfigView::read(text@),
                None => ConfigView::unset(),
            }),
    {
        match text {
            Some(text) => Config::parse(text),
            None => Config::default(),
        }
    }

    /// After how many seconds a recording that is saved to the shelf goes to disk as well and no
    /// longer counts toward the temporary cache. One minute unless it is set; zero turns it off.
    pub fn shelf_to_disk_after(&self) -> (r: Option<u64>)
        ensures
            r == (match self@.record_shelf_to_disk_after_seconds {
                None => Some(60u64),
                Some(seconds) if seconds > 0 => Some(seconds as u64),
                Some(_) => None,
            }),
    {
        match self.record_shelf_to_disk_after_seconds {
            None => Some(60),
            Some(seconds) => if seconds > 0 {
                Some(seconds as u64)
            } else {
                None
            },
        }
    }

    /// The preferences that the settings give. What is not set, or not known, is as it is without
    /// settings.
    pub fn recording_prefs(&self) -> (r: RecordingPrefs)
        ensures
            r@ == self@.prefs(),
    {
        let default_target = match &self.record_default_target {
            None => RecordDefaultTarget::Focused,
            Some(target) => if same(target.as_str(), "focused") {
                RecordDefaultTarget::Focused
            } else if same(target.as_str(), "both") {
                RecordDefaultTarget::Both
            } else {
                match strip_prefix(target.as_str(), "output:") {
                    Some(name) => if name.as_str().is_empty() {
                        RecordDefaultTarget::Focused
                    } else {
                        RecordDefaultTarget::Output(name)
                    },
                    None => RecordDefaultTarget::Focused,
                }
            },
        };
        RecordingPrefs {
            default_target,
            both_mode: if is_text(&self.record_both_mode, "combined") {
                RecordBothMode::Combined
            } else {
                RecordBothMode::Separate
            },
            show_frame: self.record_show_frame.unwrap_or(true),
            disk_add_to_shelf: self.record_disk_add_to_shelf.unwrap_or(true),
            audio_enabled: self.record_audio_enabled.unwrap_or(true),
            audio_source: if is_text(&self.record_audio_source, "mic") {
                RecordAudioSource::Mic
            } else if is_text(&self.record_audio_source, "system") {
                RecordAudioSource::System
            } else {
                RecordAudioSource::SystemAndMic
            },
            cursor: if is_text(&self.record_cursor, "mellow") {
                RecordCursor::Mellow
            } else if is_text(&self.record_cursor, "quick") {
                RecordCursor::Quick
            } else {
                RecordCursor::System
            },
        }
    }
}

impl TargetView {
    /// The target as a setting.
    pub open spec fn setting(self) -> Seq<char> {
        match self {
            TargetView::Focused => "focused"@,
            TargetView::Output(name) => "output:"@ + name,
            TargetView::Both => "both"@,
        }
    }
}

impl RecordBothMode {
    /// The mode as a setting.
    pub open spec fn setting(self) -> Seq<char> {
        match self {
            RecordBothMode::Separate => "separate"@,
            RecordBothMode::Combined => "combined"@,
        }
    }
}

impl RecordAudioSource {
    /// The source as a setting.
    pub open spec fn setting(self) -> Seq<char> {
        match self {
            RecordAudioSource::SystemAndMic => "system-and-mic"@,
            RecordAudioSource::Mic => "mic"@,
            RecordAudioSource::System => "system"@,
        }
    }
}

impl PrefsView {
    /// `fields` with the preferences in them.
    pub open spec fn stored(self, fields: Map<Seq<char>, DocumentView>) -> Map<
        Seq<char>,
        DocumentView,
    > {
        fields.insert(
            "record_default_target"@,
            DocumentView::Text(self.default_target.setting()),
        ).insert("record_both_mode"@, DocumentView::Text(self.both_mode.setting())).insert(
            "record_cursor"@,
            DocumentView::Text(self.cursor.name()),
        ).insert("record_show_frame"@, DocumentView::Bool(self.show_frame)).insert(
            "record_disk_add_to_shelf"@,
            DocumentView::Bool(self.disk_add_to_shelf),
        ).insert("record_audio_enabled"@, DocumentView::Bool(self.audio_enabled)).insert(
            "record_audio_source"@,
            DocumentView::Text(self.audio_source.setting()),
        )
    }

    /// The names under which the preferences are stored.
    pub open spec fn keeps(name: Seq<char>) -> bool {
        ||| name == "record_default_target"@
        ||| name == "record_both_mode"@
        ||| name == "record_cursor"@
        ||| name == "record_show_frame"@
        ||| name == "record_disk_add_to_shelf"@
        ||| name == "record_audio_enabled"@
        ||| name == "record_audio_source"@
    }
}

/// The names of the settings differ.
proof fn lemma_setting_names()
    ensures
        "record_default_target"@.len() == 21,
        "record_both_mode"@.len() == 16,
        "record_cursor"@.len() == 13,
        "record_show_frame"@.len() == 17,
        "record_disk_add_to_shelf"@.len() == 24,
        "record_audio_enabled"@.len() == 20,
        "record_audio_source"@.len() == 19,
{
    reveal_strlit("record_default_target");
    reveal_strlit("record_both_mode");
    reveal_strlit("record_cursor");
    reveal_strlit("record_show_frame");
    reveal_strlit("record_disk_add_to_shelf");
    reveal_strlit("record_audio_enabled");
    reveal_strlit("record_audio_source");
}

/// Preferences that are stored among settings are found there again, and every other setting stays
/// as it was. (An output without a name is no preference.)
pub proof fn lemma_prefs_stored(prefs: PrefsView, fields: Map<Seq<char>, DocumentView>)
    requires
        prefs.default_target != TargetView::Output(Seq::empty()),
    ensures
        ConfigView::described(DocumentView::Object(prefs.stored(fields))).prefs() == prefs,
        forall|name: Seq<char>| #![trigger prefs.stored(fields).dom().contains(name)]
            !PrefsView::keeps(name) ==> {
                &&& prefs.stored(fields).dom().contains(name) == fields.dom().contains(name)
                &&& fields.dom().contains(name) ==> prefs.stored(fields)[name] == fields[name]
            },
{
    lemma_setting_names();
    let value = DocumentView::Object(prefs.stored(fields));
    let config = ConfigView::described(value);
    assert(config.record_default_target == Some(prefs.default_target.setting()));
    assert(config.record_both_mode == Some(prefs.both_mode.setting()));
    assert(config.record_cursor == Some(prefs.cursor.name()));
    assert(config.record_show_frame == Some(prefs.show_frame));
    assert(config.record_disk_add_to_shelf == Some(prefs.disk_add_to_shelf));
    assert(config.record_audio_enabled == Some(prefs.audio_enabled));
    assert(config.record_audio_source == Some(prefs.audio_source.setting()));
    lemma_target_setting(prefs.default_target);
    reveal_strlit("separate");
    reveal_strlit("combined");
    assert("separate"@[0] != "combined"@[0]);
    reveal_strlit("system-and-mic");
    reveal_strlit("mic");
    reveal_strlit("system");
    reveal_strlit("mellow");
    reveal_strlit("quick");
    assert("mic"@.len() == 3 && "system"@.len() == 6 && "system-and-mic"@.len() == 14);
    assert("quick"@.len() == 5 && "mellow"@.len() == 6);
    assert("system"@[0] != "mellow"@[0]);
}

/// A target is found by its setting.
proof fn lemma_target_setting(target: TargetView)
    requires
        target != TargetView::Output(Seq::empty()),
    ensures
        target == (if target.setting() == "focused"@ {
            TargetView::Focused
        } else if target.setting() == "both"@ {
            TargetView::Both
        } else {
            match crate::text::without_prefix(target.setting(), "output:"@) {
                Some(name) if name.len() > 0 => TargetView::Output(name),
                _ => TargetView::Focused,
            }
        }),
{
    reveal_strlit("focused");
    reveal_strlit("both");
    reveal_strlit("output:");
    match target {
        TargetView::Output(name) => {
            let setting = "output:"@ + name;
            assert(setting[0] == 'o');
            assert(setting != "focused"@ && setting != "both"@) by {
                assert("focused"@[0] == 'f');
                assert("both"@[0] == 'b');
            }
            assert(setting.take(7) =~= "output:"@);
            assert(setting.skip(7) =~= name);
            if name.len() == 0 {
                assert(name =~= Seq::<char>::empty());
            }
        },
        TargetView::Both => {
            assert("focused"@.len() == 7 && "both"@.len() == 4);
        },
        TargetView::Focused => {},
    }
}

/// The settings file that holds `existing`, if there is one, as a document.
pub open spec fn existing_settings(existing: Option<Seq<char>>) -> ParsedToml {
    match existing {
        Some(text) => crate::toml_text::parsed_table(text),
        None => ParsedToml::Document(DocumentView::Object(Map::empty())),
    }
}

/// The settings file that holds `existing` with `prefs` in it.
pub open spec fn stored_settings(existing: Option<Seq<char>>, prefs: PrefsView) -> ParsedToml {
    match existing_settings(existing) {
        ParsedToml::Refused(message) => ParsedToml::Refused(message),
        ParsedToml::Document(value) => ParsedToml::Document(
            DocumentView::Object(prefs.stored(value->Object_0)),
        ),
    }
}

/// `toml` can print the settings file that holds `existing` with `prefs` in it.
pub open spec fn can_store(existing: Option<Seq<char>>, prefs: PrefsView) -> bool {
    stored_settings(existing, prefs) matches ParsedToml::Document(stored)
        ==> crate::toml_text::printable(stored)
}

/// What comes of printing the settings file that holds `existing` with `prefs` in it: a file that is
/// no TOML holds invalid data.
pub open spec fn saved_settings(existing: Option<Seq<char>>, prefs: PrefsView) -> Result<
    Seq<char>,
    WireErrorView,
> {
    match stored_settings(existing, prefs) {
        ParsedToml::Refused(message) => Err(WireErrorView::invalid(message)),
        ParsedToml::Document(stored) => match crate::toml_text::printed_toml(stored) {
            PrintedToml::Text(text) => Ok(text),
            PrintedToml::Refused(message) => Err(
                WireErrorView { kind: ErrorKind::Other, message },
            ),
        },
    }
}

/// `written` is read as the settings of `existing` with `prefs` in them: the preferences are read
/// back as they were, each is there under its name, and every other setting is as it was. (An output
/// without a name is no preference.)
pub open spec fn reads_back(existing: Option<Seq<char>>, prefs: PrefsView, written: Seq<char>) -> bool {
    &&& existing_settings(existing) matches ParsedToml::Document(before)
    &&& crate::toml_text::parsed_toml(written) matches ParsedToml::Document(after)
    &&& after == DocumentView::Object(prefs.stored(before->Object_0))
    &&& forall|name: Seq<char>|
        !PrefsView::keeps(name) ==> #[trigger] after.field(name) == before.field(name)
    &&& forall|name: Seq<char>|
        PrefsView::keeps(name) ==> (#[trigger] after.field(name)) is Some
    &&& prefs.default_target != TargetView::Output(Seq::empty()) ==> ConfigView::read(
        written,
    ).prefs() == prefs
}

/// The name of a date stands before the names of the settings.
proof fn lemma_date_before_settings()
    ensures
        forall|name: Seq<char>| #[trigger]
            PrefsView::keeps(name) ==> crate::order::at_or_before(
                crate::toml_text::date_name(),
                name,
            ),
{
    reveal_strlit("$__toml_private_datetime");
    reveal_strlit("record_default_target");
    reveal_strlit("record_both_mode");
    reveal_strlit("record_cursor");
    reveal_strlit("record_show_frame");
    reveal_strlit("record_disk_add_to_shelf");
    reveal_strlit("record_audio_enabled");
    reveal_strlit("record_audio_source");
    assert forall|name: Seq<char>| #[trigger]
        PrefsView::keeps(name) implies crate::order::at_or_before(
        crate::toml_text::date_name(),
        name,
    ) by {
        assert(name.len() > 0 && name[0] == 'r');
        assert(crate::toml_text::date_name()[0] == '$');
    }
}

/// Settings that `toml` reads back are read back with preferences among them, too.
pub proof fn lemma_prefs_storable(prefs: PrefsView, fields: Map<Seq<char>, DocumentView>)
    requires
        crate::toml_text::storable(DocumentView::Object(fields)),
    ensures
        crate::toml_text::storable(DocumentView::Object(prefs.stored(fields))),
{
    lemma_setting_names();
    reveal_strlit("$__toml_private_datetime");
    let date = crate::toml_text::date_name();
    reveal_strlit("record_disk_add_to_shelf");
    assert(date[0] == '$' && "record_disk_add_to_shelf"@[0] == 'r');
    let stored = prefs.stored(fields);
    if crate::toml_text::begins_with_date(stored) {
        lemma_date_before_settings();
        assert(!PrefsView::keeps(date));
        assert(fields.dom().contains(date) && fields[date] == stored[date]);
        assert forall|name: Seq<char>| #[trigger]
            fields.dom().contains(name) implies crate::toml_text::no_later(fields, date, name) by {
            assert(stored.dom().contains(name));
            assert(crate::toml_text::no_later(stored, date, name));
            if PrefsView::keeps(name) {
                assert(stored[name] is Text || stored[name] is Bool);
                assert(crate::toml_text::behind_name(stored[name]));
            } else {
                assert(fields[name] == stored[name]);
            }
        }
    }
    assert forall|name: Seq<char>| stored.dom().contains(name) implies crate::toml_text::field_storable(
        #[trigger] stored[name],
        crate::toml_text::MAX_NESTING as nat,
    ) by {
        if !PrefsView::keeps(name) {
            assert(stored[name] == fields[name]);
        } else {
            assert(stored[name] is Text || stored[name] is Bool);
        }
    }
}

/// A settings file that is not there yet is read back.
pub proof fn lemma_new_settings_storable(prefs: PrefsView)
    ensures
        stored_settings(None, prefs) matches ParsedToml::Document(stored)
            && crate::toml_text::storable(stored),
{
    lemma_prefs_storable(prefs, Map::empty());
}

/// What is in a text that may be missing.
pub open spec fn given(text: Option<&str>) -> Option<Seq<char>> {
    match text {
        Some(text) => Some(text@),
        None => None,
    }
}

/// The settings of `existing` with `prefs` in them.
fn stored_table(existing: Option<&str>, prefs: &RecordingPrefs) -> (r: Result<toml::Value, String>)
    ensures
        stored_settings(given(existing), prefs@) == (match r {
            Ok(table) => ParsedToml::Document(crate::toml_text::kept(table)),
            Err(message) => ParsedToml::Refused(message@),
        }),
        r matches Ok(table) ==> crate::toml_text::kept(table) is Object,
        existing_settings(given(existing)) matches ParsedToml::Document(before) ==> before is Object,
{
    let mut table = match existing {
        Some(text) => match table_from_str(text) {
            Ok(table) => table,
            Err(error) => {
                return Err(error);
            },
        },
        None => new_table(),
    };
    let ghost before = crate::toml_text::kept(table)->Object_0;
    let target = match &prefs.default_target {
        RecordDefaultTarget::Focused => "focused".to_owned(),
        RecordDefaultTarget::Output(name) => joined("output:", name.as_str()),
        RecordDefaultTarget::Both => "both".to_owned(),
    };
    insert(&mut table, "record_default_target", Setting::Text(target));
    let both_mode = match prefs.both_mode {
        RecordBothMode::Separate => "separate",
        RecordBothMode::Combined => "combined",
    };
    insert(&mut table, "record_both_mode", Setting::Text(both_mode.to_owned()));
    insert(&mut table, "record_cursor", Setting::Text(prefs.cursor.key().to_owned()));
    insert(&mut table, "record_show_frame", Setting::Flag(prefs.show_frame));
    insert(&mut table, "record_disk_add_to_shelf", Setting::Flag(prefs.disk_add_to_shelf));
    insert(&mut table, "record_audio_enabled", Setting::Flag(prefs.audio_enabled));
    let audio_source = match prefs.audio_source {
        RecordAudioSource::SystemAndMic => "system-and-mic",
        RecordAudioSource::Mic => "mic",
        RecordAudioSource::System => "system",
    };
    insert(&mut table, "record_audio_source", Setting::Text(audio_source.to_owned()));
    proof {
        assert(crate::toml_text::kept(table) == DocumentView::Object(prefs@.stored(before)));
    }
    Ok(table)
}

/// The text of a settings file that holds `prefs` and everything else that `existing`, the text of
/// the file so far, holds. A file that cannot be read is left alone: its error comes back.
///
/// What is written is read back, where nothing in it is nested deeper than `toml` follows and no
/// table in it begins with the name by which `toml` tells a date. A text in it may not have more quotes in a row than `toml` can count: [`try_save_recording_prefs`] looks.
pub fn save_recording_prefs(existing: Option<&str>, prefs: &RecordingPrefs) -> (r: Result<
    String,
    WireError,
>)
    requires
        can_store(given(existing), prefs@),
    ensures
        saved_settings(given(existing), prefs@) == (match r {
            Ok(written) => Ok(written@),
            Err(error) => Err(error@),
        }),
        r matches Ok(written) ==> (stored_settings(given(existing), prefs@)
            matches ParsedToml::Document(stored) && crate::toml_text::storable(stored)) ==> reads_back(
            given(existing),
            prefs@,
            written@,
        ),
{
    let table = match stored_table(existing, prefs) {
        Ok(table) => table,
        Err(message) => {
            return Err(WireError { kind: ErrorKind::InvalidData, message });
        },
    };
    proof {
        let before = existing_settings(given(existing))->Document_0;
        let fields = before->Object_0;
        let after = DocumentView::Object(prefs@.stored(fields));
        lemma_setting_names();
        if prefs@.default_target != TargetView::Output(Seq::empty()) {
            lemma_prefs_stored(prefs@, fields);
        }
        assert forall|name: Seq<char>| !PrefsView::keeps(name) implies #[trigger] after.field(name)
            == before.field(name) by {}
        assert forall|name: Seq<char>| PrefsView::keeps(name) implies (#[trigger] after.field(
            name,
        )) is Some by {}
    }
    match to_string_pretty(&table) {
        Ok(written) => Ok(written),
        Err(message) => Err(WireError { kind: ErrorKind::Other, message }),
    }
}

/// What [`save_recording_prefs`] makes of any settings file: `None` where a text in it has more
/// quotes in a row than `toml` can count.
pub fn try_save_recording_prefs(existing: Option<&str>, prefs: &RecordingPrefs) -> (r: Option<
    Result<String, WireError>,
>)
    ensures
        r is Some <==> can_store(given(existing), prefs@),
        r matches Some(saved) ==> saved_settings(given(existing), prefs@) == (match saved {
            Ok(written) => Ok(written@),
            Err(error) => Err(error@),
        }),
        r matches Some(Ok(written)) ==> (stored_settings(given(existing), prefs@)
            matches ParsedToml::Document(stored) && crate::toml_text::storable(stored)) ==> reads_back(
            given(existing),
            prefs@,
            written@,
        ),
{
    match stored_table(existing, prefs) {
        Ok(table) => if !can_print(&from_value(&table)) {
            return None;
        },
        Err(_) => {},
    }
    Some(save_recording_prefs(existing, prefs))
}

/// The settings of instant replay.
#[derive(Clone, Debug, PartialEq, Eq)]
pub struct Settings {
    pub seconds: u64,
    pub memory_mib: usize,
    pub fps: u32,
    pub encoder: String,
    pub output: Option<String>,
    pub autostart: bool,
}

/// What [`Settings`] say.
pub struct SettingsView {
    pub seconds: u64,
    pub memory_mib: usize,
    pub fps: u32,
    pub encoder: Seq<char>,
    pub output: Option<Seq<char>>,
    pub autostart: bool,
}

impl SettingsView {
    /// What holds where nothing is set.
    pub open spec fn unset() -> SettingsView {
        SettingsView {
            seconds: 60,
            memory_mib: 512,
            fps: 60,
            encoder: "auto"@,
            output: None,
            autostart: false,
        }
    }

    /// The number in field `name` of the replay settings, from `min` to `max`.
    pub open spec fn number(
        value: DocumentView,
        name: Seq<char>,
        default: u64,
        min: u64,
        max: u64,
    ) -> Result<u64, Seq<char>> {
        if value.field(name) is None {
            Ok(default)
        } else {
            match value.i64_at(name) {
                Some(number) if number >= 0 => if min <= number <= max {
                    Ok(number as u64)
                } else {
                    Err(
                        "replay "@ + name + " must be "@ + crate::text::decimal(min as nat) + ".."@
                            + crate::text::decimal(max as nat),
                    )
                },
                _ => Err("invalid replay "@ + name),
            }
        }
    }

    /// The text in field `name` of the replay settings, or `default` where it is not set.
    pub open spec fn text(
        value: DocumentView,
        name: Seq<char>,
        default: Option<Seq<char>>,
    ) -> Result<Option<Seq<char>>, Seq<char>> {
        match value.field(name) {
            None => Ok(default),
            Some(DocumentView::Text(text)) if text.len() > 0 => Ok(Some(text)),
            Some(_) => Err("invalid replay "@ + name),
        }
    }

    /// The settings in the table `value`.
    pub open spec fn in_table(value: DocumentView) -> Result<SettingsView, Seq<char>> {
        match SettingsView::number(value, "duration_seconds"@, 60, 1, 600) {
            Err(error) => Err(error),
            Ok(seconds) => match SettingsView::number(value, "memory_mib"@, 512, 64, 4096) {
                Err(error) => Err(error),
                Ok(memory_mib) => match SettingsView::number(value, "fps"@, 60, 1, 240) {
                    Err(error) => Err(error),
                    Ok(fps) => match SettingsView::text(value, "encoder"@, Some("auto"@)) {
                        Err(error) => Err(error),
                        Ok(encoder) => match SettingsView::text(value, "output"@, None) {
                            Err(error) => Err(error),
                            Ok(output) => if value.field("autostart"@) is Some && value.bool_at(
                                "autostart"@,
                            ) is None {
                                Err("invalid replay autostart"@)
                            } else {
                                Ok(
                                    SettingsView {
                                        seconds,
                                        memory_mib: memory_mib as usize,
                                        fps: fps as u32,
                                        encoder: encoder->0,
                                        output,
                                        autostart: value.bool_at("autostart"@).unwrap_or(false),
                                    },
                                )
                            },
                        },
                    },
                },
            },
        }
    }

    /// The settings in a text.
    pub open spec fn read(text: Seq<char>) -> Result<SettingsView, Seq<char>> {
        match crate::toml_text::parsed_toml(text) {
            ParsedToml::Refused(message) => Err("invalid config: "@ + message),
            ParsedToml::Document(value) => match value.field("replay"@) {
                None => Ok(SettingsView::unset()),
                Some(table) => if table is Object {
                    SettingsView::in_table(table)
                } else {
                    Err("replay must be a settings table"@)
                },
            },
        }
    }
}

/// Settings that are read keep to their limits.
pub proof fn lemma_settings_limits(text: Seq<char>)
    ensures
        SettingsView::read(text) matches Ok(settings) ==> {
            &&& 1 <= settings.seconds <= 600
            &&& 64 <= settings.memory_mib <= 4096
            &&& 1 <= settings.fps <= 240
            &&& settings.encoder.len() > 0
            &&& settings.output matches Some(output) ==> output.len() > 0
        },
{
    reveal_strlit("auto");
}

impl Settings {
    /// What the settings say.
    pub open spec fn view(&self) -> SettingsView {
        SettingsView {
            seconds: self.seconds,
            memory_mib: self.memory_mib,
            fps: self.fps,
            encoder: self.encoder@,
            output: crate::text::view_of(self.output),
            autostart: self.autostart,
        }
    }
}

impl Default for Settings {
    fn default() -> (r: Self)
        ensures
            r@ == SettingsView::unset(),
    {
        Settings {
            seconds: 60,
            memory_mib: 512,
            fps: 60,
            encoder: "auto".to_owned(),
            output: None,
            autostart: false,
        }
    }
}

/// The number in the field `name` of the replay settings, from `min` to `max`.
fn replay_number(value: &Document, name: &str, default: u64, min: u64, max: u64) -> (r: Result<
    u64,
    String,
>)
    requires
        max <= i64::MAX,
    ensures
        SettingsView::number(value@, name@, default, min, max) == (match r {
            Ok(number) => Ok(number),
            Err(error) => Err(error@),
        }),
{
    if value.get(name).is_none() {
        return Ok(default);
    }
    match value.i64_at(name) {
        Some(number) => if number >= 0 {
            if min <= number as u64 && number as u64 <= max {
                return Ok(number as u64);
            }
            let mut message: String = joined("replay ", name);
            message.append(" must be ");
            message.append(decimal_string(min as u128).as_str());
            message.append("..");
            message.append(decimal_string(max as u128).as_str());
            return Err(message);
        },
        None => {},
    }
    Err(joined("invalid replay ", name))
}

/// The text in the field `name` of the replay settings, or `default` where it is not set.
fn replay_text(value: &Document, name: &str, default: Option<String>) -> (r: Result<
    Option<String>,
    String,
>)
    ensures
        SettingsView::text(value@, name@, crate::text::view_of(default)) == (match r {
            Ok(text) => Ok(crate::text::view_of(text)),
            Err(error) => Err(error@),
        }),
{
    match value.get(name) {
        None => Ok(default),
        Some(Document::Text(text)) => if text.as_str().is_empty() {
            Err(joined("invalid replay ", name))
        } else {
            Ok(Some(text.clone()))
        },
        Some(_) => Err(joined("invalid replay ", name)),
    }
}

impl Config {
    /// The settings of instant replay, given what came of reading the file: one that is not there
    /// is taken as empty.
    pub fn replay_settings(read: Result<Option<&str>, String>) -> (r: Result<Settings, String>)
        ensures
            (match read {
                Ok(Some(text)) => SettingsView::read(text@),
                Ok(None) => SettingsView::read(""@),
                Err(error) => Err("read replay settings: "@ + error@),
            }) == (match r {
                Ok(settings) => Ok(settings@),
                Err(error) => Err(error@),
            }),
    {
        match read {
            Ok(Some(text)) => Config::parse_replay_settings(text),
            Ok(None) => Config::parse_replay_settings(""),
            Err(error) => Err(joined("read replay settings: ", error.as_str())),
        }
    }

    /// The settings of instant replay in `text`, each within its limits.
    pub fn parse_replay_settings(text: &str) -> (r: Result<Settings, String>)
        ensures
            SettingsView::read(text@) == (match r {
                Ok(settings) => Ok(settings@),
                Err(error) => Err(error@),
            }),
    {
        let value = match parse_toml(text) {
            Err(message) => {
                return Err(joined("invalid config: ", message.as_str()));
            },
            Ok(value) => value,
        };
        let table = match value.get("replay") {
            None => {
                return Ok(Settings::default());
            },
            Some(table) => table,
        };
        match table {
            Document::Object(_) => {},
            _ => {
                return Err("replay must be a settings table".to_owned());
            },
        }
        let seconds: u64 = match replay_number(table, "duration_seconds", 60, 1, 600) {
            Err(error) => {
                return Err(error);
            },
            Ok(seconds) => seconds,
        };
        let memory_mib: u64 = match replay_number(table, "memory_mib", 512, 64, 4096) {
            Err(error) => {
                return Err(error);
            },
            Ok(memory_mib) => memory_mib,
        };
        let fps: u64 = match replay_number(table, "fps", 60, 1, 240) {
            Err(error) => {
                return Err(error);
            },
            Ok(fps) => fps,
        };
        let encoder = match replay_text(table, "encoder", Some("auto".to_owned())) {
            Err(error) => {
                return Err(error);
            },
            Ok(encoder) => encoder,
        };
        let output = match replay_text(table, "output", None) {
            Err(error) => {
                return Err(error);
            },
            Ok(output) => output,
        };
        let autostart: bool = match table.get("autostart") {
            None => false,
            Some(Document::Bool(autostart)) => *autostart,
            Some(_) => {
                return Err("invalid replay autostart".to_owned());
            },
        };
        Ok(
            Settings {
                seconds,
                memory_mib: memory_mib as usize,
                fps: fps as u32,
                encoder: match encoder {
                    Some(encoder) => encoder,
                    None => String::new(),
                },
                output,
                autostart,
            },
        )
    }
}

/// Where the settings file is.
pub fn config_path(environment: &Environment) -> (r: String)
    ensures
        r@ == crate::paths::joined(environment.config_dir@, "config.toml"@),
{
    join(environment.config_dir.as_str(), "config.toml")
}

/// A character may stand in the name of a variable: in braces anything but the closing one.
pub open spec fn names_variable(c: char, braced: bool) -> bool {
    if braced {
        c != '}'
    } else {
        crate::text::is_alphanumeric(c) || c == '_'
    }
}

/// The end of the variable's name that begins at `at`.
pub open spec fn name_end(raw: Seq<char>, at: int, braced: bool) -> int
    decreases raw.len() - at,
{
    if 0 <= at < raw.len() && names_variable(raw[at], braced) {
        name_end(raw, at + 1, braced)
    } else {
        at
    }
}

/// A name ends within the text.
pub proof fn lemma_name_end(raw: Seq<char>, at: int, braced: bool)
    requires
        0 <= at <= raw.len(),
    ensures
        at <= name_end(raw, at, braced) <= raw.len(),
    decreases raw.len() - at,
{
    if at < raw.len() && names_variable(raw[at], braced) {
        lemma_name_end(raw, at + 1, braced);
    }
}

/// The `$` at `at` is followed by a name in braces.
pub open spec fn is_braced(raw: Seq<char>, at: int) -> bool {
    at + 1 < raw.len() && raw[at + 1] == '{'
}

/// Where the name of the variable at `at` begins.
pub open spec fn name_start(raw: Seq<char>, at: int) -> int {
    if is_braced(raw, at) {
        at + 2
    } else {
        at + 1
    }
}

/// Where the text goes on behind the variable at `at`: a missing brace at the end is forgiven.
pub open spec fn after_variable(raw: Seq<char>, at: int) -> int {
    let end = name_end(raw, name_start(raw, at), is_braced(raw, at));
    if is_braced(raw, at) && end < raw.len() {
        end + 1
    } else {
        end
    }
}

impl Environment {
    /// The value of the variable at `at` in `raw`; a variable that is not set is empty.
    pub open spec fn variable_at(&self, raw: Seq<char>, at: int) -> Seq<char> {
        let start = name_start(raw, at);
        match self.value(raw.subrange(start, name_end(raw, start, is_braced(raw, at)))) {
            Some(value) => value,
            None => Seq::empty(),
        }
    }

    /// What stands for `raw` from `at` on: a leading `~` is the home directory, `$NAME` and
    /// `${NAME}` are variables, anything else is itself.
    pub open spec fn expanded(&self, raw: Seq<char>, at: int) -> Seq<char>
        decreases raw.len() - at,
        when 0 <= at
    {
        if at >= raw.len() {
            Seq::empty()
        } else if raw[at] == '~' && at == 0 {
            self.home_dir@ + self.expanded(raw, at + 1)
        } else if raw[at] == '$' {
            proof {
                lemma_name_end(raw, name_start(raw, at), is_braced(raw, at));
            }
            self.variable_at(raw, at) + self.expanded(raw, after_variable(raw, at))
        } else {
            seq![raw[at]] + self.expanded(raw, at + 1)
        }
    }
}

/// `c` may stand in the name of a variable.
fn may_name(c: char, braced: bool) -> (r: bool)
    ensures
        r == names_variable(c, braced),
{
    if braced {
        c != '}'
    } else {
        ascii_alphanumeric(c) || c == '_'
    }
}

/// The end of the variable's name that begins at `at`.
fn find_name_end(raw: &Vec<char>, at: usize, braced: bool) -> (r: usize)
    requires
        at <= raw.len(),
    ensures
        at <= r <= raw.len(),
        r == name_end(raw@, at as int, braced),
{
    let mut i: usize = at;
    while i < raw.len() && may_name(raw[i], braced)
        invariant
            at <= i <= raw.len(),
            name_end(raw@, at as int, braced) == name_end(raw@, i as int, braced),
        decreases raw.len() - i,
    {
        i = i + 1;
    }
    i
}

/// `raw` with a leading `~` as the home directory and `$NAME` and `${NAME}` as variables of the
/// environment. A variable that is not set is empty.
pub fn expand_path(raw: &str, environment: &Environment) -> (r: String)
    ensures
        r@ == environment.expanded(raw@, 0),
{
    let chars = chars_of(raw);
    let mut out: String = String::new();
    let mut i: usize = 0;
    while i < chars.len()
        invariant
            i <= chars.len(),
            chars@ == raw@,
            out@ + environment.expanded(raw@, i as int) == environment.expanded(raw@, 0),
        decreases chars.len() - i,
    {
        let ghost before = out@;
        let ghost at = i as int;
        let c = chars[i];
        if c == '~' && i == 0 {
            out.append(environment.home_dir.as_str());
            i = i + 1;
            proof {
                assert(before + (environment.home_dir@ + environment.expanded(raw@, at + 1)) =~= out@
                    + environment.expanded(raw@, at + 1));
            }
        } else if c == '$' {
            let braced: bool = i + 1 < chars.len() && chars[i + 1] == '{';
            let start: usize = if braced {
                i + 2
            } else {
                i + 1
            };
            let end: usize = find_name_end(&chars, start, braced);
            let name = slice_text(&chars, start, end);
            if let Some(value) = environment.var(name.as_str()) {
                out.append(value);
            }
            i = if braced && end < chars.len() {
                end + 1
            } else {
                end
            };
            proof {
                assert(i == after_variable(raw@, at));
                assert(out@ =~= before + environment.variable_at(raw@, at));
                assert(before + (environment.variable_at(raw@, at) + environment.expanded(
                    raw@,
                    i as int,
                )) =~= out@ + environment.expanded(raw@, i as int));
            }
        } else {
            push(&mut out, c);
            i = i + 1;
            proof {
                assert(before + (seq![raw@[at]] + environment.expanded(raw@, at + 1)) =~= out@
                    + environment.expanded(raw@, at + 1));
            }
        }
    }
    proof {
        assert(out@ + Seq::<char>::empty() =~= out@);
    }
    out
}

/// Text without `~` at its start and without `$` stands for itself.
pub proof fn lemma_plain_path(environment: &Environment, raw: Seq<char>, at: int)
    requires
        0 <= at <= raw.len(),
        raw.len() > 0 ==> raw[0] != '~',
        forall|i: int| 0 <= i < raw.len() ==> raw[i] != '$',
    ensures
        environment.expanded(raw, at) == raw.skip(at),
    decreases raw.len() - at,
{
    if at < raw.len() {
        lemma_plain_path(environment, raw, at + 1);
        assert(seq![raw[at]] + raw.skip(at + 1) =~= raw.skip(at));
    } else {
        assert(raw.skip(at) =~= Seq::<char>::empty());
    }
}

impl Environment {
    /// The variable `name`, where it is set to something.
    pub open spec fn nonempty(&self, name: Seq<char>) -> Option<Seq<char>> {
        match self.value(name) {
            Some(value) if value.len() > 0 => Some(value),
            _ => None,
        }
    }

    /// Where screenshots on the shelf are saved: the flag, then the variable, then the settings,
    /// then the usual directory.
    pub open spec fn save_dir(&self, flag: Option<Seq<char>>, config: ConfigView) -> Seq<char> {
        match flag {
            Some(flag) => flag,
            None => match self.nonempty("BOLTSNAP_SAVE_DIR"@) {
                Some(value) => self.expanded(value, 0),
                None => match config.save_dir {
                    Some(dir) => self.expanded(dir, 0),
                    None => self.screenshot_dir@,
                },
            },
        }
    }
}

/// Where screenshots on the shelf are saved: the flag, then `BOLTSNAP_SAVE_DIR`, then the settings,
/// then the usual directory.
pub fn resolve_save_dir(cli: Option<&str>, config: &Config, environment: &Environment) -> (r: String)
    ensures
        r@ == environment.save_dir(
            match cli {
                Some(dir) => Some(dir@),
                None => None,
            },
            config@,
        ),
{
    if let Some(dir) = cli {
        return dir.to_owned();
    }
    if let Some(dir) = environment.var("BOLTSNAP_SAVE_DIR") {
        if !dir.is_empty() {
            return expand_path(dir, environment);
        }
    }
    match &config.save_dir {
        Some(dir) => expand_path(dir.as_str(), environment),
        None => environment.screenshot_dir.clone(),
    }
}

/// The encoder that is asked for: the flag, then `BOLTSNAP_RECORD_CODEC`, then the settings, then
/// `auto`.
pub fn resolve_record_codec(cli: Option<&str>, config: &Config, environment: &Environment) -> (r:
    String)
    ensures
        r@ == (match cli {
            Some(codec) => codec@,
            None => match environment.nonempty("BOLTSNAP_RECORD_CODEC"@) {
                Some(codec) => codec,
                None => match config@.record_codec {
                    Some(codec) => codec,
                    None => "auto"@,
                },
            },
        }),
{
    if let Some(codec) = cli {
        return codec.to_owned();
    }
    if let Some(codec) = environment.var("BOLTSNAP_RECORD_CODEC") {
        if !codec.is_empty() {
            return codec.to_owned();
        }
    }
    match &config.record_codec {
        Some(codec) => codec.clone(),
        None => "auto".to_owned(),
    }
}

/// Where recordings are saved: `record_dir`, or else where screenshots are saved.
pub fn resolve_record_dir(config: &Config, environment: &Environment) -> (r: String)
    ensures
        r@ == (match config@.record_dir {
            Some(dir) => environment.expanded(dir, 0),
            None => environment.save_dir(None, config@),
        }),
{
    match &config.record_dir {
        Some(dir) => expand_path(dir.as_str(), environment),
        None => resolve_save_dir(None, config, environment),
    }
}

/// A setting is read from the field of its own name, whatever the other fields hold; where there is
/// no such field, it is not set. A number that is none is told apart from one that is not set only
/// for the frame rate.
pub proof fn lemma_settings_by_name(
    fields: Map<Seq<char>, DocumentView>,
    text: Seq<char>,
    flag: bool,
    number: i64,
)
    ensures
        ({
            let config = ConfigView::described(DocumentView::Object(fields));
            let has = |name: Seq<char>, value: DocumentView| fields.dom().contains(name)
                && fields[name] == value;
            let lacks = |name: Seq<char>| !fields.dom().contains(name);
            &&& has("save_dir"@, DocumentView::Text(text)) ==> config.save_dir == Some(text)
            &&& has("record_codec"@, DocumentView::Text(text)) ==> config.record_codec == Some(text)
            &&& has("record_profile"@, DocumentView::Text(text)) ==> config.record_profile == Some(text)
            &&& has("record_dir"@, DocumentView::Text(text)) ==> config.record_dir == Some(text)
            &&& has("record_default_target"@, DocumentView::Text(text)) ==> config.record_default_target == Some(text)
            &&& has("record_both_mode"@, DocumentView::Text(text)) ==> config.record_both_mode == Some(text)
            &&& has("record_cursor"@, DocumentView::Text(text)) ==> config.record_cursor == Some(text)
            &&& has("record_audio_source"@, DocumentView::Text(text)) ==> config.record_audio_source == Some(text)
            &&& has("ui_font"@, DocumentView::Text(text)) ==> config.ui_font == Some(text)
            &&& has("record_show_frame"@, DocumentView::Bool(flag)) ==> config.record_show_frame == Some(flag)
            &&& has("record_disk_add_to_shelf"@, DocumentView::Bool(flag)) ==> config.record_disk_add_to_shelf == Some(flag)
            &&& has("record_audio_enabled"@, DocumentView::Bool(flag)) ==> config.record_audio_enabled == Some(flag)
            &&& lacks("save_dir"@) ==> config.save_dir is None
            &&& lacks("record_codec"@) ==> config.record_codec is None
            &&& lacks("record_profile"@) ==> config.record_profile is None
            &&& lacks("record_fps"@) ==> config.record_fps is None
            &&& lacks("record_dir"@) ==> config.record_dir is None
            &&& lacks("record_default_target"@) ==> config.record_default_target is None
            &&& lacks("record_both_mode"@) ==> config.record_both_mode is None
            &&& lacks("record_cursor"@) ==> config.record_cursor is None
            &&& lacks("record_show_frame"@) ==> config.record_show_frame is None
            &&& lacks("record_disk_add_to_shelf"@) ==> config.record_disk_add_to_shelf is None
            &&& lacks("record_audio_enabled"@) ==> config.record_audio_enabled is None
            &&& lacks("record_audio_source"@) ==> config.record_audio_source is None
            &&& lacks("record_shelf_to_disk_after_seconds"@) ==> config.record_shelf_to_disk_after_seconds is None
            &&& lacks("ui_font"@) ==> config.ui_font is None
            &&& has("record_fps"@, DocumentView::Number(number as int)) ==> config.record_fps
                == Some(Some(number))
            &&& has("record_fps"@, DocumentView::Text(text)) ==> config.record_fps == Some(
                None::<i64>,
            )
            &&& has("record_shelf_to_disk_after_seconds"@, DocumentView::Number(number as int))
                ==> config.record_shelf_to_disk_after_seconds == Some(number)
            &&& has("save_dir"@, DocumentView::Bool(flag)) ==> config.save_dir is None
            &&& has("record_show_frame"@, DocumentView::Text(text)) ==> config.record_show_frame
                is None
        }),
{
}

/// What a text that cannot be read sets, and what is set without a file: nothing.
pub proof fn lemma_unreadable(text: Option<&str>, config: Config)
    requires
        call_ensures(Config::load, (text,), config),
        text matches Some(text) ==> crate::toml_text::parsed_toml(text@) is Refused,
    ensures
        config@ == ConfigView::described(DocumentView::Object(Map::empty())),
{
}

/// What the preferences are, setting by setting: each value that a setting knows has its meaning,
/// and any other is as if nothing was set.
pub proof fn lemma_prefs(config: &Config, prefs: RecordingPrefs)
    requires
        call_ensures(Config::recording_prefs, (config,), prefs),
    ensures
        prefs@.both_mode == RecordBothMode::Combined <==> config@.record_both_mode == Some(
            "combined"@,
        ),
        prefs@.audio_source == RecordAudioSource::Mic <==> config@.record_audio_source == Some(
            "mic"@,
        ),
        prefs@.audio_source == RecordAudioSource::System <==> config@.record_audio_source == Some(
            "system"@,
        ),
        prefs@.cursor == RecordCursor::Mellow <==> config@.record_cursor == Some("mellow"@),
        prefs@.cursor == RecordCursor::Quick <==> config@.record_cursor == Some("quick"@),
        !prefs@.show_frame <==> config@.record_show_frame == Some(false),
        !prefs@.disk_add_to_shelf <==> config@.record_disk_add_to_shelf == Some(false),
        !prefs@.audio_enabled <==> config@.record_audio_enabled == Some(false),
        prefs@.default_target is Both <==> config@.record_default_target == Some("both"@),
        prefs@.default_target matches TargetView::Output(name) ==> name.len() > 0
            && config@.record_default_target == Some("output:"@ + name),
        forall|name: Seq<char>|
            name.len() > 0 && config@.record_default_target == Some(#[trigger] ("output:"@ + name))
                ==> prefs@.default_target == TargetView::Output(name),
{
    reveal_strlit("mic");
    reveal_strlit("system");
    reveal_strlit("mellow");
    reveal_strlit("quick");
    reveal_strlit("both");
    reveal_strlit("focused");
    reveal_strlit("output:");
    assert("mic"@.len() == 3);
    assert("system"@.len() == 6);
    assert("mellow"@.len() == 6);
    assert("quick"@.len() == 5);
    assert("both"@.len() == 4);
    assert("focused"@.len() == 7);
    assert("output:"@.len() == 7);
    assert("system"@[0] != "mellow"@[0]);
    assert("focused"@[0] != "output:"@[0]);
    if let Some(target) = config@.record_default_target {
        if let Some(name) = crate::text::without_prefix(target, "output:"@) {
            assert(target =~= "output:"@ + name);
        }
    }
    assert forall|name: Seq<char>|
        name.len() > 0 && config@.record_default_target == Some(
            #[trigger] ("output:"@ + name),
        ) implies prefs@.default_target == TargetView::Output(name) by {
        lemma_target_setting(TargetView::Output(name));
    }
}

/// The frame rate of recordings: the number that is set, where it is from 1 to 240, or else that of
/// the profile, of which there are two.
pub proof fn lemma_profile(config: &Config, profile: Result<RecordProfile, String>, fps: u32)
    requires
        call_ensures(Config::record_profile, (config,), profile),
        profile is Ok ==> call_ensures(RecordProfile::fps, (profile->Ok_0,), fps),
    ensures
        config@.record_fps matches Some(Some(number)) ==> (profile is Ok <==> 1 <= number <= 240),
        config@.record_fps matches Some(Some(number)) ==> (profile is Ok ==> fps == number),
        config@.record_fps == Some(None::<i64>) ==> profile is Err,
        config@.record_fps is None ==> {
            &&& config@.record_profile is None ==> profile is Ok && fps == 240
            &&& config@.record_profile == Some("quality"@) ==> profile is Ok && fps == 240
            &&& config@.record_profile == Some("quiet"@) ==> profile is Ok && fps == 60
            &&& profile is Ok ==> config@.record_profile is None || config@.record_profile == Some(
                "quality"@,
            ) || config@.record_profile == Some("quiet"@)
        },
{
    reveal_strlit("quality");
    reveal_strlit("quiet");
    assert("quality"@.len() == 7);
    assert("quiet"@.len() == 5);
}

/// A recording on the shelf goes to disk after a minute unless another time is set, and never where
/// that is not above zero.
pub proof fn lemma_shelf_to_disk(config: &Config, after: Option<u64>)
    requires
        call_ensures(Config::shelf_to_disk_after, (config,), after),
    ensures
        after is None <==> (config@.record_shelf_to_disk_after_seconds matches Some(seconds)
            && seconds <= 0),
        after matches Some(seconds) ==> seconds > 0 && (config@.record_shelf_to_disk_after_seconds
            == Some(seconds as i64) || (config@.record_shelf_to_disk_after_seconds is None
            && seconds == 60)),
{
}

/// The settings of replay are read from the fields of their own names, each within its limits; what
/// is not set is as it is without a table.
pub proof fn lemma_replay_settings(text: &str, read: Result<Settings, String>)
    requires
        call_ensures(Config::parse_replay_settings, (text,), read),
    ensures
        ({
            let parsed = crate::toml_text::parsed_toml(text@);
            &&& parsed is Refused ==> read is Err
            &&& parsed matches ParsedToml::Document(value) ==> {
                &&& value.field("replay"@) is None ==> (read matches Ok(settings) && settings.seconds
                    == 60 && settings.memory_mib == 512 && settings.fps == 60 && settings.encoder@
                    == "auto"@ && settings.output is None && !settings.autostart)
                &&& value.field("replay"@) matches Some(table) ==> {
                    let set = |name: Seq<char>| table.field(name) is Some;
                    let within = |name: Seq<char>, least: int, most: int| set(name) ==> (
                    table.field(name) matches Some(DocumentView::Number(number)) && least <= number
                        <= most);
                    let texts = |name: Seq<char>| set(name) ==> (table.field(name) matches Some(
                        DocumentView::Text(text),
                    ) && text.len() > 0);
                    &&& read is Ok <==> table is Object && within("duration_seconds"@, 1, 600)
                        && within("memory_mib"@, 64, 4096) && within("fps"@, 1, 240) && texts(
                        "encoder"@,
                    ) && texts("output"@) && (set("autostart"@) ==> table.field("autostart"@)->Some_0
                        is Bool)
                    &&& read matches Ok(settings) ==> {
                        &&& set("duration_seconds"@) ==> table.field("duration_seconds"@) == Some(
                            DocumentView::Number(settings.seconds as int),
                        )
                        &&& !set("duration_seconds"@) ==> settings.seconds == 60
                        &&& set("memory_mib"@) ==> table.field("memory_mib"@) == Some(
                            DocumentView::Number(settings.memory_mib as int),
                        )
                        &&& !set("memory_mib"@) ==> settings.memory_mib == 512
                        &&& set("fps"@) ==> table.field("fps"@) == Some(
                            DocumentView::Number(settings.fps as int),
                        )
                        &&& !set("fps"@) ==> settings.fps == 60
                        &&& set("encoder"@) ==> table.field("encoder"@) == Some(
                            DocumentView::Text(settings.encoder@),
                        )
                        &&& !set("encoder"@) ==> settings.encoder@ == "auto"@
                        &&& set("output"@) <==> settings.output is Some
                        &&& settings.output matches Some(output) ==> table.field("output"@) == Some(
                            DocumentView::Text(output@),
                        )
                        &&& settings.autostart <==> table.field("autostart"@) == Some(
                            DocumentView::Bool(true),
                        )
                    }
                }
            }
        }),
{
}

/// Replay settings that cannot be read are told as such; a file that is not there holds none.
pub proof fn lemma_replay_file(read: Result<Option<&str>, String>, settings: Result<Settings, String>)
    requires
        call_ensures(Config::replay_settings, (read,), settings),
    ensures
        read is Err ==> settings is Err,
        read matches Ok(Some(text)) ==> SettingsView::read(text@) == (match settings {
            Ok(settings) => Ok(settings@),
            Err(error) => Err(error@),
        }),
        read matches Err(error) ==> (settings matches Err(message) && crate::text::has_suffix(
            message@,
            error@,
        )),
{
    if let Err(error) = read {
        let message = settings->Err_0@;
        assert(message.skip(message.len() - error@.len()) =~= error@);
    }
}

/// The end of a variable's name is the first character that cannot stand in it.
proof fn lemma_name_ends(raw: Seq<char>, at: int, end: int, braced: bool)
    requires
        0 <= at <= end <= raw.len(),
        forall|i: int| at <= i < end ==> names_variable(#[trigger] raw[i], braced),
        end == raw.len() || !names_variable(raw[end], braced),
    ensures
        name_end(raw, at, braced) == end,
    decreases end - at,
{
    if at < end {
        assert(names_variable(raw[at], braced));
        lemma_name_ends(raw, at + 1, end, braced);
    }
}

/// What a path stands for, piece by piece. A tilde is the home directory where the path begins with
/// it. A name in braces behind a dollar sign is the value of that variable, and so is a name of
/// letters, digits and underscores without them. Anything else stands for itself.
pub proof fn lemma_expanded_pieces(
    environment: &Environment,
    raw: Seq<char>,
    at: int,
    name: Seq<char>,
)
    requires
        0 <= at < raw.len(),
    ensures
        raw[at] == '~' && at == 0 ==> environment.expanded(raw, at) == environment.home_dir@
            + environment.expanded(raw, 1),
        raw[at] != '$' && (raw[at] != '~' || at > 0) ==> environment.expanded(raw, at) == seq![
            raw[at],
        ] + environment.expanded(raw, at + 1),
        !name.contains('}') && crate::text::stands_at(raw, "${"@ + name + "}"@, at)
            ==> environment.expanded(raw, at) == environment.variable(name) + environment.expanded(
            raw,
            at + name.len() + 3,
        ),
        (forall|i: int|
            0 <= i < name.len() ==> crate::text::is_alphanumeric(#[trigger] name[i]) || name[i]
                == '_') && crate::text::stands_at(raw, "$"@ + name, at) && (at + 1 + name.len()
            == raw.len() || !(crate::text::is_alphanumeric(raw[at + 1 + name.len()]) || raw[at + 1
            + name.len()] == '_' || (name.len() == 0 && raw[at + 1] == '{')))
            ==> environment.expanded(raw, at) == environment.variable(name) + environment.expanded(
            raw,
            at + 1 + name.len(),
        ),
{
    reveal_strlit("${");
    reveal_strlit("}");
    reveal_strlit("$");
    let braced = "${"@ + name + "}"@;
    if !name.contains('}') && crate::text::stands_at(raw, braced, at) {
        assert forall|i: int| 0 <= i < braced.len() implies raw[at + i] == #[trigger] braced[i] by {
            assert(raw.subrange(at, at + braced.len())[i] == raw[at + i]);
        }
        assert(braced[0] == '$' && braced[1] == '{' && braced[name.len() as int + 2] == '}');
        assert(raw[at] == '$' && raw[at + 1] == '{');
        assert forall|i: int| at + 2 <= i < at + 2 + name.len() implies names_variable(
            #[trigger] raw[i],
            true,
        ) by {
            assert(braced[i - at] == name[i - at - 2]);
            assert(name.contains(name[i - at - 2]));
        }
        lemma_name_ends(raw, at + 2, at + 2 + name.len(), true);
        assert(raw.subrange(at + 2, at + 2 + name.len()) =~= name) by {
            assert forall|i: int| 0 <= i < name.len() implies raw[at + 2 + i] == name[i] by {
                assert(braced[i + 2] == name[i]);
            }
        }
    }
    let plain = "$"@ + name;
    if (forall|i: int|
        0 <= i < name.len() ==> crate::text::is_alphanumeric(#[trigger] name[i]) || name[i] == '_')
        && crate::text::stands_at(raw, plain, at) && (at + 1 + name.len() == raw.len() || !(
    crate::text::is_alphanumeric(raw[at + 1 + name.len()]) || raw[at + 1 + name.len()] == '_' || (
    name.len() == 0 && raw[at + 1] == '{'))) {
        assert forall|i: int| 0 <= i < plain.len() implies raw[at + i] == #[trigger] plain[i] by {
            assert(raw.subrange(at, at + plain.len())[i] == raw[at + i]);
        }
        assert(plain[0] == '$');
        assert(raw[at] == '$');
        if name.len() > 0 {
            assert(plain[1] == name[0]);
            assert(raw[at + 1] == name[0]);
            assert(name[0] != '{');
        }
        assert forall|i: int| at + 1 <= i < at + 1 + name.len() implies names_variable(
            #[trigger] raw[i],
            false,
        ) by {
            assert(plain[i - at] == name[i - at - 1]);
        }
        lemma_name_ends(raw, at + 1, at + 1 + name.len(), false);
        assert(raw.subrange(at + 1, at + 1 + name.len()) =~= name) by {
            assert forall|i: int| 0 <= i < name.len() implies raw[at + 1 + i] == name[i] by {
                assert(plain[i + 1] == name[i]);
            }
        }
    }
}

impl Environment {
    /// What a variable stands for: nothing where it is not set.
    pub open spec fn variable(&self, name: Seq<char>) -> Seq<char> {
        match self.value(name) {
            Some(value) => value,
            None => Seq::empty(),
        }
    }
}

/// What is given on the command line goes before what the environment says, that before the
/// settings, and those before what holds without any. A variable that is set to nothing is as good
/// as none. The command line is taken as it stands.
pub proof fn lemma_precedence(
    flag: Option<&str>,
    config: &Config,
    environment: &Environment,
    dir: String,
    codec: String,
    records: String,
)
    requires
        call_ensures(resolve_save_dir, (flag, config, environment), dir),
        call_ensures(resolve_record_codec, (flag, config, environment), codec),
        call_ensures(resolve_record_dir, (config, environment), records),
    ensures
        flag matches Some(given) ==> dir@ == given@ && codec@ == given@,
        flag is None && environment.variable("BOLTSNAP_SAVE_DIR"@).len() > 0 ==> dir@
            == environment.expanded(environment.variable("BOLTSNAP_SAVE_DIR"@), 0),
        flag is None && environment.variable("BOLTSNAP_RECORD_CODEC"@).len() > 0 ==> codec@
            == environment.variable("BOLTSNAP_RECORD_CODEC"@),
        flag is None && environment.variable("BOLTSNAP_SAVE_DIR"@).len() == 0 ==> (
        config@.save_dir matches Some(set) ==> dir@ == environment.expanded(set, 0)),
        flag is None && environment.variable("BOLTSNAP_SAVE_DIR"@).len() == 0 && config@.save_dir
            is None ==> dir@ == environment.screenshot_dir@,
        flag is None && environment.variable("BOLTSNAP_RECORD_CODEC"@).len() == 0 ==> (
        config@.record_codec matches Some(set) ==> codec@ == set),
        flag is None && environment.variable("BOLTSNAP_RECORD_CODEC"@).len() == 0
            && config@.record_codec is None ==> codec@ == "auto"@,
        config@.record_dir matches Some(set) ==> records@ == environment.expanded(set, 0),
        config@.record_dir is None && flag is None ==> records@ == dir@,
{
}

/// The settings are in one file in the directory for them.
pub proof fn lemma_config_path(environment: &Environment, path: String)
    requires
        call_ensures(config_path, (environment,), path),
    ensures
        path@ == crate::paths::joined(environment.config_dir@, "config.toml"@),
{
}

/// A file for replay that is not there is read as an empty one.
pub proof fn lemma_no_replay_file(settings: Result<Settings, String>, empty: Result<Settings, String>)
    requires
        call_ensures(Config::replay_settings, (Ok(None),), settings),
        call_ensures(Config::parse_replay_settings, ("",), empty),
    ensures
        settings is Ok <==> empty is Ok,
        settings matches Ok(read) ==> read@ == empty->Ok_0@,
{
}

} // verus!
