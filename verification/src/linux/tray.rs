//! The menu in the desktop's tray.
use vstd::prelude::*;
use vstd::string::StringExecFns;

use crate::config::{RecordAudioSource, RecordBothMode, RecordDefaultTarget, RecordingPrefs};
use crate::config::{PrefsView, TargetView};
use crate::picture::read_png;
use crate::pixels::Rgba;
use crate::protocol::PublicRecordingState;
use crate::record::{focused_place, named_place, Monitor};
use crate::text::{contains, joined, same, trim};

verus! {

/// A place for one value, of which only the latest matters.
pub struct LatestValue<T> {
    pub value: Option<T>,
}

impl<T> LatestValue<T> {
    /// A place that holds nothing.
    pub fn new() -> (r: Self)
        ensures
            r.value is None,
    {
        LatestValue { value: None }
    }

    /// Puts a value there, in place of an older one.
    pub fn replace(&mut self, value: T)
        ensures
            final(self).value == Some(value),
    {
        self.value = Some(value);
    }

    /// Takes the value that was put there last.
    pub fn take(&mut self) -> (r: Option<T>)
        ensures
            r == old(self).value,
            final(self).value is None,
    {
        self.value.take()
    }
}

/// What the menu shows.
#[derive(Clone, Debug)]
pub struct TraySnapshot {
    pub prefs: RecordingPrefs,
    pub monitors: Vec<Monitor>,
    pub state: PublicRecordingState,
}

/// What the menu asks for.
#[derive(Clone, Debug)]
pub enum TrayAction {
    StartRegion,
    StartDefault,
    SetDefaultTarget(RecordDefaultTarget),
    SetBothMode(RecordBothMode),
    SetAudioSource(RecordAudioSource),
    SetShowFrame(bool),
    SetDiskAddToShelf(bool),
}

/// What a [`TrayAction`] says.
pub enum ActionView {
    StartRegion,
    StartDefault,
    SetDefaultTarget(TargetView),
    SetBothMode(RecordBothMode),
    SetAudioSource(RecordAudioSource),
    SetShowFrame(bool),
    SetDiskAddToShelf(bool),
}

impl TrayAction {
    /// What the action says.
    pub open spec fn view(&self) -> ActionView {
        match self {
            TrayAction::StartRegion => ActionView::StartRegion,
            TrayAction::StartDefault => ActionView::StartDefault,
            TrayAction::SetDefaultTarget(target) => ActionView::SetDefaultTarget(target@),
            TrayAction::SetBothMode(mode) => ActionView::SetBothMode(*mode),
            TrayAction::SetAudioSource(source) => ActionView::SetAudioSource(*source),
            TrayAction::SetShowFrame(show) => ActionView::SetShowFrame(*show),
            TrayAction::SetDiskAddToShelf(keep) => ActionView::SetDiskAddToShelf(*keep),
        }
    }
}

/// The parts of the menu that depend on the snapshot.
pub struct TrayMenuModel {
    pub start_region_enabled: bool,
    pub start_default_enabled: bool,
    pub default_labels: Vec<String>,
    pub default_selected: usize,
    pub both_mode_selected: usize,
    pub audio_source_selected: usize,
    pub show_frame: bool,
    pub disk_add_to_shelf: bool,
    pub settings_enabled: bool,
}

/// The labels of the sound sources.
pub open spec fn audio_labels() -> Seq<Seq<char>> {
    seq!["System + microphone"@, "Microphone only"@, "System only"@]
}

/// The labels of the sound sources.
pub fn audio_source_labels() -> (r: Vec<String>)
    ensures
        crate::text::views(r@) == audio_labels(),
{
    let mut labels: Vec<String> = Vec::new();
    labels.push("System + microphone".to_owned());
    labels.push("Microphone only".to_owned());
    labels.push("System only".to_owned());
    proof {
        assert(crate::text::views(labels@) =~= audio_labels());
    }
    labels
}

/// The sound source at a place in the menu.
pub open spec fn source_at(index: int) -> RecordAudioSource {
    if index == 1 {
        RecordAudioSource::Mic
    } else if index == 2 {
        RecordAudioSource::System
    } else {
        RecordAudioSource::SystemAndMic
    }
}

/// The place of a sound source in the menu.
pub open spec fn source_place(source: RecordAudioSource) -> int {
    match source {
        RecordAudioSource::SystemAndMic => 0,
        RecordAudioSource::Mic => 1,
        RecordAudioSource::System => 2,
    }
}

/// The sound source at a place in the menu.
pub fn audio_source_at(index: usize) -> (r: RecordAudioSource)
    ensures
        r == source_at(index as int),
{
    if index == 1 {
        RecordAudioSource::Mic
    } else if index == 2 {
        RecordAudioSource::System
    } else {
        RecordAudioSource::SystemAndMic
    }
}

/// The label of an output: its description, with its name behind it in brackets unless the
/// description says it already, or its name alone.
pub open spec fn label_of(monitor: Monitor) -> Seq<char> {
    let description = crate::text::trimmed(monitor.description@);
    let name = monitor.name@;
    if description.len() == 0 {
        name
    } else if description == name || crate::text::has_part(description, "("@ + name + ")"@) {
        description
    } else {
        description + " ("@ + name + ")"@
    }
}

/// The label of an output.
pub fn monitor_label(monitor: &Monitor) -> (r: String)
    ensures
        r@ == label_of(*monitor),
{
    let description: String = trim(monitor.description.as_str());
    if description.as_str().unicode_len() == 0 {
        return monitor.name.as_str().to_owned();
    }
    let mut bracketed: String = joined("(", monitor.name.as_str());
    bracketed.append(")");
    if same(description.as_str(), monitor.name.as_str()) || contains(
        description.as_str(),
        bracketed.as_str(),
    ) {
        return description;
    }
    let mut label: String = joined(description.as_str(), " (");
    label.append(monitor.name.as_str());
    label.append(")");
    label
}

/// The place that the menu marks for a target. One that is not connected is shown as what takes
/// its place: the focused output, or the first.
pub open spec fn marked(monitors: Seq<Monitor>, target: TargetView) -> int {
    let focused = if crate::record::focused_from(monitors, 0) < monitors.len() {
        crate::record::focused_from(monitors, 0)
    } else {
        0
    };
    match target {
        TargetView::Focused => focused,
        TargetView::Output(name) => if crate::record::named_from(monitors, name, 0) < monitors.len() {
            crate::record::named_from(monitors, name, 0)
        } else {
            focused
        },
        TargetView::Both => monitors.len() as int,
    }
}

/// The labels of the outputs, and one for both.
pub open spec fn target_labels(monitors: Seq<Monitor>) -> Seq<Seq<char>> {
    Seq::new(monitors.len(), |i: int| label_of(monitors[i])).push("Both displays"@)
}

impl TrayMenuModel {
    /// The menu shows what the snapshot says.
    pub open spec fn shows(
        &self,
        prefs: PrefsView,
        monitors: Seq<Monitor>,
        state: PublicRecordingState,
    ) -> bool {
        &&& self.start_region_enabled == (state == PublicRecordingState::Idle)
        &&& self.start_default_enabled == (state == PublicRecordingState::Idle)
        &&& crate::text::views(self.default_labels@) == target_labels(monitors)
        &&& self.default_selected == marked(monitors, prefs.default_target)
        &&& self.both_mode_selected == (if prefs.both_mode == RecordBothMode::Combined {
            1int
        } else {
            0
        })
        &&& self.audio_source_selected == source_place(prefs.audio_source)
        &&& self.show_frame == prefs.show_frame
        &&& self.disk_add_to_shelf == prefs.disk_add_to_shelf
        &&& self.settings_enabled
    }
}

/// The parts of the menu that depend on the snapshot.
pub fn menu_model(snapshot: &TraySnapshot) -> (r: TrayMenuModel)
    ensures
        r.shows(snapshot.prefs@, snapshot.monitors@, snapshot.state),
{
    let monitors = &snapshot.monitors;
    let first: usize = focused_place(monitors);
    let focused: usize = if first < monitors.len() {
        first
    } else {
        0
    };
    let default_selected: usize = match &snapshot.prefs.default_target {
        RecordDefaultTarget::Focused => focused,
        RecordDefaultTarget::Output(name) => {
            let place: usize = named_place(monitors, name.as_str());
            if place < monitors.len() {
                place
            } else {
                focused
            }
        },
        RecordDefaultTarget::Both => monitors.len(),
    };
    let mut labels: Vec<String> = Vec::new();
    let mut i: usize = 0;
    while i < monitors.len()
        invariant
            *monitors == snapshot.monitors,
            i <= monitors.len(),
            labels.len() == i,
            forall|j: int| 0 <= j < i ==> (#[trigger] labels@[j])@ == label_of(monitors@[j]),
        decreases monitors.len() - i,
    {
        labels.push(monitor_label(&monitors[i]));
        i = i + 1;
    }
    labels.push("Both displays".to_owned());
    proof {
        assert(crate::text::views(labels@) =~= target_labels(monitors@));
    }
    TrayMenuModel {
        start_region_enabled: snapshot.state == PublicRecordingState::Idle,
        start_default_enabled: snapshot.state == PublicRecordingState::Idle,
        default_labels: labels,
        default_selected,
        both_mode_selected: if snapshot.prefs.both_mode == RecordBothMode::Combined {
            1
        } else {
            0
        },
        audio_source_selected: match snapshot.prefs.audio_source {
            RecordAudioSource::SystemAndMic => 0,
            RecordAudioSource::Mic => 1,
            RecordAudioSource::System => 2,
        },
        show_frame: snapshot.prefs.show_frame,
        disk_add_to_shelf: snapshot.prefs.disk_add_to_shelf,
        settings_enabled: true,
    }
}

/// What an entry of the menu does when it is activated.
#[derive(Clone, Copy, Debug, PartialEq, Eq, Structural)]
pub enum TrayCommand {
    StartRegion,
    StartDefault,
    ToggleShowFrame,
    ToggleDiskAddToShelf,
}

/// What a group of options in the menu sets.
#[derive(Clone, Copy, Debug, PartialEq, Eq, Structural)]
pub enum TrayChoice {
    DefaultMonitor,
    BothMode,
    AudioSource,
}

/// An entry of the menu.
#[derive(Clone, Debug)]
pub enum MenuItem {
    Standard { label: String, enabled: bool, command: TrayCommand },
    Options {
        label: String,
        enabled: bool,
        selected: usize,
        options: Vec<String>,
        choice: TrayChoice,
    },
    Checkmark { label: String, enabled: bool, checked: bool, command: TrayCommand },
}

/// What a [`MenuItem`] says.
pub enum MenuItemView {
    Standard { label: Seq<char>, enabled: bool, command: TrayCommand },
    Options {
        label: Seq<char>,
        enabled: bool,
        selected: int,
        options: Seq<Seq<char>>,
        choice: TrayChoice,
    },
    Checkmark { label: Seq<char>, enabled: bool, checked: bool, command: TrayCommand },
}

impl MenuItem {
    /// What the entry says.
    pub open spec fn view(&self) -> MenuItemView {
        match self {
            MenuItem::Standard { label, enabled, command } => MenuItemView::Standard {
                label: label@,
                enabled: *enabled,
                command: *command,
            },
            MenuItem::Options { label, enabled, selected, options, choice } => {
                MenuItemView::Options {
                    label: label@,
                    enabled: *enabled,
                    selected: *selected as int,
                    options: crate::text::views(options@),
                    choice: *choice,
                }
            },
            MenuItem::Checkmark { label, enabled, checked, command } => MenuItemView::Checkmark {
                label: label@,
                enabled: *enabled,
                checked: *checked,
                command: *command,
            },
        }
    }
}

/// The entries of the menu.
pub open spec fn entries(
    prefs: PrefsView,
    monitors: Seq<Monitor>,
    state: PublicRecordingState,
) -> Seq<MenuItemView> {
    let idle = state == PublicRecordingState::Idle;
    seq![
        MenuItemView::Standard {
            label: "Start region recording"@,
            enabled: idle,
            command: TrayCommand::StartRegion,
        },
        MenuItemView::Standard {
            label: "Start fullscreen recording"@,
            enabled: idle,
            command: TrayCommand::StartDefault,
        },
        MenuItemView::Options {
            label: "Default monitor"@,
            enabled: true,
            selected: marked(monitors, prefs.default_target),
            options: target_labels(monitors),
            choice: TrayChoice::DefaultMonitor,
        },
        MenuItemView::Options {
            label: "Both displays mode"@,
            enabled: true,
            selected: if prefs.both_mode == RecordBothMode::Combined {
                1
            } else {
                0
            },
            options: seq!["Separate clips"@, "Combined clip"@],
            choice: TrayChoice::BothMode,
        },
        MenuItemView::Options {
            label: "Audio source"@,
            enabled: true,
            selected: source_place(prefs.audio_source),
            options: audio_labels(),
            choice: TrayChoice::AudioSource,
        },
        MenuItemView::Checkmark {
            label: "Show recording frame"@,
            enabled: true,
            checked: prefs.show_frame,
            command: TrayCommand::ToggleShowFrame,
        },
        MenuItemView::Checkmark {
            label: "Video: Move to shelf after Disk Save"@,
            enabled: true,
            checked: prefs.disk_add_to_shelf,
            command: TrayCommand::ToggleDiskAddToShelf,
        },
    ]
}

/// The preferences after an entry was activated.
pub open spec fn activated(prefs: PrefsView, command: TrayCommand) -> PrefsView {
    match command {
        TrayCommand::ToggleShowFrame => PrefsView { show_frame: !prefs.show_frame, ..prefs },
        TrayCommand::ToggleDiskAddToShelf => PrefsView {
            disk_add_to_shelf: !prefs.disk_add_to_shelf,
            ..prefs
        },
        _ => prefs,
    }
}

/// The target at a place in the menu.
pub open spec fn target_at(monitors: Seq<Monitor>, index: int) -> TargetView {
    if 0 <= index < monitors.len() {
        TargetView::Output(monitors[index].name@)
    } else {
        TargetView::Both
    }
}

/// The preferences after an option was selected.
pub open spec fn selected(
    prefs: PrefsView,
    monitors: Seq<Monitor>,
    choice: TrayChoice,
    index: int,
) -> PrefsView {
    match choice {
        TrayChoice::DefaultMonitor => PrefsView {
            default_target: target_at(monitors, index),
            ..prefs
        },
        TrayChoice::BothMode => PrefsView {
            both_mode: if index == 0 {
                RecordBothMode::Separate
            } else {
                RecordBothMode::Combined
            },
            ..prefs
        },
        TrayChoice::AudioSource => PrefsView { audio_source: source_at(index), ..prefs },
    }
}

/// The place that a group of options marks.
pub open spec fn mark(prefs: PrefsView, monitors: Seq<Monitor>, choice: TrayChoice) -> int {
    match choice {
        TrayChoice::DefaultMonitor => marked(monitors, prefs.default_target),
        TrayChoice::BothMode => if prefs.both_mode == RecordBothMode::Combined {
            1
        } else {
            0
        },
        TrayChoice::AudioSource => source_place(prefs.audio_source),
    }
}

/// The number of options of a group.
pub open spec fn options(monitors: Seq<Monitor>, choice: TrayChoice) -> int {
    match choice {
        TrayChoice::DefaultMonitor => monitors.len() as int + 1,
        TrayChoice::BothMode => 2,
        TrayChoice::AudioSource => 3,
    }
}

/// The first output of a name that no earlier one has.
proof fn lemma_named(monitors: Seq<Monitor>, at: int, index: int)
    requires
        0 <= at <= index < monitors.len(),
        forall|i: int| at <= i < index ==> (#[trigger] monitors[i]).name@ != monitors[index].name@,
    ensures
        crate::record::named_from(monitors, monitors[index].name@, at) == index,
    decreases index - at,
{
    if at < index {
        assert(monitors[at].name@ != monitors[index].name@);
        lemma_named(monitors, at + 1, index);
    }
}

/// An option that was selected is the one that the menu marks, where no two outputs share a name.
pub proof fn lemma_selected_is_marked(
    prefs: PrefsView,
    monitors: Seq<Monitor>,
    choice: TrayChoice,
    index: int,
)
    requires
        0 <= index < options(monitors, choice),
        forall|i: int, j: int|
            0 <= i < j < monitors.len() ==> (#[trigger] monitors[i]).name@ != (
            #[trigger] monitors[j]).name@,
    ensures
        mark(selected(prefs, monitors, choice, index), monitors, choice) == index,
{
    if choice == TrayChoice::DefaultMonitor && index < monitors.len() {
        lemma_named(monitors, 0, index);
    }
}

/// A check mark that was activated twice is as it was.
pub proof fn lemma_activated_twice(prefs: PrefsView, command: TrayCommand)
    ensures
        activated(activated(prefs, command), command) == prefs,
{
}

/// The mark of the default output is one of the menu's options.
pub proof fn lemma_mark_is_an_option(prefs: PrefsView, monitors: Seq<Monitor>, choice: TrayChoice)
    ensures
        0 <= mark(prefs, monitors, choice) < options(monitors, choice),
{
    crate::record::lemma_focused_range(monitors, 0);
    if let TargetView::Output(name) = prefs.default_target {
        crate::record::lemma_named_range(monitors, name, 0);
    }
}

/// The menu in the tray.
pub struct BoltsnapTray {
    pub snapshot: TraySnapshot,
}

impl BoltsnapTray {
    /// A menu that shows the snapshot.
    pub fn new(snapshot: TraySnapshot) -> (r: Self)
        ensures
            r.snapshot == snapshot,
    {
        BoltsnapTray { snapshot }
    }

    /// Makes the menu show another snapshot.
    pub fn set_snapshot(&mut self, snapshot: TraySnapshot)
        ensures
            final(self).snapshot == snapshot,
    {
        self.snapshot = snapshot;
    }

    /// The entries of the menu.
    pub fn menu(&self) -> (r: Vec<MenuItem>)
        ensures
            Seq::new(r@.len(), |i: int| r@[i]@) == entries(
                self.snapshot.prefs@,
                self.snapshot.monitors@,
                self.snapshot.state,
            ),
    {
        let model = menu_model(&self.snapshot);
        let mut items: Vec<MenuItem> = Vec::new();
        items.push(
            MenuItem::Standard {
                label: "Start region recording".to_owned(),
                enabled: model.start_region_enabled,
                command: TrayCommand::StartRegion,
            },
        );
        items.push(
            MenuItem::Standard {
                label: "Start fullscreen recording".to_owned(),
                enabled: model.start_default_enabled,
                command: TrayCommand::StartDefault,
            },
        );
        items.push(
            MenuItem::Options {
                label: "Default monitor".to_owned(),
                enabled: model.settings_enabled,
                selected: model.default_selected,
                options: model.default_labels,
                choice: TrayChoice::DefaultMonitor,
            },
        );
        let mut modes: Vec<String> = Vec::new();
        modes.push("Separate clips".to_owned());
        modes.push("Combined clip".to_owned());
        proof {
            assert(crate::text::views(modes@) =~= seq!["Separate clips"@, "Combined clip"@]);
        }
        items.push(
            MenuItem::Options {
                label: "Both displays mode".to_owned(),
                enabled: model.settings_enabled,
                selected: model.both_mode_selected,
                options: modes,
                choice: TrayChoice::BothMode,
            },
        );
        items.push(
            MenuItem::Options {
                label: "Audio source".to_owned(),
                enabled: model.settings_enabled,
                selected: model.audio_source_selected,
                options: audio_source_labels(),
                choice: TrayChoice::AudioSource,
            },
        );
        items.push(
            MenuItem::Checkmark {
                label: "Show recording frame".to_owned(),
                enabled: model.settings_enabled,
                checked: model.show_frame,
                command: TrayCommand::ToggleShowFrame,
            },
        );
        items.push(
            MenuItem::Checkmark {
                label: "Video: Move to shelf after Disk Save".to_owned(),
                enabled: model.settings_enabled,
                checked: model.disk_add_to_shelf,
                command: TrayCommand::ToggleDiskAddToShelf,
            },
        );
        proof {
            let shown = entries(
                self.snapshot.prefs@,
                self.snapshot.monitors@,
                self.snapshot.state,
            );
            assert(Seq::new(items@.len(), |i: int| items@[i]@) =~= shown);
        }
        items
    }

    /// Activates an entry, and says what is asked for.
    pub fn activate(&mut self, command: TrayCommand) -> (r: TrayAction)
        ensures
            final(self).snapshot.prefs@ == activated(old(self).snapshot.prefs@, command),
            final(self).snapshot.monitors == old(self).snapshot.monitors,
            final(self).snapshot.state == old(self).snapshot.state,
            r@ == (match command {
                TrayCommand::StartRegion => ActionView::StartRegion,
                TrayCommand::StartDefault => ActionView::StartDefault,
                TrayCommand::ToggleShowFrame => ActionView::SetShowFrame(
                    !old(self).snapshot.prefs.show_frame,
                ),
                TrayCommand::ToggleDiskAddToShelf => ActionView::SetDiskAddToShelf(
                    !old(self).snapshot.prefs.disk_add_to_shelf,
                ),
            }),
            command == TrayCommand::ToggleShowFrame ==> r@ == ActionView::SetShowFrame(
                final(self).snapshot.prefs@.show_frame,
            ) && final(self).snapshot.prefs@.show_frame != old(self).snapshot.prefs@.show_frame,
            command == TrayCommand::ToggleDiskAddToShelf ==> r@ == ActionView::SetDiskAddToShelf(
                final(self).snapshot.prefs@.disk_add_to_shelf,
            ) && final(self).snapshot.prefs@.disk_add_to_shelf
                != old(self).snapshot.prefs@.disk_add_to_shelf,
    {
        match command {
            TrayCommand::StartRegion => TrayAction::StartRegion,
            TrayCommand::StartDefault => TrayAction::StartDefault,
            TrayCommand::ToggleShowFrame => {
                self.snapshot.prefs.show_frame = !self.snapshot.prefs.show_frame;
                TrayAction::SetShowFrame(self.snapshot.prefs.show_frame)
            },
            TrayCommand::ToggleDiskAddToShelf => {
                self.snapshot.prefs.disk_add_to_shelf = !self.snapshot.prefs.disk_add_to_shelf;
                TrayAction::SetDiskAddToShelf(self.snapshot.prefs.disk_add_to_shelf)
            },
        }
    }

    /// The target at a place in the menu.
    fn target(&self, index: usize) -> (r: RecordDefaultTarget)
        ensures
            r@ == target_at(self.snapshot.monitors@, index as int),
    {
        if index < self.snapshot.monitors.len() {
            RecordDefaultTarget::Output(self.snapshot.monitors[index].name.as_str().to_owned())
        } else {
            RecordDefaultTarget::Both
        }
    }

    /// Selects an option, and says what is asked for.
    pub fn select(&mut self, choice: TrayChoice, index: usize) -> (r: TrayAction)
        ensures
            final(self).snapshot.prefs@ == selected(
                old(self).snapshot.prefs@,
                old(self).snapshot.monitors@,
                choice,
                index as int,
            ),
            final(self).snapshot.monitors == old(self).snapshot.monitors,
            final(self).snapshot.state == old(self).snapshot.state,
            r@ == (match choice {
                TrayChoice::DefaultMonitor => ActionView::SetDefaultTarget(
                    final(self).snapshot.prefs@.default_target,
                ),
                TrayChoice::BothMode => ActionView::SetBothMode(
                    final(self).snapshot.prefs@.both_mode,
                ),
                TrayChoice::AudioSource => ActionView::SetAudioSource(
                    final(self).snapshot.prefs@.audio_source,
                ),
            }),
    {
        match choice {
            TrayChoice::DefaultMonitor => {
                self.snapshot.prefs.default_target = self.target(index);
                TrayAction::SetDefaultTarget(self.target(index))
            },
            TrayChoice::BothMode => {
                let mode = if index == 0 {
                    RecordBothMode::Separate
                } else {
                    RecordBothMode::Combined
                };
                self.snapshot.prefs.both_mode = mode;
                TrayAction::SetBothMode(mode)
            },
            TrayChoice::AudioSource => {
                let source = audio_source_at(index);
                self.snapshot.prefs.audio_source = source;
                TrayAction::SetAudioSource(source)
            },
        }
    }
}

/// A picture for the tray.
pub struct Icon {
    pub width: i32,
    pub height: i32,
    pub data: Vec<u8>,
}

/// The bytes of pixels with the alpha byte of each before its colours.
pub open spec fn icon_bytes(pixels: Seq<Rgba>) -> Seq<u8> {
    Seq::new(
        4 * pixels.len(),
        |i: int|
            if i % 4 == 0 {
                pixels[i / 4].a
            } else if i % 4 == 1 {
                pixels[i / 4].r
            } else if i % 4 == 2 {
                pixels[i / 4].g
            } else {
                pixels[i / 4].b
            },
    )
}

/// The icon in a PNG file. One of more columns or rows than the tray can count is none.
pub fn tray_icon(png: &[u8]) -> (r: Option<Icon>)
    ensures
        match crate::picture::png_picture(png@) {
            Some(picture) if picture.width <= i32::MAX && picture.height <= i32::MAX => {
                &&& r matches Some(icon)
                &&& icon.width == picture.width
                &&& icon.height == picture.height
                &&& icon.data@ == icon_bytes(crate::picture::rgba_pixels(picture.bytes))
            },
            _ => r is None,
        },
{
    let image = match read_png(png) {
        Some(image) => image,
        None => {
            return None;
        },
    };
    if image.width > i32::MAX as u32 || image.height > i32::MAX as u32 {
        return None;
    }
    let mut data: Vec<u8> = Vec::new();
    let mut i: usize = 0;
    while i < image.pixels.len()
        invariant
            i <= image.pixels.len(),
            data@.len() == 4 * i,
            forall|j: int| 0 <= j < 4 * i ==> #[trigger] data@[j] == icon_bytes(image.pixels@)[j],
        decreases image.pixels.len() - i,
    {
        data.push(image.pixels[i].a);
        data.push(image.pixels[i].r);
        data.push(image.pixels[i].g);
        data.push(image.pixels[i].b);
        i = i + 1;
    }
    proof {
        assert(data@ =~= icon_bytes(image.pixels@));
    }
    Some(Icon { width: image.width as i32, height: image.height as i32, data })
}

/// The sources of sound stand in the menu in the order of their labels, and each is found at its
/// place.
pub proof fn lemma_sources(index: usize, source: RecordAudioSource)
    requires
        call_ensures(audio_source_at, (index,), source),
    ensures
        audio_labels().len() == 3,
        audio_labels()[source_place(RecordAudioSource::SystemAndMic)] == "System + microphone"@,
        audio_labels()[source_place(RecordAudioSource::Mic)] == "Microphone only"@,
        audio_labels()[source_place(RecordAudioSource::System)] == "System only"@,
        index < 3 ==> source_place(source) == index,
        0 <= source_place(source) < 3,
{
}

/// An output is shown by its description and its name; once where they say the same, and by its
/// name where nothing describes it.
pub proof fn lemma_label(monitor: &Monitor, label: String)
    requires
        call_ensures(monitor_label, (monitor,), label),
    ensures
        crate::text::has_part(label@, crate::text::trimmed(monitor.description@)),
        crate::text::has_part(label@, monitor.name@) || crate::text::trimmed(monitor.description@)
            != monitor.name@,
        crate::text::trimmed(monitor.description@).len() == 0 ==> label@ == monitor.name@,
        crate::text::trimmed(monitor.description@) == monitor.name@ ==> label@ == monitor.name@,
        ({
            let description = crate::text::trimmed(monitor.description@);
            description.len() > 0 && description != monitor.name@ && !crate::text::has_part(
                description,
                "("@ + monitor.name@ + ")"@,
            ) ==> label@ == description + " ("@ + monitor.name@ + ")"@
        }),
        ({
            let description = crate::text::trimmed(monitor.description@);
            description.len() > 0 && crate::text::has_part(
                description,
                "("@ + monitor.name@ + ")"@,
            ) ==> label@ == description
        }),
{
    let description = crate::text::trimmed(monitor.description@);
    assert(label@.subrange(0, description.len() as int) =~= description);
    assert(crate::text::stands_at(label@, description, 0));
    if description == monitor.name@ {
        assert(crate::text::stands_at(label@, monitor.name@, 0));
    }
}

/// The menu tells the preferences: each entry has its own mark, its own command, and a recording can
/// be begun only while there is none.
pub proof fn lemma_entries(prefs: PrefsView, monitors: Seq<Monitor>, state: PublicRecordingState)
    ensures
        ({
            let menu = entries(prefs, monitors, state);
            let idle = state == PublicRecordingState::Idle;
            &&& menu.len() == 7
            &&& menu[0] matches MenuItemView::Standard { enabled, command, .. } && enabled == idle
                && command == TrayCommand::StartRegion
            &&& menu[1] matches MenuItemView::Standard { enabled, command, .. } && enabled == idle
                && command == TrayCommand::StartDefault
            &&& menu[2] matches MenuItemView::Options { selected, options, choice, .. } && choice
                == TrayChoice::DefaultMonitor && selected == mark(prefs, monitors, choice)
                && options.len() == monitors.len() + 1
            &&& menu[3] matches MenuItemView::Options { selected, options, choice, .. } && choice
                == TrayChoice::BothMode && (selected == 1 <==> prefs.both_mode
                == RecordBothMode::Combined) && options == seq![
                "Separate clips"@,
                "Combined clip"@,
            ]
            &&& menu[4] matches MenuItemView::Options { selected, options, choice, .. } && choice
                == TrayChoice::AudioSource && options[selected] == (match prefs.audio_source {
                RecordAudioSource::SystemAndMic => "System + microphone"@,
                RecordAudioSource::Mic => "Microphone only"@,
                RecordAudioSource::System => "System only"@,
            })
            &&& menu[5] matches MenuItemView::Checkmark { checked, command, .. } && checked
                == prefs.show_frame && command == TrayCommand::ToggleShowFrame
            &&& menu[6] matches MenuItemView::Checkmark { checked, command, .. } && checked
                == prefs.disk_add_to_shelf && command == TrayCommand::ToggleDiskAddToShelf
        }),
{
}

/// The output that is marked is the one that is recorded: the named one, or else the focused one, or
/// else the first; the last entry stands for both.
pub proof fn lemma_marked(monitors: Seq<Monitor>, target: TargetView)
    ensures
        target is Both ==> marked(monitors, target) == monitors.len(),
        !(target is Both) && monitors.len() > 0 ==> marked(monitors, target) < monitors.len(),
        target matches TargetView::Output(name) ==> (forall|i: int|
            0 <= i < monitors.len() && (#[trigger] monitors[i]).name@ == name && (forall|k: int|
                0 <= k < i ==> (#[trigger] monitors[k]).name@ != name) ==> marked(monitors, target)
                == i),
        target is Focused ==> (forall|i: int|
            0 <= i < monitors.len() && (#[trigger] monitors[i]).focused && (forall|k: int|
                0 <= k < i ==> !(#[trigger] monitors[k]).focused) ==> marked(monitors, target) == i),
        target is Focused && (forall|i: int|
            0 <= i < monitors.len() ==> !(#[trigger] monitors[i]).focused) ==> marked(
            monitors,
            target,
        ) == 0,
{
    let name = match target {
        TargetView::Output(name) => name,
        _ => Seq::empty(),
    };
    crate::record::lemma_place_from(monitors, name, 0);
    let focused = crate::record::focused_from(monitors, 0);
    let named = crate::record::named_from(monitors, name, 0);
    if focused < monitors.len() {
        assert(monitors[focused].focused);
    }
    if named < monitors.len() {
        assert(monitors[named].name@ == name);
    }
}

/// A switch changes the preference that it names and nothing else; what only starts a recording
/// changes none.
pub proof fn lemma_activated(prefs: PrefsView, command: TrayCommand)
    ensures
        ({
            let after = activated(prefs, command);
            &&& after.show_frame != prefs.show_frame <==> command == TrayCommand::ToggleShowFrame
            &&& after.disk_add_to_shelf != prefs.disk_add_to_shelf <==> command
                == TrayCommand::ToggleDiskAddToShelf
            &&& after.default_target == prefs.default_target
            &&& after.both_mode == prefs.both_mode
            &&& after.audio_enabled == prefs.audio_enabled
            &&& after.audio_source == prefs.audio_source
            &&& after.cursor == prefs.cursor
        }),
{
}

/// A choice changes the preference that it names and nothing else.
pub proof fn lemma_selected(
    prefs: PrefsView,
    monitors: Seq<Monitor>,
    choice: TrayChoice,
    index: int,
)
    requires
        0 <= index < options(monitors, choice),
    ensures
        ({
            let after = selected(prefs, monitors, choice, index);
            &&& choice == TrayChoice::DefaultMonitor ==> after.default_target == (if index
                < monitors.len() {
                TargetView::Output(monitors[index].name@)
            } else {
                TargetView::Both
            })
            &&& choice == TrayChoice::BothMode ==> (after.both_mode == RecordBothMode::Combined
                <==> index == 1)
            &&& choice == TrayChoice::AudioSource ==> source_place(after.audio_source) == index
            &&& choice != TrayChoice::DefaultMonitor ==> after.default_target == prefs.default_target
            &&& choice != TrayChoice::BothMode ==> after.both_mode == prefs.both_mode
            &&& choice != TrayChoice::AudioSource ==> after.audio_source == prefs.audio_source
            &&& after.show_frame == prefs.show_frame
            &&& after.disk_add_to_shelf == prefs.disk_add_to_shelf
            &&& after.audio_enabled == prefs.audio_enabled
            &&& after.cursor == prefs.cursor
        }),
{
}

/// A pixel of an icon is told as how much it covers, its red, its green and its blue, in that order.
pub proof fn lemma_icon_bytes(pixels: Seq<Rgba>, i: int)
    requires
        0 <= i < pixels.len(),
    ensures
        icon_bytes(pixels).len() == 4 * pixels.len(),
        icon_bytes(pixels)[4 * i] == pixels[i].a,
        icon_bytes(pixels)[4 * i + 1] == pixels[i].r,
        icon_bytes(pixels)[4 * i + 2] == pixels[i].g,
        icon_bytes(pixels)[4 * i + 3] == pixels[i].b,
{
    assert((4 * i) / 4 == i && (4 * i + 1) / 4 == i && (4 * i + 2) / 4 == i && (4 * i + 3) / 4 == i);
}

/// The menu's model tells the preferences one by one.
pub proof fn lemma_menu_model(snapshot: &TraySnapshot, model: TrayMenuModel)
    requires
        call_ensures(menu_model, (snapshot,), model),
    ensures
        model.start_region_enabled <==> snapshot.state == PublicRecordingState::Idle,
        model.start_default_enabled <==> snapshot.state == PublicRecordingState::Idle,
        model.default_labels@.len() == snapshot.monitors@.len() + 1,
        model.default_labels@.last()@ == "Both displays"@,
        forall|i: int|
            0 <= i < snapshot.monitors@.len() ==> (#[trigger] model.default_labels@[i])@ == label_of(
                snapshot.monitors@[i],
            ),
        model.both_mode_selected == 1 <==> snapshot.prefs.both_mode == RecordBothMode::Combined,
        model.audio_source_selected == 1 <==> snapshot.prefs.audio_source == RecordAudioSource::Mic,
        model.audio_source_selected == 2 <==> snapshot.prefs.audio_source
            == RecordAudioSource::System,
        model.show_frame == snapshot.prefs.show_frame,
        model.disk_add_to_shelf == snapshot.prefs.disk_add_to_shelf,
        model.settings_enabled,
{
    let labels = crate::text::views(model.default_labels@);
    assert(labels.len() == model.default_labels@.len());
    assert(labels.last() == model.default_labels@.last()@);
    assert forall|i: int| 0 <= i < snapshot.monitors@.len() implies (
    #[trigger] model.default_labels@[i])@ == label_of(snapshot.monitors@[i]) by {
        assert(labels[i] == model.default_labels@[i]@);
    }
}

} // verus!
