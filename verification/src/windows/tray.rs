//! The menu in the notification area.
use vstd::prelude::*;

use crate::picture::read_picture;
use crate::pixels::{Image, Rgba};
use crate::text::{chars_of, joined, same};

verus! {

/// What the menu asks for.
#[derive(Clone, Copy, Debug, PartialEq, Eq, Structural)]
pub enum TrayAction {
    CaptureArea,
    CaptureFull,
    RecordArea,
    RecordFull,
    ShowRecordingControls,
    Quit,
}

/// The numbers by which Windows knows the entries of the menu.
pub struct TrayState {
    pub capture_area: String,
    pub capture_full: String,
    pub record_area: String,
    pub record_full: String,
    pub show_recording_controls: String,
    pub quit: String,
}

impl TrayState {
    /// What an entry asks for.
    pub open spec fn asked(&self, id: Seq<char>) -> Option<TrayAction> {
        if id == self.capture_area@ {
            Some(TrayAction::CaptureArea)
        } else if id == self.capture_full@ {
            Some(TrayAction::CaptureFull)
        } else if id == self.record_area@ {
            Some(TrayAction::RecordArea)
        } else if id == self.record_full@ {
            Some(TrayAction::RecordFull)
        } else if id == self.show_recording_controls@ {
            Some(TrayAction::ShowRecordingControls)
        } else if id == self.quit@ {
            Some(TrayAction::Quit)
        } else {
            None
        }
    }

    /// What an entry asks for.
    pub fn action(&self, id: &str) -> (r: Option<TrayAction>)
        ensures
            r == self.asked(id@),
    {
        if same(id, self.capture_area.as_str()) {
            Some(TrayAction::CaptureArea)
        } else if same(id, self.capture_full.as_str()) {
            Some(TrayAction::CaptureFull)
        } else if same(id, self.record_area.as_str()) {
            Some(TrayAction::RecordArea)
        } else if same(id, self.record_full.as_str()) {
            Some(TrayAction::RecordFull)
        } else if same(id, self.show_recording_controls.as_str()) {
            Some(TrayAction::ShowRecordingControls)
        } else if same(id, self.quit.as_str()) {
            Some(TrayAction::Quit)
        } else {
            None
        }
    }
}

/// The label of an entry.
pub fn label(action: TrayAction) -> (r: &'static str)
    ensures
        r@ == (match action {
            TrayAction::CaptureArea => "Screenshot: Bereich"@,
            TrayAction::CaptureFull => "Screenshot: Vollbild"@,
            TrayAction::RecordArea => "Aufnahme: Bereich"@,
            TrayAction::RecordFull => "Aufnahme: Vollbild"@,
            TrayAction::ShowRecordingControls => "Aufnahmesteuerung anzeigen"@,
            TrayAction::Quit => "Boltsnap beenden"@,
        }),
{
    match action {
        TrayAction::CaptureArea => "Screenshot: Bereich",
        TrayAction::CaptureFull => "Screenshot: Vollbild",
        TrayAction::RecordArea => "Aufnahme: Bereich",
        TrayAction::RecordFull => "Aufnahme: Vollbild",
        TrayAction::ShowRecordingControls => "Aufnahmesteuerung anzeigen",
        TrayAction::Quit => "Boltsnap beenden",
    }
}

/// The menu from top to bottom; `None` is a line between two groups.
pub fn menu() -> (r: Vec<Option<TrayAction>>)
    ensures
        r@ == seq![
            Some(TrayAction::CaptureArea),
            Some(TrayAction::CaptureFull),
            None,
            Some(TrayAction::RecordArea),
            Some(TrayAction::RecordFull),
            Some(TrayAction::ShowRecordingControls),
            None,
            Some(TrayAction::Quit),
        ],
{
    let mut items: Vec<Option<TrayAction>> = Vec::new();
    items.push(Some(TrayAction::CaptureArea));
    items.push(Some(TrayAction::CaptureFull));
    items.push(None);
    items.push(Some(TrayAction::RecordArea));
    items.push(Some(TrayAction::RecordFull));
    items.push(Some(TrayAction::ShowRecordingControls));
    items.push(None);
    items.push(Some(TrayAction::Quit));
    items
}

/// The picture of the icon, or what is said of its file.
pub fn tray_icon(png: &[u8]) -> (r: Result<Image<Rgba>, String>)
    ensures
        match crate::picture::file_picture(png@) {
            crate::picture::Loaded::Picture(picture) => r matches Ok(image)
                && crate::picture::shows(picture, image) && image.well_formed(),
            crate::picture::Loaded::Refused(text) => r matches Err(message) && message@
                == "decode Windows tray icon: "@ + text,
        },
{
    match read_picture(png) {
        Ok(image) => Ok(image),
        Err(error) => Err(joined("decode Windows tray icon: ", error.as_str())),
    }
}

/// How Windows is told of a balloon.
#[derive(Clone, Copy, Debug, PartialEq, Eq, Structural)]
pub enum Verb {
    /// With a new icon.
    Add,
    /// With the icon that is there.
    Modify,
}

/// How Windows is told of a balloon first, and how where that fails: the icon is lost when the
/// desktop restarts. `added` says whether an icon was added before.
pub fn verbs(added: bool) -> (r: (Verb, Verb))
    ensures
        r == (if added {
            (Verb::Modify, Verb::Add)
        } else {
            (Verb::Add, Verb::Modify)
        }),
{
    if added {
        (Verb::Modify, Verb::Add)
    } else {
        (Verb::Add, Verb::Modify)
    }
}

/// The 16-bit units of a character.
pub open spec fn units_of(c: char) -> Seq<u16> {
    let code = c as u32;
    if code < 0x10000 {
        seq![code as u16]
    } else {
        seq![
            (0xd800 + (code - 0x10000) / 0x400) as u16,
            (0xdc00 + (code - 0x10000) % 0x400) as u16,
        ]
    }
}

/// The 16-bit units of a text.
pub open spec fn utf16(text: Seq<char>) -> Seq<u16>
    decreases text.len(),
{
    if text.len() == 0 {
        Seq::empty()
    } else {
        utf16(text.drop_last()) + units_of(text.last())
    }
}

/// The 16-bit units of a text.
pub fn encode_utf16(text: &str) -> (r: Vec<u16>)
    ensures
        r@ == utf16(text@),
{
    let chars = chars_of(text);
    let mut units: Vec<u16> = Vec::new();
    let mut i: usize = 0;
    proof {
        assert(chars@.take(0) =~= Seq::empty());
        assert(units@ =~= utf16(chars@.take(0)));
    }
    while i < chars.len()
        invariant
            chars@ == text@,
            i <= chars.len(),
            units@ == utf16(chars@.take(i as int)),
        decreases chars.len() - i,
    {
        let c: char = chars[i];
        proof {
            vstd::utf8::char_is_scalar(c);
        }
        let code: u32 = c as u32;
        let ghost before = units@;
        proof {
            assert(chars@.take(i + 1).drop_last() =~= chars@.take(i as int));
            assert(chars@.take(i + 1).last() == chars@[i as int]);
        }
        if code < 0x10000 {
            units.push(code as u16);
        } else {
            units.push((0xd800 + (code - 0x10000) / 0x400) as u16);
            units.push((0xdc00 + (code - 0x10000) % 0x400) as u16);
        }
        proof {
            assert(units@ =~= before + units_of(chars@[i as int]));
        }
        i = i + 1;
    }
    proof {
        assert(chars@.take(i as int) =~= chars@);
    }
    units
}

/// How many units of a text fit before the zero at the end.
pub open spec fn fitting(units: int, room: int) -> int {
    if units < room - 1 {
        units
    } else {
        room - 1
    }
}

/// Writes a text into a field of fixed length: as many units as fit, and a zero behind them. What
/// stands behind the zero stays as it is.
pub fn copy_to_wide(target: &mut Vec<u16>, text: &str)
    requires
        old(target)@.len() > 0,
    ensures
        final(target)@.len() == old(target)@.len(),
        ({
            let length = fitting(utf16(text@).len() as int, old(target)@.len() as int);
            &&& final(target)@.take(length) == utf16(text@).take(length)
            &&& final(target)@[length] == 0
            &&& final(target)@.skip(length + 1) == old(target)@.skip(length + 1)
        }),
{
    let units = encode_utf16(text);
    let ghost before = target@;
    let mut length: usize = 0;
    while length < units.len() && length + 1 < target.len()
        invariant
            units@ == utf16(text@),
            before.len() > 0,
            target@.len() == before.len(),
            length <= units@.len(),
            length < before.len(),
            forall|i: int| 0 <= i < length ==> #[trigger] target@[i] == units@[i],
            forall|i: int| length <= i < before.len() ==> #[trigger] target@[i] == before[i],
        decreases units.len() - length,
    {
        target.set(length, units[length]);
        length = length + 1;
    }
    target.set(length, 0);
    proof {
        assert(target@.take(length as int) =~= units@.take(length as int));
        assert(target@.skip(length + 1) =~= before.skip(length + 1));
    }
}

/// An entry asks for the action that it stands for, where no two are the same.
pub proof fn lemma_asked(state: TrayState, id: Seq<char>)
    requires
        state.capture_area@ != state.capture_full@,
        state.capture_area@ != state.record_area@,
        state.capture_area@ != state.record_full@,
        state.capture_area@ != state.show_recording_controls@,
        state.capture_area@ != state.quit@,
        state.capture_full@ != state.record_area@,
        state.capture_full@ != state.record_full@,
        state.capture_full@ != state.show_recording_controls@,
        state.capture_full@ != state.quit@,
        state.record_area@ != state.record_full@,
        state.record_area@ != state.show_recording_controls@,
        state.record_area@ != state.quit@,
        state.record_full@ != state.show_recording_controls@,
        state.record_full@ != state.quit@,
        state.show_recording_controls@ != state.quit@,
    ensures
        state.asked(id) == Some(TrayAction::CaptureArea) <==> id == state.capture_area@,
        state.asked(id) == Some(TrayAction::CaptureFull) <==> id == state.capture_full@,
        state.asked(id) == Some(TrayAction::RecordArea) <==> id == state.record_area@,
        state.asked(id) == Some(TrayAction::RecordFull) <==> id == state.record_full@,
        state.asked(id) == Some(TrayAction::ShowRecordingControls) <==> id
            == state.show_recording_controls@,
        state.asked(id) == Some(TrayAction::Quit) <==> id == state.quit@,
{
}

/// The icon is added where it is not there yet and changed where it is, and the other way round where
/// that fails.
pub proof fn lemma_verbs(added: bool, order: (Verb, Verb))
    requires
        call_ensures(verbs, (added,), order),
    ensures
        order.0 is Modify <==> added,
        order.1 is Add <==> added,
        order.0 != order.1,
{
}

/// A character beyond the first plane is two units from which it is told back.
pub proof fn lemma_units(c: char)
    ensures
        (c as u32) < 0x10000 ==> units_of(c).len() == 1 && units_of(c)[0] as int == c as int,
        (c as u32) >= 0x10000 ==> units_of(c).len() == 2 && 0xd800 <= units_of(c)[0] < 0xdc00
            && 0xdc00 <= units_of(c)[1] < 0xe000 && 0x10000 + (units_of(c)[0] - 0xd800) * 0x400 + (
        units_of(c)[1] - 0xdc00) == c as int,
{
}

/// A text is told unit by unit, character behind character.
pub proof fn lemma_utf16_parts(first: Seq<char>, second: Seq<char>)
    ensures
        utf16(first + second) == utf16(first) + utf16(second),
        first.len() == 1 ==> utf16(first) == units_of(first[0]),
        utf16(Seq::empty()).len() == 0,
    decreases second.len(),
{
    reveal_with_fuel(utf16, 2);
    if second.len() == 0 {
        assert(first + second =~= first);
        assert(utf16(first) + utf16(second) =~= utf16(first));
    } else {
        assert((first + second).drop_last() =~= first + second.drop_last());
        lemma_utf16_parts(first, second.drop_last());
        assert(utf16(first + second) =~= utf16(first) + utf16(second));
    }
    if first.len() == 1 {
        assert(first.drop_last() =~= Seq::empty());
        assert(utf16(first) =~= units_of(first[0]));
    }
}

/// As much of a text is kept as there is room for, with an empty unit behind it.
pub proof fn lemma_fitting(units: int, room: int)
    requires
        0 <= units,
        0 < room,
    ensures
        0 <= fitting(units, room) < room,
        fitting(units, room) <= units,
        units < room ==> fitting(units, room) == units,
        units >= room ==> fitting(units, room) == room - 1,
{
}

/// The menu names its entries, and they stand in this order with lines between.
pub proof fn lemma_menu(action: TrayAction, text: &'static str, entries: Vec<Option<TrayAction>>)
    requires
        call_ensures(label, (action,), text),
        call_ensures(menu, (), entries),
    ensures
        action == TrayAction::CaptureArea <==> text@ == "Screenshot: Bereich"@,
        action == TrayAction::CaptureFull <==> text@ == "Screenshot: Vollbild"@,
        action == TrayAction::RecordArea <==> text@ == "Aufnahme: Bereich"@,
        action == TrayAction::RecordFull <==> text@ == "Aufnahme: Vollbild"@,
        action == TrayAction::ShowRecordingControls <==> text@ == "Aufnahmesteuerung anzeigen"@,
        action == TrayAction::Quit <==> text@ == "Boltsnap beenden"@,
        entries@.len() == 8,
        entries@[0] == Some(TrayAction::CaptureArea) && entries@[1] == Some(TrayAction::CaptureFull)
            && entries@[2] is None && entries@[3] == Some(TrayAction::RecordArea) && entries@[4]
            == Some(TrayAction::RecordFull) && entries@[5] == Some(
            TrayAction::ShowRecordingControls,
        ) && entries@[6] is None && entries@[7] == Some(TrayAction::Quit),
{
    reveal_strlit("Screenshot: Bereich");
    reveal_strlit("Screenshot: Vollbild");
    reveal_strlit("Aufnahme: Bereich");
    reveal_strlit("Aufnahme: Vollbild");
    reveal_strlit("Aufnahmesteuerung anzeigen");
    reveal_strlit("Boltsnap beenden");
    assert("Screenshot: Bereich"@.len() == 19);
    assert("Screenshot: Vollbild"@.len() == 20);
    assert("Aufnahme: Bereich"@.len() == 17);
    assert("Aufnahme: Vollbild"@.len() == 18);
    assert("Aufnahmesteuerung anzeigen"@.len() == 26);
    assert("Boltsnap beenden"@.len() == 16);
}

} // verus!
