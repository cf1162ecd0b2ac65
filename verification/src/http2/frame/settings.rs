//! SETTINGS frames.
use vstd::prelude::*;

use super::{
    flag_set, frame_octets, has_flag, join_frame, number_4, octets_4, push_octets_4, read_octets_4,
    Frame, FrameHeader, RawFrame, ACK, LENGTH_LIMIT, SETTINGS_FRAME_TYPE,
};
use super::{header_parts, law_frame_layout, law_number_read_back, lemma_frame_octets};

verus! {

/// A setting of a connection.
#[derive(PartialEq, Eq, Structural, Debug, Copy, Clone)]
pub enum HttpSetting {
    HeaderTableSize(u32),
    EnablePush(u32),
    MaxConcurrentStreams(u32),
    InitialWindowSize(u32),
    MaxFrameSize(u32),
    MaxHeaderListSize(u32),
}

impl HttpSetting {
    /// The identifier and the value of the setting.
    pub open spec fn parts(self) -> (u8, u32) {
        match self {
            HttpSetting::HeaderTableSize(value) => (1, value),
            HttpSetting::EnablePush(value) => (2, value),
            HttpSetting::MaxConcurrentStreams(value) => (3, value),
            HttpSetting::InitialWindowSize(value) => (4, value),
            HttpSetting::MaxFrameSize(value) => (5, value),
            HttpSetting::MaxHeaderListSize(value) => (6, value),
        }
    }

    /// The six octets of the setting: two for the identifier, four for the
    /// value.
    pub open spec fn octets(self) -> Seq<u8> {
        seq![0u8, self.parts().0] + octets_4(self.parts().1)
    }

    /// Returns the identifier and the value of the setting.
    fn to_parts(&self) -> (parts: (u8, u32))
        ensures
            parts == self.parts(),
    {
        match self {
            HttpSetting::HeaderTableSize(value) => (1, *value),
            HttpSetting::EnablePush(value) => (2, *value),
            HttpSetting::MaxConcurrentStreams(value) => (3, *value),
            HttpSetting::InitialWindowSize(value) => (4, *value),
            HttpSetting::MaxFrameSize(value) => (5, *value),
            HttpSetting::MaxHeaderListSize(value) => (6, *value),
        }
    }

    /// Builds the setting with the given identifier, if it is a known one.
    fn from_parts(high: u8, low: u8, value: u32) -> (setting: Option<HttpSetting>)
        ensures
            setting == known_setting(high, low, value),
    {
        if high != 0 {
            return None;
        }
        match low {
            1 => Some(HttpSetting::HeaderTableSize(value)),
            2 => Some(HttpSetting::EnablePush(value)),
            3 => Some(HttpSetting::MaxConcurrentStreams(value)),
            4 => Some(HttpSetting::InitialWindowSize(value)),
            5 => Some(HttpSetting::MaxFrameSize(value)),
            6 => Some(HttpSetting::MaxHeaderListSize(value)),
            _ => None,
        }
    }
}

/// The setting whose identifier has the octets `high` and `low`, if it is a
/// known one.
pub open spec fn known_setting(high: u8, low: u8, value: u32) -> Option<HttpSetting> {
    if high != 0 {
        None
    } else if low == 1 {
        Some(HttpSetting::HeaderTableSize(value))
    } else if low == 2 {
        Some(HttpSetting::EnablePush(value))
    } else if low == 3 {
        Some(HttpSetting::MaxConcurrentStreams(value))
    } else if low == 4 {
        Some(HttpSetting::InitialWindowSize(value))
    } else if low == 5 {
        Some(HttpSetting::MaxFrameSize(value))
    } else if low == 6 {
        Some(HttpSetting::MaxHeaderListSize(value))
    } else {
        None
    }
}

/// The octets of a list of settings.
pub open spec fn settings_octets(settings: Seq<HttpSetting>) -> Seq<u8>
    decreases settings.len(),
{
    if settings.len() == 0 {
        Seq::empty()
    } else {
        settings_octets(settings.drop_last()) + settings.last().octets()
    }
}

/// The settings that a payload holds, six octets each. Those with an unknown
/// identifier are left out.
pub open spec fn settings_parts(payload: Seq<u8>) -> Seq<HttpSetting>
    decreases payload.len(),
{
    if payload.len() < 6 {
        Seq::empty()
    } else {
        let rest = payload.take(payload.len() - 6);
        let last = payload.skip(payload.len() - 6);
        match known_setting(last[0], last[1], number_4(last.skip(2))) {
            Some(setting) => settings_parts(rest).push(setting),
            None => settings_parts(rest),
        }
    }
}

/// The octets of a list of settings give the list back.
pub proof fn law_settings_read_back(settings: Seq<HttpSetting>)
    ensures
        settings_octets(settings).len() == 6 * settings.len(),
        settings_parts(settings_octets(settings)) == settings,
    decreases settings.len(),
{
    if settings.len() == 0 {
        assert(settings_parts(settings_octets(settings)) =~= settings);
    } else {
        law_settings_read_back(settings.drop_last());
        let payload = settings_octets(settings);
        let last = settings.last();
        law_number_read_back(last.parts().1);
        assert(payload.take(payload.len() - 6) =~= settings_octets(settings.drop_last()));
        assert(payload.skip(payload.len() - 6) =~= last.octets());
        assert(last.octets().skip(2) =~= octets_4(last.parts().1));
        assert(settings.drop_last().push(last) =~= settings);
    }
}

/// A frame that tells the peer about settings, or acknowledges its settings.
#[derive(PartialEq, Debug)]
pub struct SettingsFrame {
    pub settings: Vec<HttpSetting>,
    pub flags: u8,
}

/// The value of a [`SettingsFrame`].
pub struct SettingsFrameView {
    pub settings: Seq<HttpSetting>,
    pub flags: u8,
}

impl View for SettingsFrame {
    type V = SettingsFrameView;

    open spec fn view(&self) -> SettingsFrameView {
        SettingsFrameView { settings: self.settings@, flags: self.flags }
    }
}

impl SettingsFrameView {
    /// The frame that acknowledges the settings of the peer.
    pub open spec fn ack() -> SettingsFrameView {
        SettingsFrameView { settings: Seq::empty(), flags: ACK }
    }
}

impl SettingsFrame {
    /// Creates a frame without settings and flags.
    pub fn new() -> (frame: SettingsFrame)
        ensures
            frame@ == (SettingsFrameView { settings: Seq::empty(), flags: 0 }),
    {
        SettingsFrame { settings: Vec::new(), flags: 0 }
    }

    /// Creates the frame that acknowledges the settings of the peer.
    pub fn new_ack() -> (frame: SettingsFrame)
        ensures
            frame@ == SettingsFrameView::ack(),
    {
        SettingsFrame { settings: Vec::new(), flags: ACK }
    }

    /// Adds a setting behind those that the frame has.
    pub fn add_setting(&mut self, setting: HttpSetting)
        ensures
            final(self)@ == (SettingsFrameView {
                settings: old(self).settings@.push(setting),
                flags: old(self).flags,
            }),
    {
        self.settings.push(setting);
    }

    /// Tests whether the frame is an acknowledgement.
    pub fn is_ack(&self) -> (ack: bool)
        ensures
            ack == flag_set(self.flags, ACK),
    {
        has_flag(self.flags, ACK)
    }
}

/// Packs a list of settings.
fn join_settings(settings: &Vec<HttpSetting>) -> (payload: Vec<u8>)
    ensures
        payload@ == settings_octets(settings@),
{
    let mut payload: Vec<u8> = Vec::new();
    let mut i: usize = 0;
    while i < settings.len()
        invariant
            i <= settings.len(),
            payload@ == settings_octets(settings@.take(i as int)),
        decreases settings.len() - i,
    {
        let (id, value) = settings[i].to_parts();
        let ghost before = payload@;
        payload.push(0);
        payload.push(id);
        push_octets_4(&mut payload, value);
        proof {
            assert(payload@ =~= before + settings@[i as int].octets());
            assert(settings@.take(i + 1).drop_last() =~= settings@.take(i as int));
        }
        i = i + 1;
    }
    assert(settings@.take(i as int) =~= settings@);
    payload
}

/// Unpacks a list of settings.
fn split_settings(payload: &Vec<u8>) -> (settings: Vec<HttpSetting>)
    requires
        payload@.len() % 6 == 0,
    ensures
        settings@ == settings_parts(payload@),
{
    let octets: &[u8] = payload.as_slice();
    let mut settings: Vec<HttpSetting> = Vec::new();
    let mut at: usize = 0;
    while at < octets.len()
        invariant
            at <= octets.len(),
            at % 6 == 0,
            octets@.len() % 6 == 0,
            octets@ == payload@,
            settings@ == settings_parts(octets@.take(at as int)),
        decreases octets.len() - at,
    {
        let value: u32 = read_octets_4(octets, at + 2);
        proof {
            let next = octets@.take(at + 6);
            let last = next.skip(at as int);
            assert(next.take(at as int) =~= octets@.take(at as int));
            assert(last.skip(2) =~= octets@.subrange(at + 2, at + 6));
        }
        if let Some(setting) = HttpSetting::from_parts(octets[at], octets[at + 1], value) {
            settings.push(setting);
        }
        at = at + 6;
    }
    assert(octets@.take(at as int) =~= payload@);
    settings
}

impl Frame for SettingsFrame {
    open spec fn parsed(header: FrameHeader, payload: Seq<u8>) -> Option<SettingsFrameView> {
        if header.1 != SETTINGS_FRAME_TYPE || header.0 != payload.len() || header.3 != 0 {
            None
        } else if payload.len() % 6 != 0 || (flag_set(header.2, ACK) && payload.len() != 0) {
            None
        } else {
            Some(SettingsFrameView { settings: settings_parts(payload), flags: header.2 })
        }
    }

    open spec fn octets(frame: SettingsFrameView) -> Seq<u8> {
        frame_octets(SETTINGS_FRAME_TYPE, frame.flags, 0, settings_octets(frame.settings))
    }

    open spec fn well_formed(frame: SettingsFrameView) -> bool {
        &&& flag_set(frame.flags, ACK) ==> frame.settings.len() == 0
        &&& 6 * frame.settings.len() < LENGTH_LIMIT
    }

    proof fn law_read_back(frame: SettingsFrameView) {
        law_settings_read_back(frame.settings);
        lemma_frame_octets(SETTINGS_FRAME_TYPE, frame.flags, 0, settings_octets(frame.settings));
    }

    fn from_raw(raw_frame: RawFrame) -> Option<SettingsFrame> {
        let (len, frame_type, flags, stream_id) = raw_frame.header;
        if frame_type != SETTINGS_FRAME_TYPE || len as usize != raw_frame.payload.len() || stream_id
            != 0 {
            return None;
        }
        if raw_frame.payload.len() % 6 != 0 || (has_flag(flags, ACK) && raw_frame.payload.len()
            != 0) {
            return None;
        }
        Some(SettingsFrame { settings: split_settings(&raw_frame.payload), flags })
    }

    fn serialize(&self) -> Vec<u8> {
        let payload: Vec<u8> = join_settings(&self.settings);
        join_frame(SETTINGS_FRAME_TYPE, self.flags, 0, &payload)
    }
}

/// The six octets of a setting: its identifier, and its value.
pub proof fn law_setting_layout(setting: HttpSetting)
    ensures
        ({
            let octets = setting.octets();
            let value = octets[2] * 16777216 + octets[3] * 65536 + octets[4] * 256 + octets[5];
            &&& octets.len() == 6
            &&& octets[0] == 0
            &&& match setting {
                HttpSetting::HeaderTableSize(n) => octets[1] == 1 && value == n,
                HttpSetting::EnablePush(n) => octets[1] == 2 && value == n,
                HttpSetting::MaxConcurrentStreams(n) => octets[1] == 3 && value == n,
                HttpSetting::InitialWindowSize(n) => octets[1] == 4 && value == n,
                HttpSetting::MaxFrameSize(n) => octets[1] == 5 && value == n,
                HttpSetting::MaxHeaderListSize(n) => octets[1] == 6 && value == n,
            }
        }),
{
    let octets = setting.octets();
    let value = octets_4(setting.parts().1);
    assert(octets[2] == value[0]);
    assert(octets[3] == value[1]);
    assert(octets[4] == value[2]);
    assert(octets[5] == value[3]);
}

/// A list of settings on the wire: the settings one after the other.
pub proof fn law_settings_layout(settings: Seq<HttpSetting>, i: int)
    requires
        0 <= i < settings.len(),
    ensures
        settings_octets(settings).len() == 6 * settings.len(),
        settings_octets(settings).subrange(6 * i, 6 * i + 6) == settings[i].octets(),
    decreases settings.len(),
{
    let octets = settings_octets(settings);
    let before = settings_octets(settings.drop_last());
    law_settings_read_back(settings);
    law_settings_read_back(settings.drop_last());
    if i < settings.len() - 1 {
        law_settings_layout(settings.drop_last(), i);
        assert(octets.subrange(6 * i, 6 * i + 6) =~= before.subrange(6 * i, 6 * i + 6));
    } else {
        assert(octets.subrange(6 * i, 6 * i + 6) =~= settings[i].octets());
    }
}

/// What one more setting in a payload means: it stands behind the others
/// where its identifier is known, and is left out where it is not. Every
/// value is taken as it is.
pub proof fn law_settings_meaning(payload: Seq<u8>, next: Seq<u8>)
    requires
        payload.len() % 6 == 0,
        next.len() == 6,
    ensures
        settings_parts(Seq::empty()) == Seq::<HttpSetting>::empty(),
        next[0] != 0 || next[1] == 0 || next[1] > 6 ==> settings_parts(payload + next)
            == settings_parts(payload),
        next[0] == 0 && 1 <= next[1] <= 6 ==> {
            let settings = settings_parts(payload + next);
            let value = next[2] * 16777216 + next[3] * 65536 + next[4] * 256 + next[5];
            &&& settings.len() == settings_parts(payload).len() + 1
            &&& settings.drop_last() == settings_parts(payload)
            &&& match settings.last() {
                HttpSetting::HeaderTableSize(n) => next[1] == 1 && n == value,
                HttpSetting::EnablePush(n) => next[1] == 2 && n == value,
                HttpSetting::MaxConcurrentStreams(n) => next[1] == 3 && n == value,
                HttpSetting::InitialWindowSize(n) => next[1] == 4 && n == value,
                HttpSetting::MaxFrameSize(n) => next[1] == 5 && n == value,
                HttpSetting::MaxHeaderListSize(n) => next[1] == 6 && n == value,
            }
        },
{
    let all = payload + next;
    assert(all.take(all.len() - 6) =~= payload);
    assert(all.skip(all.len() - 6) =~= next);
    let value = next.skip(2);
    assert(number_4(value) == value[0] * 16777216 + value[1] * 65536 + value[2] * 256 + value[3]);
    if next[0] == 0 && 1 <= next[1] <= 6 {
        let setting = known_setting(next[0], next[1], number_4(value))->0;
        assert(settings_parts(payload).push(setting).drop_last() =~= settings_parts(payload));
    }
}

/// A SETTINGS frame on the wire: its header, on no stream, and its settings.
pub proof fn law_settings_frame_layout(frame: SettingsFrame)
    ensures
        ({
            let octets = SettingsFrame::octets(frame@);
            let payload = octets.skip(9);
            &&& octets.len() >= 9
            &&& octets[0] * 65536 + octets[1] * 256 + octets[2] == payload.len() as int % 16777216
            &&& octets[3] == 4
            &&& octets[4] == frame.flags
            &&& octets[5] == 0 && octets[6] == 0 && octets[7] == 0 && octets[8] == 0
            &&& payload.len() == 6 * frame.settings@.len()
            &&& forall|i: int|
                0 <= i < frame.settings@.len() ==> payload.subrange(6 * i, 6 * i + 6) == (
                #[trigger] frame.settings@[i]).octets()
        }),
{
    let payload = settings_octets(frame.settings@);
    law_frame_layout(4, frame.flags, 0, payload);
    law_settings_read_back(frame.settings@);
    assert forall|i: int| 0 <= i < frame.settings@.len() implies payload.subrange(
        6 * i,
        6 * i + 6,
    ) == (#[trigger] frame.settings@[i]).octets() by {
        law_settings_layout(frame.settings@, i);
    }
}

/// Which headers and payloads are a SETTINGS frame: those of the right type
/// and length, on no stream, that hold whole settings, and none where the
/// frame is an acknowledgement.
pub proof fn law_settings_frame_validity(header: FrameHeader, payload: Seq<u8>)
    ensures
        SettingsFrame::parsed(header, payload) is Some <==> {
            &&& header.1 == 4
            &&& header.0 == payload.len()
            &&& header.3 == 0
            &&& payload.len() % 6 == 0
            &&& header.2 & 0x1 == 0x1 ==> payload.len() == 0
        },
{
}

/// What a received SETTINGS frame holds: the flags of its header, and the
/// settings of its payload.
pub proof fn law_settings_frame_meaning(header: FrameHeader, payload: Seq<u8>, frame: SettingsFrame)
    requires
        SettingsFrame::parsed(header, payload) == Some(frame@),
    ensures
        frame.flags == header.2,
        frame.settings@ == settings_parts(payload),
{
}

/// An acknowledgement has the one flag that makes it one, and no settings.
pub proof fn law_acknowledgement(frame: SettingsFrame)
    ensures
        frame@ == SettingsFrameView::ack() <==> frame.flags == 0x1 && frame.settings@.len() == 0,
{
    if frame.settings@.len() == 0 {
        assert(frame.settings@ =~= Seq::<HttpSetting>::empty());
    }
}

/// A SETTINGS frame that is an acknowledgement only without settings, and
/// short enough for its length to be announced, is read back as it was.
pub proof fn law_settings_frame_read_back(frame: SettingsFrame)
    requires
        frame.flags & 0x1 == 0x1 ==> frame.settings@.len() == 0,
        6 * frame.settings@.len() < 0x100_0000,
    ensures
        ({
            let octets = SettingsFrame::octets(frame@);
            SettingsFrame::parsed(header_parts(octets.take(9)), octets.skip(9)) == Some(frame@)
        }),
{
    SettingsFrame::law_read_back(frame@);
}

} // verus!
