//! The audio settings panel: which output device plays the timeline, and how
//! that stream is doing.
//!
//! The panel holds no audio state of its own: it is given the device list
//! and the stream's diagnostics, and the application applies what the user
//! asks for to its output.

use vstd::prelude::*;
use crate::problem::{concat, Problem};
use crate::text::{decimal, decimal_text, str_eq};

verus! {

/// One output device as the host reports it.
pub struct OutputDevice {
    /// Its identity.
    pub id: String,
    /// Its name.
    pub name: String,
    /// Whether the host would pick it by default.
    pub is_default: bool,
    /// Its default sample rate, when the host reports one.
    pub default_sample_rate: Option<u32>,
    /// The channel count of each format it supports.
    pub format_channels: Vec<u16>,
}

/// The most channels any of `c` has, or zero.
pub open spec fn max_channels(c: Seq<u16>) -> nat
    decreases c.len(),
{
    if c.len() == 0 {
        0
    } else {
        let before = max_channels(c.drop_last());
        if c.last() as nat > before {
            c.last() as nat
        } else {
            before
        }
    }
}

/// One device's line in the list.
pub open spec fn device_text(d: OutputDevice) -> Seq<char> {
    d.name@ + (if d.is_default {
        " (system default)"@
    } else {
        Seq::empty()
    }) + (match d.default_sample_rate {
        Some(rate) => " — "@ + decimal(rate as nat) + " Hz"@,
        None => Seq::empty(),
    }) + (if max_channels(d.format_channels@) > 0 {
        ", up to "@ + decimal(max_channels(d.format_channels@)) + " ch"@
    } else {
        Seq::empty()
    })
}

/// One device's line in the list: its name, whether the host would pick
/// it, its default rate and the most channels it can play.
pub fn device_label(device: &OutputDevice) -> (r: String)
    ensures
        r@ == device_text(*device),
{
    let mut channels: u16 = 0;
    let mut i: usize = 0;
    while i < device.format_channels.len()
        invariant
            i <= device.format_channels@.len(),
            channels as nat == max_channels(device.format_channels@.subrange(0, i as int)),
        decreases device.format_channels@.len() - i,
    {
        let ghost prefix = device.format_channels@.subrange(0, i + 1 as int);
        assert(prefix.drop_last() =~= device.format_channels@.subrange(0, i as int));
        if device.format_channels[i] > channels {
            channels = device.format_channels[i];
        }
        i = i + 1;
    }
    assert(device.format_channels@.subrange(0, device.format_channels@.len() as int)
        =~= device.format_channels@);
    let mut out = device.name.clone();
    if device.is_default {
        out.append(" (system default)");
    }
    match device.default_sample_rate {
        Some(rate) => {
            out.append(" — ");
            out.append(decimal_text(rate as u64).as_str());
            out.append(" Hz");
        },
        None => {},
    }
    if channels > 0 {
        out.append(", up to ");
        out.append(decimal_text(channels as u64).as_str());
        out.append(" ch");
    }
    assert(out@ =~= device_text(*device));
    out
}

/// A snapshot of the open stream.
pub struct OutputDiagnostics {
    /// The device it plays on.
    pub device_name: String,
    /// The format it negotiated, as written for the user.
    pub format: String,
    /// Frames the device asked for that were not ready.
    pub underrun_frames: u64,
    /// Errors the stream reported.
    pub stream_errors: u64,
    /// The last of them, when there was one.
    pub last_error: Option<String>,
}

impl OutputDiagnostics {
    /// Whether the stream has run clean: no underrun and no error.
    pub fn is_healthy(&self) -> (r: bool)
        ensures
            r == (self.underrun_frames == 0 && self.stream_errors == 0),
    {
        self.underrun_frames == 0 && self.stream_errors == 0
    }
}

/// The one-line summary of the stream.
pub open spec fn status_text(d: Option<OutputDiagnostics>) -> Seq<char> {
    match d {
        None => "Output closed — nothing is playing"@,
        Some(d) => "Playing on "@ + d.device_name@ + ": "@ + d.format@,
    }
}

/// The one-line summary of the stream, whether or not one is open.
pub fn status_line(diagnostics: Option<&OutputDiagnostics>) -> (r: String)
    ensures
        r@ == status_text(
            match diagnostics {
                Some(d) => Some(*d),
                None => None,
            },
        ),
{
    match diagnostics {
        None => "Output closed — nothing is playing".to_string(),
        Some(d) => {
            let head = concat("Playing on ", d.device_name.as_str());
            let head = concat(head.as_str(), ": ");
            concat(head.as_str(), d.format.as_str())
        },
    }
}

/// What went wrong on a stream.
pub open spec fn underrun_text(d: OutputDiagnostics) -> Seq<char> {
    decimal(d.underrun_frames as nat) + " underrun frames, "@ + decimal(d.stream_errors as nat)
        + " stream errors"@ + match d.last_error {
        Some(e) => " — last: "@ + e@,
        None => Seq::empty(),
    }
}

/// What went wrong on a stream that is not healthy.
pub fn underrun_line(diagnostics: &OutputDiagnostics) -> (r: String)
    ensures
        r@ == underrun_text(*diagnostics),
{
    let mut out = decimal_text(diagnostics.underrun_frames);
    out.append(" underrun frames, ");
    out.append(decimal_text(diagnostics.stream_errors).as_str());
    out.append(" stream errors");
    match &diagnostics.last_error {
        Some(e) => {
            out.append(" — last: ");
            out.append(e.as_str());
        },
        None => {},
    }
    assert(out@ =~= underrun_text(*diagnostics));
    out
}

/// The panel's state: the device list once scanned, the device the output
/// is on, the last snapshot of the stream, and the scrub settings `S` the
/// audio stage applied.
pub struct AudioSettingsPanel<S> {
    devices: Option<Result<Vec<OutputDevice>, Problem>>,
    selected: Option<String>,
    diagnostics: Option<OutputDiagnostics>,
    last_error: Option<Problem>,
    scrub: S,
    /// Whether the window is showing.
    pub open: bool,
}

impl<S: Copy> AudioSettingsPanel<S> {
    /// Whether the window is showing.
    pub closed spec fn spec_open(&self) -> bool {
        self.open
    }

    /// Whether a device scan's result is held.
    pub closed spec fn spec_scanned(&self) -> bool {
        self.devices is Some
    }

    /// The result of the last device scan, once there is one.
    pub closed spec fn spec_devices(&self) -> Option<Result<Seq<OutputDevice>, Problem>> {
        match self.devices {
            Some(Ok(v)) => Some(Ok(v@)),
            Some(Err(e)) => Some(Err(e)),
            None => None,
        }
    }

    /// The device the output is on.
    pub closed spec fn spec_selected(&self) -> Option<Seq<char>> {
        match self.selected {
            Some(s) => Some(s@),
            None => None,
        }
    }

    /// The snapshot of the stream shown.
    pub closed spec fn spec_diagnostics(&self) -> Option<OutputDiagnostics> {
        self.diagnostics
    }

    /// The error from the last failed switch.
    pub closed spec fn spec_last_error(&self) -> Option<Problem> {
        self.last_error
    }

    /// The scrub settings shown.
    pub closed spec fn spec_scrub(&self) -> S {
        self.scrub
    }

    /// A closed panel that has not been given a device list yet.
    pub fn new(scrub: S) -> (r: AudioSettingsPanel<S>)
        ensures
            !r.spec_open(),
            !r.spec_scanned(),
            r.spec_selected() is None,
            r.spec_devices() is None,
            r.spec_diagnostics() is None,
            r.spec_last_error() is None,
            r.spec_scrub() == scrub,
    {
        AudioSettingsPanel {
            devices: None,
            selected: None,
            diagnostics: None,
            last_error: None,
            scrub,
            open: false,
        }
    }

    /// Whether the application should scan the host: only when the panel is
    /// showing and has nothing to show, so a closed panel never touches the
    /// audio host and a failed scan is not repeated every frame.
    pub fn needs_devices(&self) -> (r: bool)
        ensures
            r == (self.spec_open() && !self.spec_scanned()),
    {
        self.open && self.devices.is_none()
    }

    /// Gives the panel the result of a device scan.
    pub fn set_devices(&mut self, devices: Result<Vec<OutputDevice>, Problem>)
        ensures
            final(self).spec_scanned(),
            final(self).spec_devices() == match devices {
                Ok(v) => Some(Ok::<Seq<OutputDevice>, Problem>(v@)),
                Err(e) => Some(Err(e)),
            },
            final(self).spec_open() == old(self).spec_open(),
            final(self).spec_selected() == old(self).spec_selected(),
            final(self).spec_diagnostics() == old(self).spec_diagnostics(),
            final(self).spec_last_error() == old(self).spec_last_error(),
            final(self).spec_scrub() == old(self).spec_scrub(),
    {
        self.devices = Some(devices);
    }

    /// The devices the panel is showing, once it has been given any.
    pub fn devices(&self) -> (r: Option<Result<&[OutputDevice], &Problem>>)
        ensures
            r is Some == self.spec_scanned(),
            match r {
                Some(Ok(v)) => self.spec_devices() == Some(Ok::<Seq<OutputDevice>, Problem>(v@)),
                Some(Err(e)) => self.spec_devices() == Some(Err::<Seq<OutputDevice>, Problem>(*e)),
                None => self.spec_devices() is None,
            },
    {
        match &self.devices {
            Some(Ok(v)) => Some(Ok(v.as_slice())),
            Some(Err(e)) => Some(Err(e)),
            None => None,
        }
    }

    /// Forgets the device list so the next frame scans again.
    pub fn refresh(&mut self)
        ensures
            !final(self).spec_scanned(),
            final(self).spec_open() == old(self).spec_open(),
            final(self).spec_selected() == old(self).spec_selected(),
            final(self).spec_diagnostics() == old(self).spec_diagnostics(),
            final(self).spec_last_error() == old(self).spec_last_error(),
            final(self).spec_scrub() == old(self).spec_scrub(),
            final(self).spec_devices() is None,
    {
        self.devices = None;
    }

    /// The device the output is on, or `None` for the system default.
    pub fn selected(&self) -> (r: Option<&str>)
        ensures
            match r {
                Some(s) => self.spec_selected() == Some(s@),
                None => self.spec_selected() is None,
            },
    {
        match &self.selected {
            Some(s) => Some(s.as_str()),
            None => None,
        }
    }

    /// Records the device the output actually ended up on.
    pub fn set_selected(&mut self, device_id: Option<&str>)
        ensures
            final(self).spec_selected() == match device_id {
                Some(s) => Some(s@),
                None => None::<Seq<char>>,
            },
            final(self).spec_open() == old(self).spec_open(),
            final(self).spec_scanned() == old(self).spec_scanned(),
            final(self).spec_devices() == old(self).spec_devices(),
            final(self).spec_diagnostics() == old(self).spec_diagnostics(),
            final(self).spec_last_error() == old(self).spec_last_error(),
            final(self).spec_scrub() == old(self).spec_scrub(),
    {
        self.selected = match device_id {
            Some(s) => Some(s.to_string()),
            None => None,
        };
    }

    /// Records the latest snapshot of the open stream.
    pub fn set_diagnostics(&mut self, diagnostics: Option<OutputDiagnostics>)
        ensures
            final(self).spec_diagnostics() == diagnostics,
            final(self).spec_open() == old(self).spec_open(),
            final(self).spec_selected() == old(self).spec_selected(),
            final(self).spec_devices() == old(self).spec_devices(),
            final(self).spec_last_error() == old(self).spec_last_error(),
            final(self).spec_scrub() == old(self).spec_scrub(),
            final(self).spec_scanned() == old(self).spec_scanned(),
    {
        self.diagnostics = diagnostics;
    }

    /// The snapshot the panel is showing.
    pub fn diagnostics(&self) -> (r: Option<&OutputDiagnostics>)
        ensures
            match r {
                Some(d) => self.spec_diagnostics() == Some(*d),
                None => self.spec_diagnostics() is None,
            },
    {
        match &self.diagnostics {
            Some(d) => Some(d),
            None => None,
        }
    }

    /// Records why a device switch failed.
    pub fn set_error(&mut self, error: Option<Problem>)
        ensures
            final(self).spec_last_error() == error,
            final(self).spec_open() == old(self).spec_open(),
            final(self).spec_selected() == old(self).spec_selected(),
            final(self).spec_devices() == old(self).spec_devices(),
            final(self).spec_diagnostics() == old(self).spec_diagnostics(),
            final(self).spec_scrub() == old(self).spec_scrub(),
            final(self).spec_scanned() == old(self).spec_scanned(),
    {
        self.last_error = error;
    }

    /// The error from the last failed switch.
    pub fn last_error(&self) -> (r: Option<&Problem>)
        ensures
            match r {
                Some(e) => self.spec_last_error() == Some(*e),
                None => self.spec_last_error() is None,
            },
    {
        match &self.last_error {
            Some(e) => Some(e),
            None => None,
        }
    }

    /// Records what scrubbing is actually set to.
    pub fn set_scrub(&mut self, scrub: S)
        ensures
            final(self).spec_scrub() == scrub,
            final(self).spec_open() == old(self).spec_open(),
            final(self).spec_selected() == old(self).spec_selected(),
            final(self).spec_devices() == old(self).spec_devices(),
            final(self).spec_diagnostics() == old(self).spec_diagnostics(),
            final(self).spec_last_error() == old(self).spec_last_error(),
            final(self).spec_scanned() == old(self).spec_scanned(),
    {
        self.scrub = scrub;
    }

    /// The scrub settings the panel is showing.
    pub fn scrub(&self) -> (r: S)
        ensures
            r == self.spec_scrub(),
    {
        self.scrub
    }
}

/// What the user clicked in the panel this frame.
#[derive(Debug, Clone, Copy)]
pub enum SettingsClick<S> {
    /// The rescan button.
    Rescan,
    /// The system default entry.
    SystemDefault,
    /// The device entry at this place in the list shown.
    Device(usize),
    /// A scrubbing control changed, to these settings.
    Scrub(S),
}

/// What the user asked the panel for this frame.
#[derive(Debug, Clone, PartialEq, Eq)]
pub enum AudioSettingsAction<S> {
    /// Nothing was asked for.
    Nothing,
    /// Scan the host for devices again.
    Rescan,
    /// Play on this device, or on the system default when absent.
    SelectDevice(Option<String>),
    /// Scrub with these settings.
    SetScrub(S),
}

impl<S: Copy> AudioSettingsPanel<S> {
    /// What a click asks for: a rescan; the system default, unless it is
    /// already in use; a listed device, unless it is the one already chosen;
    /// or the scrub settings a control changed to. A click on an entry the
    /// list does not show asks for nothing.
    pub fn action_for(&self, click: SettingsClick<S>) -> (r: AudioSettingsAction<S>)
        ensures
            match click {
                SettingsClick::Rescan => r is Rescan,
                SettingsClick::SystemDefault => if self.spec_selected() is Some {
                    r matches AudioSettingsAction::SelectDevice(None)
                } else {
                    r is Nothing
                },
                SettingsClick::Device(i) => match self.spec_devices() {
                    Some(Ok(v)) => if i < v.len() && self.spec_selected() != Some(v[i as int].id@) {
                        r matches AudioSettingsAction::SelectDevice(Some(id)) && id@ == v[i as int].id@
                    } else {
                        r is Nothing
                    },
                    _ => r is Nothing,
                },
                SettingsClick::Scrub(s) => r == AudioSettingsAction::SetScrub(s),
            },
    {
        match click {
            SettingsClick::Rescan => AudioSettingsAction::Rescan,
            SettingsClick::SystemDefault => if self.selected.is_some() {
                AudioSettingsAction::SelectDevice(None)
            } else {
                AudioSettingsAction::Nothing
            },
            SettingsClick::Device(i) => match &self.devices {
                Some(Ok(v)) => {
                    if i < v.len() {
                        let id = v[i].id.as_str();
                        let chosen = match &self.selected {
                            Some(s) => str_eq(s.as_str(), id),
                            None => false,
                        };
                        if chosen {
                            AudioSettingsAction::Nothing
                        } else {
                            AudioSettingsAction::SelectDevice(Some(id.to_string()))
                        }
                    } else {
                        AudioSettingsAction::Nothing
                    }
                },
                _ => AudioSettingsAction::Nothing,
            },
            SettingsClick::Scrub(s) => AudioSettingsAction::SetScrub(s),
        }
    }
}

} // verus!
