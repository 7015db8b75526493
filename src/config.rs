use vstd::prelude::*;

verus! {

/// Width of one data character on the line, in bits.
#[derive(Clone, Copy, Debug, PartialEq, Eq, Structural)]
pub enum CharWidth {
    Bits5,
    Bits6,
    Bits7,
    Bits8,
}

/// Number of stop bits after each character.
#[derive(Clone, Copy, Debug, PartialEq, Eq, Structural)]
pub enum StopBits {
    Stop1,
    Stop2,
}

/// Flow control on the line.
#[derive(Clone, Copy, Debug, PartialEq, Eq, Structural)]
pub enum FlowControl {
    FlowNone,
    FlowSoftware,
    FlowHardware,
}

/// Baud rate used when none is requested.
pub const DEFAULT_BAUD_RATE: usize = 115200;

/// Device timeout, in seconds, used when none is requested.
pub const DEFAULT_TIMEOUT_SECS: u64 = 10;

/// The link settings that one invocation asks of the serial device.
#[derive(Clone, Copy, Debug, PartialEq, Eq, Structural)]
pub struct LinkConfig {
    /// Line speed in bits per second.
    pub baud_rate: usize,
    pub char_width: CharWidth,
    pub stop_bits: StopBits,
    pub flow_control: FlowControl,
    /// Timeout of each device operation, in seconds.
    pub timeout_secs: u64,
}

impl LinkConfig {
    /// The named defaults: 115200 baud, 8 data bits, 1 stop bit, no flow
    /// control and a 10 second timeout.
    pub fn new() -> (r: LinkConfig)
        ensures
            r.baud_rate == DEFAULT_BAUD_RATE,
            r.char_width == CharWidth::Bits8,
            r.stop_bits == StopBits::Stop1,
            r.flow_control == FlowControl::FlowNone,
            r.timeout_secs == DEFAULT_TIMEOUT_SECS,
    {
        LinkConfig {
            baud_rate: DEFAULT_BAUD_RATE,
            char_width: CharWidth::Bits8,
            stop_bits: StopBits::Stop1,
            flow_control: FlowControl::FlowNone,
            timeout_secs: DEFAULT_TIMEOUT_SECS,
        }
    }

    /// The settings that a device configured with `self` must report.
    pub fn requested_settings(&self) -> (r: LinkSettings)
        ensures
            r == self.requested(),
    {
        LinkSettings {
            baud_rate: Some(self.baud_rate),
            char_width: Some(self.char_width),
            stop_bits: Some(self.stop_bits),
            flow_control: Some(self.flow_control),
        }
    }

    pub open spec fn requested(self) -> LinkSettings {
        LinkSettings {
            baud_rate: Some(self.baud_rate),
            char_width: Some(self.char_width),
            stop_bits: Some(self.stop_bits),
            flow_control: Some(self.flow_control),
        }
    }
}

/// Line settings as a device reports them; a field the device cannot
/// express in these terms is `None`.
#[derive(Clone, Copy, Debug, PartialEq, Eq, Structural)]
pub struct LinkSettings {
    pub baud_rate: Option<usize>,
    pub char_width: Option<CharWidth>,
    pub stop_bits: Option<StopBits>,
    pub flow_control: Option<FlowControl>,
}

/// Why the link could not be configured.
#[derive(Clone, Copy, Debug, PartialEq, Eq, Structural)]
pub enum ConfigError {
    /// The device did not accept the timeout.
    InvalidTimeout,
    /// The device did not accept the baud rate.
    InvalidBaudRate,
    /// The device refused the settings, or reported other settings than
    /// those requested.
    UnsupportedSettings,
    /// The device's settings could not be read or written at all.
    DeviceUnreachable,
}

/// Whether the settings a device reports are exactly those requested.
pub fn settings_match(cfg: &LinkConfig, read: &LinkSettings) -> (r: bool)
    ensures
        r == (*read == cfg.requested()),
{
    let want = cfg.requested_settings();
    want == *read
}

} // verus!
