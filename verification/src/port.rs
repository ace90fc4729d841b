//! How the board's serial port is opened.
//!
//! The board speaks 9600 baud, eight data bits, no parity, one stop bit and
//! no flow control. None of this is configurable: whoever opens the port
//! takes every parameter from here.
use crate::protocol::{BAUD_RATE, POST_CONNECTION_TIMEOUT_MS, READ_TIMEOUT_MS};
use vstd::prelude::*;

verus! {

/// Number of data bits per character.
#[derive(Clone, Copy, PartialEq, Eq, Debug, Structural)]
pub enum DataBits {
    /// Five bits.
    Five,
    /// Six bits.
    Six,
    /// Seven bits.
    Seven,
    /// Eight bits.
    Eight,
}

/// Parity checking.
#[derive(Clone, Copy, PartialEq, Eq, Debug, Structural)]
pub enum Parity {
    /// No parity bit.
    Off,
    /// The parity bit makes the number of ones odd.
    Odd,
    /// The parity bit makes the number of ones even.
    Even,
}

/// Number of stop bits.
#[derive(Clone, Copy, PartialEq, Eq, Debug, Structural)]
pub enum StopBits {
    /// One stop bit.
    One,
    /// Two stop bits.
    Two,
}

/// Flow control.
#[derive(Clone, Copy, PartialEq, Eq, Debug, Structural)]
pub enum FlowControl {
    /// No flow control.
    Off,
    /// Flow control with XON and XOFF bytes.
    Software,
    /// Flow control with the RTS and CTS lines.
    Hardware,
}

/// Everything that opening the board's port takes.
#[derive(Clone, PartialEq, Eq, Debug)]
pub struct PortRequest {
    /// The path of the device.
    pub device_path: String,
    /// Speed of the line, in baud.
    pub baud_rate: u32,
    /// Data bits per character.
    pub data_bits: DataBits,
    /// Parity checking.
    pub parity: Parity,
    /// Stop bits.
    pub stop_bits: StopBits,
    /// Flow control.
    pub flow_control: FlowControl,
    /// How long one read may wait for a byte, in milliseconds.
    pub read_timeout_ms: u64,
    /// How long to wait after opening before the port is used, in
    /// milliseconds, so that the board can start up.
    pub settle_ms: u64,
}

/// The request to open the board's port at `device_path`.
pub fn open_coolbox_autofan_port(device_path: &str) -> (request: PortRequest)
    ensures
        request.device_path@ == device_path@,
        request.baud_rate == 9600,
        request.data_bits == DataBits::Eight,
        request.parity == Parity::Off,
        request.stop_bits == StopBits::One,
        request.flow_control == FlowControl::Off,
        request.read_timeout_ms == 500,
        request.settle_ms == 800,
{
    PortRequest {
        device_path: device_path.to_owned(),
        baud_rate: BAUD_RATE,
        data_bits: DataBits::Eight,
        parity: Parity::Off,
        stop_bits: StopBits::One,
        flow_control: FlowControl::Off,
        read_timeout_ms: READ_TIMEOUT_MS,
        settle_ms: POST_CONNECTION_TIMEOUT_MS,
    }
}

} // verus!
