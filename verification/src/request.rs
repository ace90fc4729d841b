//! Temperature updates and the fan order they become.
//!
//! A temperature update reports what the GPUs measure and what is wanted of
//! the fans. The board takes it as one order with a fixed set of fields;
//! this module says which values the fields get.
use vstd::prelude::*;

verus! {

/// Fan mode in which the speed is set by hand.
pub const MANUAL_FAN_MODE: i32 = 1;

/// Fan mode in which the board picks the speed from the temperatures.
pub const AUTO_FAN_MODE: i32 = 2;

/// Current temperatures, their targets, and fan and watchdog settings.
#[derive(Clone, PartialEq, Eq, Debug)]
pub struct TempUpdate {
    /// GPU core temperatures, one per GPU.
    pub core_temp: Vec<i32>,
    /// GPU memory temperatures, one per GPU.
    pub mem_temp: Vec<i32>,
    /// Target GPU core temperature.
    pub target_core_temp: i32,
    /// Target GPU memory temperature.
    pub target_mem_temp: i32,
    /// Watchdog reset interval, in minutes. Absent or zero turns the
    /// watchdog off.
    pub watchdog_interval: Option<u32>,
    /// Manual fan speed. Absent lets the board pick the speed.
    pub fan_speed: Option<u8>,
}

/// The fields of the order that the board takes for a temperature update.
#[derive(Clone, PartialEq, Eq, Debug)]
pub struct FanOrder {
    /// GPU core temperatures; left out of the order when none were given.
    pub gpu_temp: Option<Vec<i32>>,
    /// GPU memory temperatures; left out of the order when none were given.
    pub gpu_mem: Option<Vec<i32>>,
    /// Manual or automatic.
    pub fan_mode: i32,
    /// Target GPU core temperature.
    pub target_temp: i32,
    /// Target GPU memory temperature.
    pub target_mem: i32,
    /// One when the watchdog is on, zero when it is off.
    pub watchdog: i32,
    /// Watchdog reset interval, as it was given.
    pub wd_reset_interval: Option<u32>,
    /// Fan speed in manual mode, zero in automatic mode.
    pub manual_fan_speed: u8,
}

/// Why a temperature update was turned down.
#[derive(Clone, Copy, PartialEq, Eq, Debug, Structural)]
pub enum UpdateError {
    /// Core and memory temperatures were both given, for different numbers
    /// of GPUs.
    MismatchedTemperatures,
}

impl UpdateError {
    /// The failure in words.
    pub fn describe(&self) -> (words: &'static str)
        ensures
            words@
                == "Both arrays of core and VRAM temps, if provided, must be of the same size"@,
    {
        "Both arrays of core and VRAM temps, if provided, must be of the same size"
    }
}

/// Whether the temperatures of an update fit together: where both kinds are
/// given, they are given for the same number of GPUs.
pub open spec fn temperatures_fit(core_temp: Seq<i32>, mem_temp: Seq<i32>) -> bool {
    core_temp.len() == mem_temp.len() || core_temp.len() == 0 || mem_temp.len() == 0
}

/// The temperatures as they go into the order: left out when there are none.
pub open spec fn listed(temps: Seq<i32>, field: Option<Vec<i32>>) -> bool {
    match field {
        Some(values) => temps.len() > 0 && values@ == temps,
        None => temps.len() == 0,
    }
}

fn listing(temps: Vec<i32>) -> (field: Option<Vec<i32>>)
    ensures
        listed(temps@, field),
{
    if temps.len() > 0 {
        Some(temps)
    } else {
        None
    }
}

/// The order that the board takes for `update`.
///
/// An update whose temperatures do not fit together is turned down. In the
/// order, the fan mode is manual exactly when a fan speed was given, and the
/// watchdog is on exactly when a reset interval other than zero was given.
pub fn fan_order(update: TempUpdate) -> (order: Result<FanOrder, UpdateError>)
    ensures
        order.is_ok() <==> temperatures_fit(update.core_temp@, update.mem_temp@),
        match order {
            Ok(fields) => {
                &&& listed(update.core_temp@, fields.gpu_temp)
                &&& listed(update.mem_temp@, fields.gpu_mem)
                &&& fields.fan_mode == if update.fan_speed is Some {
                    MANUAL_FAN_MODE
                } else {
                    AUTO_FAN_MODE
                }
                &&& fields.target_temp == update.target_core_temp
                &&& fields.target_mem == update.target_mem_temp
                &&& fields.watchdog == match update.watchdog_interval {
                    None => 0i32,
                    Some(minutes) => if minutes == 0 {
                        0i32
                    } else {
                        1i32
                    },
                }
                &&& fields.wd_reset_interval == update.watchdog_interval
                &&& fields.manual_fan_speed == match update.fan_speed {
                    Some(speed) => speed,
                    None => 0u8,
                }
            },
            Err(error) => error == UpdateError::MismatchedTemperatures,
        },
{
    if update.core_temp.len() != update.mem_temp.len() && update.core_temp.len() != 0
        && update.mem_temp.len() != 0 {
        return Err(UpdateError::MismatchedTemperatures);
    }
    let watchdog: i32 = match update.watchdog_interval {
        None => 0,
        Some(minutes) => if minutes == 0 {
            0
        } else {
            1
        },
    };
    let (fan_mode, manual_fan_speed): (i32, u8) = match update.fan_speed {
        Some(speed) => (MANUAL_FAN_MODE, speed),
        None => (AUTO_FAN_MODE, 0),
    };
    Ok(
        FanOrder {
            gpu_temp: listing(update.core_temp),
            gpu_mem: listing(update.mem_temp),
            fan_mode,
            target_temp: update.target_core_temp,
            target_mem: update.target_mem_temp,
            watchdog,
            wd_reset_interval: update.watchdog_interval,
            manual_fan_speed,
        },
    )
}

} // verus!
