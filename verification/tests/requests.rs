use coolbox_autofan::port::{
    open_coolbox_autofan_port, DataBits, FlowControl, Parity, PortRequest, StopBits,
};
use coolbox_autofan::request::{
    fan_order, FanOrder, TempUpdate, UpdateError, AUTO_FAN_MODE, MANUAL_FAN_MODE,
};

#[test]
fn port_is_opened_with_the_fixed_parameters() {
    assert_eq!(
        open_coolbox_autofan_port("/dev/ttyUSB0"),
        PortRequest {
            device_path: "/dev/ttyUSB0".to_string(),
            baud_rate: 9600,
            data_bits: DataBits::Eight,
            parity: Parity::Off,
            stop_bits: StopBits::One,
            flow_control: FlowControl::Off,
            read_timeout_ms: 500,
            settle_ms: 800,
        }
    );
}

#[test]
fn fan_modes() {
    assert_eq!(MANUAL_FAN_MODE, 1);
    assert_eq!(AUTO_FAN_MODE, 2);
}

#[test]
fn manual_fan_control() {
    let update = TempUpdate {
        core_temp: vec![],
        mem_temp: vec![],
        target_core_temp: 60,
        target_mem_temp: 70,
        watchdog_interval: None,
        fan_speed: Some(70),
    };
    assert_eq!(
        fan_order(update),
        Ok(FanOrder {
            gpu_temp: None,
            gpu_mem: None,
            fan_mode: 1,
            target_temp: 60,
            target_mem: 70,
            watchdog: 0,
            wd_reset_interval: None,
            manual_fan_speed: 70,
        })
    );
}

#[test]
fn automatic_temperature_control() {
    let update = TempUpdate {
        core_temp: vec![65, 66],
        mem_temp: vec![80, 76],
        target_core_temp: 70,
        target_mem_temp: 90,
        watchdog_interval: None,
        fan_speed: None,
    };
    assert_eq!(
        fan_order(update),
        Ok(FanOrder {
            gpu_temp: Some(vec![65, 66]),
            gpu_mem: Some(vec![80, 76]),
            fan_mode: 2,
            target_temp: 70,
            target_mem: 90,
            watchdog: 0,
            wd_reset_interval: None,
            manual_fan_speed: 0,
        })
    );
}

#[test]
fn automatic_control_with_the_watchdog() {
    let update = TempUpdate {
        core_temp: vec![63, 68],
        mem_temp: vec![80, 85],
        target_core_temp: 80,
        target_mem_temp: 90,
        watchdog_interval: Some(5),
        fan_speed: None,
    };
    assert_eq!(
        fan_order(update),
        Ok(FanOrder {
            gpu_temp: Some(vec![63, 68]),
            gpu_mem: Some(vec![80, 85]),
            fan_mode: 2,
            target_temp: 80,
            target_mem: 90,
            watchdog: 1,
            wd_reset_interval: Some(5),
            manual_fan_speed: 0,
        })
    );
}

#[test]
fn watchdog_interval_of_zero_turns_the_watchdog_off() {
    let update = TempUpdate {
        core_temp: vec![50],
        mem_temp: vec![],
        target_core_temp: 0,
        target_mem_temp: -5,
        watchdog_interval: Some(0),
        fan_speed: Some(0),
    };
    assert_eq!(
        fan_order(update),
        Ok(FanOrder {
            gpu_temp: Some(vec![50]),
            gpu_mem: None,
            fan_mode: 1,
            target_temp: 0,
            target_mem: -5,
            watchdog: 0,
            wd_reset_interval: Some(0),
            manual_fan_speed: 0,
        })
    );
}

#[test]
fn mismatched_temperatures_are_turned_down() {
    let update = TempUpdate {
        core_temp: vec![60, 61],
        mem_temp: vec![70],
        target_core_temp: 70,
        target_mem_temp: 90,
        watchdog_interval: None,
        fan_speed: None,
    };
    assert_eq!(fan_order(update), Err(UpdateError::MismatchedTemperatures));
    assert_eq!(
        UpdateError::MismatchedTemperatures.describe(),
        "Both arrays of core and VRAM temps, if provided, must be of the same size"
    );
}

#[test]
fn only_memory_temperatures() {
    let update = TempUpdate {
        core_temp: vec![],
        mem_temp: vec![70, 71, 72],
        target_core_temp: 65,
        target_mem_temp: 85,
        watchdog_interval: Some(u32::MAX),
        fan_speed: Some(255),
    };
    assert_eq!(
        fan_order(update),
        Ok(FanOrder {
            gpu_temp: None,
            gpu_mem: Some(vec![70, 71, 72]),
            fan_mode: 1,
            target_temp: 65,
            target_mem: 85,
            watchdog: 1,
            wd_reset_interval: Some(u32::MAX),
            manual_fan_speed: 255,
        })
    );
}
