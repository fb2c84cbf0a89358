use iso_usb_hub::hardware_snapshot::{reset_reason_label, ResetReason};
use iso_usb_hub::boot_diag::{
    BootFaultCode, BootSelfCheckSnapshot, BootStage, GateDecision, SelfCheckItemState, SysCheck,
};
use iso_usb_hub::front_panel;
use iso_usb_hub::hardware_snapshot::{
    write_snapshot_json, BuzzerSnapshot, FanSnapshot, I2cSnapshot, Ina226Registers, Ina226Runtime,
    McuSnapshot, NodeState, PortProbe, PortRuntime, PowerInputSnapshot, SensorProbe,
    SnapshotOverflow, Tmp112Registers, Tmp112Runtime,
};
use iso_usb_hub::hub_sideband;
use iso_usb_hub::text::TextBuf;

fn port(ui_state: &'static str, ready: bool, sample_ok: bool) -> PortRuntime {
    PortRuntime {
        ui_state,
        scan_done: true,
        ready,
        sample_ok,
        manual_enabled: true,
        pwren_enabled: true,
        en_enabled: true,
        ocp_latched: false,
        vbus_mv: 5012,
        current_ma: 250,
        ina226: Ina226Runtime::default(),
        tmp112: Tmp112Runtime::default(),
    }
}

fn write(out: &mut TextBuf, front: Option<front_panel::Snapshot>) -> Result<(), SnapshotOverflow> {
    let mut boot = BootSelfCheckSnapshot::new();
    boot.set_stage(BootStage::Runtime);
    boot.set_sys(SysCheck::Vin, SelfCheckItemState::Pass, BootFaultCode::Clear);
    boot.set_sys(SysCheck::Fan, SelfCheckItemState::Warn, BootFaultCode::FanUnavailable);
    boot.latch_fault(BootFaultCode::FanUnavailable);
    boot.finalize(GateDecision::new());
    let power = PowerInputSnapshot {
        present: true,
        state: SelfCheckItemState::Pass,
        fault: "-",
        vin_mv: -5,
        pg_good: true,
        ready: true,
        target_closed: true,
    };
    let i2c = I2cSnapshot {
        topology: "mux",
        mux_state: NodeState::Online,
        mux_address: 0x70,
        recovery_clocks: 9,
        reset_released_high: true,
    };
    let sideband = Some(hub_sideband::Snapshot::from_registers(0x0F, 0xFF, 0x00, 0x55));
    let mcu = McuSnapshot {
        state: NodeState::Online,
        internal_temperature_milli_c: 41250,
        internal_temperature_raw: 120,
        over_temp_alarm: false,
    };
    let fan = FanSnapshot {
        state: NodeState::Fault,
        ready: false,
        enabled: true,
        tach_valid: false,
        rpm: 0,
        target_rpm: 3000,
        max_rpm: 6000,
        speed_pct: 50,
        target_speed_pct: 60,
        hardware_pwm_duty_pct: 50,
        temperature_milli_c: 0,
        temperature_raw: 0,
        over_temp_alarm: false,
    };
    let buzzer = BuzzerSnapshot {
        state: NodeState::Online,
        driver_ready: true,
        playing: false,
        active_tone: "none",
        active_alarm: "none",
        frequency_hz: 0,
        duty_pct: 0,
    };
    let mut p0 = port("on", true, true);
    p0.ina226 = Ina226Runtime {
        state: NodeState::Online,
        reason: "ok",
        bus_voltage_mv: 5012,
        shunt_voltage_uv: -20,
        current_ma: 250,
        registers: Ina226Registers {
            config: 0x4127,
            shunt_voltage: 0xFFF6,
            bus_voltage: 0x0FA8,
            power: 0x0005,
            current: 0x00FA,
            calibration: 0x0A00,
            mask_enable: 0x0000,
            alert_limit: 0x0000,
            manufacturer_id: 0x5449,
            die_id: 0x2260,
        },
    };
    p0.tmp112 = Tmp112Runtime {
        state: NodeState::Online,
        reason: "ok",
        temperature_milli_c: 31500,
        registers: Tmp112Registers { temperature: 0x1F80, config: 0x60A0, t_low: 0x4B00, t_high: 0x5000 },
    };
    let ports = [p0, port("skipped", false, false), port("off", false, false), port("off", true, false)];
    let present = SensorProbe { present: true, method: "ack", tries: 1 };
    let probes = [
        PortProbe { ina226: present, tmp112: present },
        PortProbe::skipped(),
        PortProbe { ina226: present, tmp112: SensorProbe::skipped() },
        PortProbe::skipped(),
    ];
    write_snapshot_json(
        out,
        "0.1.0",
        7,
        123456,
        "power_on",
        &boot,
        power,
        i2c,
        sideband,
        NodeState::Online,
        front,
        NodeState::Online,
        mcu,
        fan,
        buzzer,
        &ports,
        &probes,
        &[0x40, 0x41, 0x42, 0x43],
        &[0x48, 0x49, 0x4A, 0x4B],
    )
}

#[test]
fn snapshot_is_complete_and_exact_in_its_sections() {
    let mut out = TextBuf::with_capacity(16384);
    let front = Some(front_panel::Snapshot { input: 0b1111_1110, output: 0xFF, polarity: 0, config: 0x9F });
    assert_eq!(write(&mut out, front), Ok(()));
    let s = out.as_str();
    assert!(s.starts_with("{\"schema\":\"isolarail.hardware.snapshot.v1\",\"packages\":["));
    assert!(s.contains("\"sequence\":7,\"uptime_ms\":123456,\"firmware\":{\"name\":\"iso-usb-hub\",\"version\":\"0.1.0\",\"target\":\"esp32s3\"},\"reset_reason\":\"power_on\","));
    assert!(s.contains("\"boot\":{\"stage\":\"runtime\",\"outcome\":\"DEG\",\"first_fault\":\"FAN\""));
    assert!(s.contains("\"checks\":{\"vin\":{\"state\":\"OK\",\"fault\":\"-\"},\"mux\":{\"state\":\"PEND\",\"fault\":\"-\"},\"front_panel\":{\"state\":\"PEND\",\"fault\":\"-\"},\"fan\":{\"state\":\"WARN\",\"fault\":\"FAN\"}}},"));
    assert!(s.contains("\"vin_mv\":-5,"));
    assert!(s.contains("\"mux\":{\"present\":true,\"state\":\"online\",\"address\":\"0x70\"}"));
    assert!(s.contains("\"sideband\":{\"present\":true,\"state\":\"online\",\"device\":\"TCA6408A\",\"address\":\"0x20\",\"registers\":{\"input\":\"0x0F\",\"output\":\"0xFF\",\"polarity\":\"0x00\",\"config\":\"0x55\"}"));
    assert!(s.contains("\"keys\":{\"center\":true,\"right\":false,\"down\":false,\"left\":false,\"up\":false}"));
    assert!(s.contains("\"fan\":{\"present\":false,\"state\":\"error\""));
    assert!(s.contains("\"shunt_voltage_uv\":-20"));
    assert!(s.contains("\"registers\":{\"config\":\"0x4127\",\"shunt_voltage\":\"0xFFF6\",\"bus_voltage\":\"0x0FA8\",\"power\":\"0x0005\""));
    assert!(s.contains("\"tmp112\":{\"address\":\"0x48\",\"present\":true,\"state\":\"online\",\"method\":\"ack\",\"tries\":1,\"reason\":\"ok\",\"reading\":{\"temperature_milli_c\":31500}"));
    // Port 2 is skipped by its screen state; port 3 has one sensor only; port 4 is ready with a failed sample.
    assert!(s.contains("{\"index\":2,\"present\":false,\"state\":\"skipped\""));
    assert!(s.contains("{\"index\":3,\"present\":false,\"state\":\"error\""));
    assert!(s.contains("{\"index\":4,\"present\":false,\"state\":\"error\""));
    assert!(s.contains("\"ina226\":{\"address\":\"0x41\",\"present\":false,\"state\":\"offline\",\"method\":\"skipped\",\"tries\":0,\"reason\":\"no_ack_or_not_populated\"}"));
    assert!(s.ends_with("]}"));
}

#[test]
fn absent_front_panel_requested_online_reports_an_error() {
    let mut out = TextBuf::with_capacity(16384);
    assert_eq!(write(&mut out, None), Ok(()));
    assert!(out.as_str().contains("\"front_panel\":{\"present\":false,\"state\":\"error\",\"device\":\"TCA6408A\",\"address\":\"0x21\",\"reason\":\"runtime_read_failed\"},"));
}

#[test]
fn snapshot_that_does_not_fit_stops_at_a_piece() {
    let mut out = TextBuf::with_capacity(60);
    assert_eq!(write(&mut out, None), Err(SnapshotOverflow));
    assert_eq!(out.as_str(), "{\"schema\":\"isolarail.hardware.snapshot.v1");
}

#[test]
fn node_state_names_and_presence() {
    assert_eq!(NodeState::Fault.as_str(), "error");
    assert!(NodeState::Online.present());
    assert!(!NodeState::Skipped.present());
    assert_eq!(Ina226Runtime::offline("gone").state, NodeState::Offline);
    assert_eq!(Tmp112Runtime::skipped("x").registers, Tmp112Registers::empty());
    assert_eq!(Ina226Runtime::default().reason, "runtime_not_sampled");
}

#[test]
fn reset_reasons_have_snapshot_names() {
    assert_eq!(reset_reason_label(Some(ResetReason::SysBrownOut)), "sys_brown_out");
    assert_eq!(reset_reason_label(None), "unknown");
}
