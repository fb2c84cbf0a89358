//! Control-plane logic of a four-port isolated USB hub: audio cues, boot
//! self-check bookkeeping, port control decisions, the device contract
//! rendered over HTTP and USB JSON lines, and Wi-Fi credential records.

use vstd::prelude::*;

pub mod api_actions;
pub mod app_loop;
pub mod audio_logic;
pub mod boot_diag;
pub mod build_info;
pub mod buzzer;
pub mod device_contract;
pub mod device_identity;
pub mod fan;
pub mod front_panel;
pub mod hardware_snapshot;
pub mod http_api_v1;
pub mod joystick;
pub mod mdns;
pub mod net_config;
pub mod network;
pub mod pd_report;
pub mod port_policy;
pub mod hub_eeprom;
pub mod hub_sideband;
pub mod provisioning;
pub mod runtime_control;
pub mod text;
pub mod usb_jsonl;
pub mod wifi_loop;

verus! {

} // verus!
