# iso_usb_hub

The control-plane logic of a four-port isolated USB hub, written in Verus:
every function in `src/` carries a contract that Verus proves.

- `src/text.rs`: the fixed-capacity text buffer every payload is written
  into, decimal and hexadecimal digits, JSON escaping, and the one-piece-at-a-
  time write model (`write_fold`, `render_groups`) the renderers are stated in.
- Device contract and APIs: `device_identity`, `device_contract`,
  `http_api_v1`, `usb_jsonl`, `network`, `net_config`, `mdns`,
  `hardware_snapshot`, `pd_report`, `api_actions`.
- Board rules: `port_policy`, `runtime_control`, `boot_diag`, `audio_logic`,
  `buzzer`, `fan`, `front_panel`, `joystick`, `hub_sideband`.
- Runtime loops as state machines: `app_loop` (the dashboard loop's alarms,
  beeps, power-allocation timing, joystick selection and data-line cut) and
  `wifi_loop` (the Wi-Fi station's connect, retry and back-off decisions).
- Storage: `provisioning` (the Wi-Fi credential record), `hub_eeprom` (the
  hub controller's configuration image), `build_info`.

Laws of the library are public proof functions named `lemma_*`.

`tests/` runs the library on concrete values. `app/` is a small host driver
for the USB JSON-lines channel (standard input to standard output); it holds
the floating-point helpers that the library leaves out, and `app/loops.rs`
runs the dashboard, Wi-Fi and fan loops on a board that performs the
operations the library's decision functions ask for.
