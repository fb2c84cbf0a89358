//! JSON fragments of the power-delivery diagnostics: optional values as
//! `null`, escaped strings, the list of enabled fixed voltages, and the
//! power-delivery controller's capability readback. Every fragment is
//! appended with writes that each go in whole or not at all.
use vstd::prelude::*;
use crate::device_contract::{bool_str, bool_text};
use crate::text::{
    bounded_push, dec_chars, decimal, emit, escape_groups, lemma_push_is_write, render_groups,
    write_fold, TextBuf,
};

verus! {

pub open spec fn bool_or_null_text(v: Option<bool>) -> Seq<char> {
    match v {
        None => "null"@,
        Some(true) => "true"@,
        Some(false) => "false"@,
    }
}

/// Appends `null`, `true` or `false`.
pub fn write_json_bool_or_null(body: &mut TextBuf, v: Option<bool>)
    ensures
        final(body).capacity() == old(body).capacity(),
        final(body)@ == bounded_push(old(body)@, bool_or_null_text(v), old(body).capacity()),
{
    match v {
        None => {
            body.push_str("null");
        },
        Some(true) => {
            body.push_str("true");
        },
        Some(false) => {
            body.push_str("false");
        },
    }
}

pub open spec fn u32_or_null_text(v: Option<u32>) -> Seq<char> {
    match v {
        None => "null"@,
        Some(n) => dec_chars(n as nat),
    }
}

/// Appends `null` or the number in decimal.
pub fn write_json_u32_or_null(body: &mut TextBuf, v: Option<u32>)
    ensures
        final(body).capacity() == old(body).capacity(),
        final(body)@ == bounded_push(old(body)@, u32_or_null_text(v), old(body).capacity()),
{
    match v {
        None => {
            body.push_str("null");
        },
        Some(n) => {
            let digits = decimal(n as u64);
            body.push_str(digits.as_str());
        },
    }
}

/// The writes of a quoted, escaped JSON string.
pub open spec fn json_string_groups(value: Seq<char>) -> Seq<Seq<Seq<char>>> {
    seq![seq![seq!['"']]] + escape_groups(value, false) + seq![seq![seq!['"']]]
}

/// Appends `value` as a JSON string: quoted, with `"`, `\`, line feed,
/// carriage return and tab escaped by a backslash and other control
/// characters as `\u` and four hex digits.
pub fn write_json_string(body: &mut TextBuf, value: &str)
    ensures
        final(body).capacity() == old(body).capacity(),
        final(body)@ == render_groups(old(body)@, json_string_groups(value@), old(body).capacity()),
{
    let ghost start = body@;
    let ghost cap = body.capacity();
    body.push('"');
    proof {
        lemma_push_is_write(start, seq!['"'], cap);
        crate::text::lemma_render_groups_push(start, Seq::empty(), seq![seq!['"']], cap);
        assert(Seq::<Seq<Seq<char>>>::empty().push(seq![seq!['"']]) =~= seq![seq![seq!['"']]]);
    }
    let ghost after_quote = body@;
    body.push_json_escaped(value, false);
    proof {
        crate::text::lemma_render_groups_append(start, seq![seq![seq!['"']]], escape_groups(value@, false), cap);
    }
    let ghost before = body@;
    body.push('"');
    proof {
        let g = seq![seq![seq!['"']]] + escape_groups(value@, false);
        lemma_push_is_write(before, seq!['"'], cap);
        crate::text::lemma_render_groups_push(start, g, seq![seq!['"']], cap);
        assert(g.push(seq![seq!['"']]) =~= json_string_groups(value@));
    }
}

/// One fixed voltage of a list being written: nothing when not enabled;
/// else a comma unless the text so far ends with `[`, then the millivolts.
pub open spec fn fixed_voltage_step(t: Seq<char>, enabled: bool, mv: u32, cap: nat) -> Seq<char> {
    if !enabled {
        t
    } else {
        let t1 = if t.len() > 0 && t.last() == '[' {
            t
        } else {
            bounded_push(t, seq![','], cap)
        };
        bounded_push(t1, dec_chars(mv as nat), cap)
    }
}

pub fn write_fixed_voltage_json(body: &mut TextBuf, enabled: bool, mv: u32)
    ensures
        final(body).capacity() == old(body).capacity(),
        final(body)@ == fixed_voltage_step(old(body)@, enabled, mv, old(body).capacity()),
{
    if !enabled {
        return;
    }
    let s = body.as_str();
    let n = s.unicode_len();
    if !(n > 0 && s.get_char(n - 1) == '[') {
        body.push(',');
    }
    let digits = decimal(mv as u64);
    body.push_str(digits.as_str());
}

/// What the power-delivery controller reports of its configured capability.
#[derive(Clone, Copy, Debug, PartialEq, Eq)]
pub struct Sw2303CapabilityReadback {
    pub available: bool,
    pub power_watts: Option<u8>,
    pub pd_enabled: Option<bool>,
    pub qc20_enabled: Option<bool>,
    pub qc30_enabled: Option<bool>,
    pub fcp_enabled: Option<bool>,
    pub afc_enabled: Option<bool>,
    pub scp_enabled: Option<bool>,
    pub pe20_enabled: Option<bool>,
    pub bc12_enabled: Option<bool>,
    pub sfcp_enabled: Option<bool>,
    pub pps_enabled: Option<bool>,
    pub fixed_9v: Option<bool>,
    pub fixed_12v: Option<bool>,
    pub fixed_15v: Option<bool>,
    pub fixed_20v: Option<bool>,
}

pub open spec fn widen(v: Option<u8>) -> Option<u32> {
    match v {
        Some(w) => Some(w as u32),
        None => None,
    }
}

pub open spec fn known_true(v: Option<bool>) -> bool {
    v == Some(true)
}

/// The text after writing the capability readback onto `t`.
pub open spec fn readback_text(
    t: Seq<char>,
    readback: Sw2303CapabilityReadback,
    matches_config: bool,
    cap: nat,
) -> Seq<char> {
    let t = write_fold(
        t,
        seq![
            "{\"available\":"@,
            bool_text(readback.available),
            ",\"matches_config\":"@,
            bool_text(matches_config),
            ",\"power_watts\":"@,
        ],
        cap,
    );
    let t = bounded_push(t, u32_or_null_text(widen(readback.power_watts)), cap);
    let t = bounded_push(t, ",\"protocols\":{\"pd\":"@, cap);
    let t = bounded_push(t, bool_or_null_text(readback.pd_enabled), cap);
    let t = bounded_push(t, ",\"qc20\":"@, cap);
    let t = bounded_push(t, bool_or_null_text(readback.qc20_enabled), cap);
    let t = bounded_push(t, ",\"qc30\":"@, cap);
    let t = bounded_push(t, bool_or_null_text(readback.qc30_enabled), cap);
    let t = bounded_push(t, ",\"fcp\":"@, cap);
    let t = bounded_push(t, bool_or_null_text(readback.fcp_enabled), cap);
    let t = bounded_push(t, ",\"afc\":"@, cap);
    let t = bounded_push(t, bool_or_null_text(readback.afc_enabled), cap);
    let t = bounded_push(t, ",\"scp\":"@, cap);
    let t = bounded_push(t, bool_or_null_text(readback.scp_enabled), cap);
    let t = bounded_push(t, ",\"pe20\":"@, cap);
    let t = bounded_push(t, bool_or_null_text(readback.pe20_enabled), cap);
    let t = bounded_push(t, ",\"bc12\":"@, cap);
    let t = bounded_push(t, bool_or_null_text(readback.bc12_enabled), cap);
    let t = bounded_push(t, ",\"sfcp\":"@, cap);
    let t = bounded_push(t, bool_or_null_text(readback.sfcp_enabled), cap);
    let t = bounded_push(t, "},\"pd\":{\"pps\":"@, cap);
    let t = bounded_push(t, bool_or_null_text(readback.pps_enabled), cap);
    let t = bounded_push(t, ",\"fixed_voltages_mv\":["@, cap);
    let t = fixed_voltage_step(t, known_true(readback.fixed_9v), 9000, cap);
    let t = fixed_voltage_step(t, known_true(readback.fixed_12v), 12000, cap);
    let t = fixed_voltage_step(t, known_true(readback.fixed_15v), 15000, cap);
    let t = fixed_voltage_step(t, known_true(readback.fixed_20v), 20000, cap);
    bounded_push(t, "]}}"@, cap)
}

pub fn write_sw2303_readback_json(
    body: &mut TextBuf,
    readback: Sw2303CapabilityReadback,
    matches_config: bool,
)
    ensures
        final(body).capacity() == old(body).capacity(),
        final(body)@ == readback_text(old(body)@, readback, matches_config, old(body).capacity()),
{
    let v = vec![
        "{\"available\":",
        bool_str(readback.available),
        ",\"matches_config\":",
        bool_str(matches_config),
        ",\"power_watts\":",
    ];
    proof {
        let expected = seq![
            "{\"available\":"@,
            bool_text(readback.available),
            ",\"matches_config\":"@,
            bool_text(matches_config),
            ",\"power_watts\":"@,
        ];
        assert(v@.map_values(|p: &str| p@) =~= expected);
    }
    body.write_all(&v);
    let watts: Option<u32> = match readback.power_watts {
        Some(w) => Some(w as u32),
        None => None,
    };
    write_json_u32_or_null(body, watts);
    body.push_str(",\"protocols\":{\"pd\":");
    write_json_bool_or_null(body, readback.pd_enabled);
    body.push_str(",\"qc20\":");
    write_json_bool_or_null(body, readback.qc20_enabled);
    body.push_str(",\"qc30\":");
    write_json_bool_or_null(body, readback.qc30_enabled);
    body.push_str(",\"fcp\":");
    write_json_bool_or_null(body, readback.fcp_enabled);
    body.push_str(",\"afc\":");
    write_json_bool_or_null(body, readback.afc_enabled);
    body.push_str(",\"scp\":");
    write_json_bool_or_null(body, readback.scp_enabled);
    body.push_str(",\"pe20\":");
    write_json_bool_or_null(body, readback.pe20_enabled);
    body.push_str(",\"bc12\":");
    write_json_bool_or_null(body, readback.bc12_enabled);
    body.push_str(",\"sfcp\":");
    write_json_bool_or_null(body, readback.sfcp_enabled);
    body.push_str("},\"pd\":{\"pps\":");
    write_json_bool_or_null(body, readback.pps_enabled);
    body.push_str(",\"fixed_voltages_mv\":[");
    write_fixed_voltage_json(body, readback.fixed_9v == Some(true), 9000);
    write_fixed_voltage_json(body, readback.fixed_12v == Some(true), 12000);
    write_fixed_voltage_json(body, readback.fixed_15v == Some(true), 15000);
    write_fixed_voltage_json(body, readback.fixed_20v == Some(true), 20000);
    body.push_str("]}}");
}

/// The power-delivery state published to the diagnostics endpoint.
#[derive(Clone, Copy, Debug, PartialEq, Eq)]
pub struct ApiPdSnapshot {
    pub usb_c_power_enabled: bool,
    pub sw2303_i2c_allowed: bool,
    pub sw2303_profile_applied: bool,
    pub sw2303_stable_reads: u32,
    pub sw2303_error_latched: bool,
    pub tps_error_latched: bool,
    pub sw2303_readback_config: Sw2303CapabilityReadback,
    pub sw2303_readback_matches_config: bool,
    pub sw2303_request_mv: Option<u32>,
    pub sw2303_request_ma: Option<u32>,
    pub sw2303_last_valid_mv: Option<u32>,
    pub sw2303_last_valid_ma: Option<u32>,
    pub tps_setpoint_output_enabled: Option<bool>,
    pub tps_setpoint_mv: Option<u32>,
    pub tps_setpoint_ilim_ma: Option<u32>,
    pub runtime_recovery_count: u32,
    pub sample_uptime_ms: u64,
}

/// The text after writing the requested and set-point values onto `t`.
pub open spec fn pd_requests_text(t: Seq<char>, pd: ApiPdSnapshot, cap: nat) -> Seq<char> {
    let t = bounded_push(t, ",\"sw2303_request\":{\"mv\":"@, cap);
    let t = bounded_push(t, u32_or_null_text(pd.sw2303_request_mv), cap);
    let t = bounded_push(t, ",\"ma\":"@, cap);
    let t = bounded_push(t, u32_or_null_text(pd.sw2303_request_ma), cap);
    let t = bounded_push(t, "},\"sw2303_last_valid_request\":{\"mv\":"@, cap);
    let t = bounded_push(t, u32_or_null_text(pd.sw2303_last_valid_mv), cap);
    let t = bounded_push(t, ",\"ma\":"@, cap);
    let t = bounded_push(t, u32_or_null_text(pd.sw2303_last_valid_ma), cap);
    let t = bounded_push(t, "},\"tps_setpoint\":{\"output_enabled\":"@, cap);
    let t = bounded_push(t, bool_or_null_text(pd.tps_setpoint_output_enabled), cap);
    let t = bounded_push(t, ",\"mv\":"@, cap);
    let t = bounded_push(t, u32_or_null_text(pd.tps_setpoint_mv), cap);
    let t = bounded_push(t, ",\"ilim_ma\":"@, cap);
    let t = bounded_push(t, u32_or_null_text(pd.tps_setpoint_ilim_ma), cap);
    t
}

fn write_pd_requests(body: &mut TextBuf, pd: &ApiPdSnapshot)
    ensures
        final(body).capacity() == old(body).capacity(),
        final(body)@ == pd_requests_text(old(body)@, *pd, old(body).capacity()),
{
    body.push_str(",\"sw2303_request\":{\"mv\":");
    write_json_u32_or_null(body, pd.sw2303_request_mv);
    body.push_str(",\"ma\":");
    write_json_u32_or_null(body, pd.sw2303_request_ma);
    body.push_str("},\"sw2303_last_valid_request\":{\"mv\":");
    write_json_u32_or_null(body, pd.sw2303_last_valid_mv);
    body.push_str(",\"ma\":");
    write_json_u32_or_null(body, pd.sw2303_last_valid_ma);
    body.push_str("},\"tps_setpoint\":{\"output_enabled\":");
    write_json_bool_or_null(body, pd.tps_setpoint_output_enabled);
    body.push_str(",\"mv\":");
    write_json_u32_or_null(body, pd.tps_setpoint_mv);
    body.push_str(",\"ilim_ma\":");
    write_json_u32_or_null(body, pd.tps_setpoint_ilim_ma);
}

/// The text after writing the diagnostics onto `t`.
pub open spec fn pd_diagnostics_text(t: Seq<char>, pd: ApiPdSnapshot, cap: nat) -> Seq<char> {
    let t = write_fold(
        t,
        seq![
            "{\"usb_c_power_enabled\":"@,
            bool_text(pd.usb_c_power_enabled),
            ",\"sw2303_i2c_allowed\":"@,
            bool_text(pd.sw2303_i2c_allowed),
            ",\"sw2303_profile_applied\":"@,
            bool_text(pd.sw2303_profile_applied),
            ",\"sw2303_stable_reads\":"@,
            dec_chars(pd.sw2303_stable_reads as nat),
            ",\"sw2303_error_latched\":"@,
            bool_text(pd.sw2303_error_latched),
            ",\"tps_error_latched\":"@,
            bool_text(pd.tps_error_latched),
            ",\"sw2303_readback_config\":"@,
        ],
        cap,
    );
    let t = readback_text(t, pd.sw2303_readback_config, pd.sw2303_readback_matches_config, cap);
    let t = pd_requests_text(t, pd, cap);
    write_fold(
        t,
        seq![
            "},\"runtime_recovery_count\":"@,
            dec_chars(pd.runtime_recovery_count as nat),
            ",\"sample_uptime_ms\":"@,
            dec_chars(pd.sample_uptime_ms as nat),
            "}"@,
        ],
        cap,
    )
}

pub fn write_pd_diagnostics_json(body: &mut TextBuf, pd: &ApiPdSnapshot)
    ensures
        final(body).capacity() == old(body).capacity(),
        final(body)@ == pd_diagnostics_text(old(body)@, *pd, old(body).capacity()),
{
    let reads = decimal(pd.sw2303_stable_reads as u64);
    let v = vec![
        "{\"usb_c_power_enabled\":",
        bool_str(pd.usb_c_power_enabled),
        ",\"sw2303_i2c_allowed\":",
        bool_str(pd.sw2303_i2c_allowed),
        ",\"sw2303_profile_applied\":",
        bool_str(pd.sw2303_profile_applied),
        ",\"sw2303_stable_reads\":",
        reads.as_str(),
        ",\"sw2303_error_latched\":",
        bool_str(pd.sw2303_error_latched),
        ",\"tps_error_latched\":",
        bool_str(pd.tps_error_latched),
        ",\"sw2303_readback_config\":",
    ];
    proof {
        let expected = seq![
            "{\"usb_c_power_enabled\":"@,
            bool_text(pd.usb_c_power_enabled),
            ",\"sw2303_i2c_allowed\":"@,
            bool_text(pd.sw2303_i2c_allowed),
            ",\"sw2303_profile_applied\":"@,
            bool_text(pd.sw2303_profile_applied),
            ",\"sw2303_stable_reads\":"@,
            dec_chars(pd.sw2303_stable_reads as nat),
            ",\"sw2303_error_latched\":"@,
            bool_text(pd.sw2303_error_latched),
            ",\"tps_error_latched\":"@,
            bool_text(pd.tps_error_latched),
            ",\"sw2303_readback_config\":"@,
        ];
        assert(v@.map_values(|p: &str| p@) =~= expected);
    }
    body.write_all(&v);
    write_sw2303_readback_json(body, pd.sw2303_readback_config, pd.sw2303_readback_matches_config);
    write_pd_requests(body, pd);
    let count = decimal(pd.runtime_recovery_count as u64);
    let uptime = decimal(pd.sample_uptime_ms);
    let v = vec![
        "},\"runtime_recovery_count\":",
        count.as_str(),
        ",\"sample_uptime_ms\":",
        uptime.as_str(),
        "}",
    ];
    proof {
        let expected = seq![
            "},\"runtime_recovery_count\":"@,
            dec_chars(pd.runtime_recovery_count as nat),
            ",\"sample_uptime_ms\":"@,
            dec_chars(pd.sample_uptime_ms as nat),
            "}"@,
        ];
        assert(v@.map_values(|p: &str| p@) =~= expected);
    }
    body.write_all(&v);
}

} // verus!
