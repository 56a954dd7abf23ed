use rocm_telemetry::float::FloatBits;
use rocm_telemetry::json::{parse_json, Json};
use rocm_telemetry::rocm::{full_snapshot, GpuKind, RocmDevice, RocmSnapshot};
use rocm_telemetry::snapshot::{
    bytes_to_mb, decode_device, is_device_key, snapshot_of_roots, DeviceDraft, FloatReadings,
    FloatTexts, Report, SnapshotError, BYTES_PER_MB,
};
use rocm_telemetry::version::{check_rocm_smi, RocmCheckResult, RocmVersion};
use std::path::PathBuf;

fn read(text: &Option<String>) -> Option<FloatBits> {
    text.as_ref()
        .and_then(|t| t.parse::<f64>().ok())
        .map(|x| FloatBits::from_bits(x.to_bits()))
}

fn complete(draft: DeviceDraft) -> RocmDevice {
    let found = FloatReadings {
        temp_edge: read(&draft.texts.temp_edge),
        temp_hotspot: read(&draft.texts.temp_hotspot),
        temp_mem: read(&draft.texts.temp_mem),
        power_cap: read(&draft.texts.power_cap),
        power_avg: read(&draft.texts.power_avg),
    };
    draft.finish(found)
}

fn value(reading: Option<FloatBits>) -> Option<f64> {
    reading.map(|b| f64::from_bits(b.to_bits()))
}

fn bag(text: &str) -> Vec<(String, Json)> {
    match parse_json(text.as_bytes()).expect("valid JSON") {
        Json::Object(m) => m,
        other => panic!("no object: {:?}", other),
    }
}

const BASE: &str = r#"{
    "card0": {
        "Device Name": "Raphael",
        "Card Series": "AMD Radeon Graphics",
        "Subsystem ID": "0x8877",
        "Card Vendor": "Advanced Micro Devices, Inc. [AMD/ATI]",
        "GFX Version": "gfx1036",
        "Temperature (Sensor edge) (C)": "38.0",
        "Average Graphics Package Power (W)": "21.0",
        "GPU use (%)": "3",
        "GPU Memory Allocated (VRAM%)": "9",
        "sclk clock speed:": "(600Mhz)"
    },
    "card1": {
        "Device Name": "Navi 31 [Radeon RX 7900 XTX]",
        "Card Series": "Radeon RX 7900 XTX",
        "Temperature (Sensor edge) (C)": 41.5,
        "Temperature (Sensor junction) (C)": "45.0",
        "Temperature (Sensor memory) (C)": "N/A",
        "Fan RPM": 1200,
        "Average Graphics Package Power (W)": "63.0",
        "GPU use (%)": "87",
        "GPU memory vendor": "hynix",
        "sclk clock speed:": "(500Mhz)"
    },
    "system": {
        "Driver version": "6.8.0"
    }
}"#;

const CLOCKS: &str = r#"{
    "card0": {"sclk clock speed:": "(1350Mhz)", "mclk clock speed:": "(2400Mhz)"},
    "card1": {"sclk clock speed:": "(2482Mhz)", "mclk clock speed:": "(1249Mhz)"}
}"#;

const MEMORY: &str = r#"{
    "card0": {"VRAM Total Memory (B)": "536870912", "VRAM Total Used Memory (B)": "104857600"},
    "card1": {"VRAM Total Memory (B)": "17179869184", "VRAM Total Used Memory (B)": "6352367616"}
}"#;

const MAX_POWER: &str = r#"{
    "card1": {"Max Graphics Package Power (W)": "327.0"}
}"#;

fn snapshot(base: &str, clocks: &str, memory: &str, max_power: &str) -> Result<Vec<RocmDevice>, SnapshotError> {
    full_snapshot(base.as_bytes(), clocks.as_bytes(), memory.as_bytes(), max_power.as_bytes())
        .map(|drafts| drafts.into_iter().map(complete).collect())
}

#[test]
fn end_to_end_snapshot() {
    let devices = snapshot(BASE, CLOCKS, MEMORY, MAX_POWER).unwrap();
    assert_eq!(devices.len(), 2);

    let igpu = &devices[0];
    assert_eq!(igpu.product.as_deref(), Some("Raphael"));
    assert_eq!(igpu.card_series.as_deref(), Some("AMD Radeon Graphics"));
    assert_eq!(igpu.subsystem.as_deref(), Some("0x8877"));
    assert_eq!(igpu.vendor.as_deref(), Some("Advanced Micro Devices, Inc. [AMD/ATI]"));
    assert_eq!(igpu.gfx_version.as_deref(), Some("gfx1036"));
    assert_eq!(value(igpu.temp_edge), Some(38.0));
    assert_eq!(value(igpu.temp_hotspot), None);
    assert_eq!(value(igpu.temp_mem), None);
    assert_eq!(igpu.sclk_mhz, Some(1350));
    assert_eq!(igpu.mclk_mhz, Some(2400));
    assert_eq!(igpu.vram_total_mb, Some(512));
    assert_eq!(igpu.vram_used_mb, Some(100));
    assert_eq!(igpu.fan_rpm, None);
    assert_eq!(value(igpu.power_cap), None);
    assert_eq!(value(igpu.power_avg), Some(21.0));
    assert_eq!(igpu.gpu_util, Some(3));
    assert_eq!(igpu.vram_util, Some(9));
    assert_eq!(igpu.vram_vendor, None);
    assert_eq!(igpu.kind, Some(GpuKind::Integrated));

    let dgpu = &devices[1];
    assert_eq!(dgpu.product.as_deref(), Some("Navi 31 [Radeon RX 7900 XTX]"));
    assert_eq!(value(dgpu.temp_edge), Some(41.5));
    assert_eq!(value(dgpu.temp_hotspot), Some(45.0));
    assert_eq!(value(dgpu.temp_mem), None);
    assert_eq!(dgpu.sclk_mhz, Some(2482));
    assert_eq!(dgpu.mclk_mhz, Some(1249));
    assert_eq!(dgpu.vram_total_mb, Some(16384));
    assert_eq!(dgpu.vram_used_mb, Some(6058));
    assert_eq!(dgpu.fan_rpm, Some(1200));
    assert_eq!(value(dgpu.power_cap), Some(327.0));
    assert_eq!(value(dgpu.power_avg), Some(63.0));
    assert_eq!(dgpu.gpu_util, Some(87));
    assert_eq!(dgpu.vram_vendor.as_deref(), Some("hynix"));
    assert_eq!(dgpu.kind, Some(GpuKind::Discrete));
}

#[test]
fn one_integrated_and_one_discrete() {
    let devices = snapshot(BASE, "{}", "{}", "{}").unwrap();
    let kinds: Vec<Option<GpuKind>> = devices.iter().map(|d| d.kind).collect();
    assert_eq!(kinds.iter().filter(|k| **k == Some(GpuKind::Integrated)).count(), 1);
    assert_eq!(kinds.iter().filter(|k| **k == Some(GpuKind::Discrete)).count(), 1);
    assert_eq!(kinds.len(), 2);
}

#[test]
fn empty_supplements_leave_the_base_readings() {
    let devices = snapshot(BASE, "{}", "{}", "{}").unwrap();
    assert_eq!(devices[0].sclk_mhz, Some(600));
    assert_eq!(devices[1].sclk_mhz, Some(500));
    assert_eq!(devices[0].mclk_mhz, None);
    assert_eq!(devices[0].vram_total_mb, None);
}

#[test]
fn later_report_wins_on_a_shared_field() {
    let devices = snapshot(
        r#"{"card0": {"Fan RPM": "1"}}"#,
        r#"{"card0": {"Fan RPM": "2"}}"#,
        r#"{"card0": {"Fan RPM": "3"}}"#,
        r#"{"card0": {"GPU use (%)": "4"}}"#,
    )
    .unwrap();
    assert_eq!(devices[0].fan_rpm, Some(3));
    assert_eq!(devices[0].gpu_util, Some(4));
}

#[test]
fn sections_only_in_a_supplement_add_no_device() {
    let devices = snapshot(r#"{"card0": {}}"#, r#"{"card1": {"Fan RPM": "2"}}"#, "{}", "{}").unwrap();
    assert_eq!(devices.len(), 1);
    assert_eq!(devices[0].fan_rpm, None);
}

#[test]
fn sections_with_other_names_are_passed_over() {
    let devices = snapshot(
        r#"{"Card9": {}, "car": {}, "card": {}, "cardx": {}, "system": {}, "xcard0": {}}"#,
        "{}",
        "{}",
        "{}",
    )
    .unwrap();
    assert_eq!(devices.len(), 2);
    assert!(is_device_key("card0"));
    assert!(is_device_key("card"));
    assert!(!is_device_key("Card0"));
    assert!(!is_device_key("car"));
    assert!(!is_device_key("xcard0"));
}

#[test]
fn device_without_fields_is_a_valid_record() {
    let devices = snapshot(r#"{"card0": {}}"#, "{}", "{}", "{}").unwrap();
    assert_eq!(devices.len(), 1);
    let dev = &devices[0];
    assert_eq!(dev.product, None);
    assert_eq!(dev.temp_edge, None);
    assert_eq!(dev.sclk_mhz, None);
    assert_eq!(dev.vram_total_mb, None);
    assert_eq!(dev.power_avg, None);
    assert_eq!(dev.vram_vendor, None);
    assert_eq!(dev.kind, Some(GpuKind::Unknown));
}

#[test]
fn fields_of_the_wrong_shape_read_as_absent() {
    let devices = snapshot(
        r#"{"card0": {"Device Name": 5, "Card Series": null, "GPU memory vendor": ["hynix"],
            "Fan RPM": "fast", "GPU use (%)": {"v": 1}, "Temperature (Sensor edge) (C)": true,
            "Average Graphics Package Power (W)": "a lot", "VRAM Total Memory (B)": 17179869184}}"#,
        "{}",
        "{}",
        "{}",
    )
    .unwrap();
    let dev = &devices[0];
    assert_eq!(dev.product, None);
    assert_eq!(dev.card_series, None);
    assert_eq!(dev.vram_vendor, None);
    assert_eq!(dev.fan_rpm, None);
    assert_eq!(dev.gpu_util, None);
    assert_eq!(dev.temp_edge, None);
    assert_eq!(dev.power_avg, None);
    assert_eq!(dev.vram_total_mb, None);
    assert_eq!(dev.kind, Some(GpuKind::Unknown));
}

#[test]
fn power_cap_is_read_from_a_string_only() {
    let devices = snapshot(
        r#"{"card0": {"Max Graphics Package Power (W)": 327.0}, "card1": {"Max Graphics Package Power (W)": "327.0"}}"#,
        "{}",
        "{}",
        "{}",
    )
    .unwrap();
    assert_eq!(value(devices[0].power_cap), None);
    assert_eq!(value(devices[1].power_cap), Some(327.0));
}

#[test]
fn readings_without_a_text_are_not_taken() {
    let draft = decode_device(&bag(r#"{"Temperature (Sensor edge) (C)": "40.0"}"#));
    let all = Some(FloatBits::from_bits(99.0f64.to_bits()));
    let dev = draft.finish(FloatReadings {
        temp_edge: all,
        temp_hotspot: all,
        temp_mem: all,
        power_cap: all,
        power_avg: all,
    });
    assert_eq!(value(dev.temp_edge), Some(99.0));
    assert_eq!(dev.temp_hotspot, None);
    assert_eq!(dev.temp_mem, None);
    assert_eq!(dev.power_cap, None);
    assert_eq!(dev.power_avg, None);
    assert_eq!(dev.kind, Some(GpuKind::Unknown));
}

#[test]
fn draft_holds_the_texts_of_the_readings() {
    let draft = decode_device(&bag(
        r#"{"Temperature (Sensor edge) (C)": 41.5, "Temperature (Sensor junction) (C)": "45.0",
            "Max Graphics Package Power (W)": "327.0", "Average Graphics Package Power (W)": 63}"#,
    ));
    assert_eq!(
        draft.texts,
        FloatTexts {
            temp_edge: Some("41.5".to_string()),
            temp_hotspot: Some("45.0".to_string()),
            temp_mem: None,
            power_cap: Some("327.0".to_string()),
            power_avg: Some("63".to_string()),
        }
    );
    assert_eq!(draft.device.temp_edge, None);
    assert_eq!(draft.device.kind, None);
}

#[test]
fn sixteen_gibibytes_are_16384_megabytes() {
    assert_eq!(BYTES_PER_MB, 1_048_576);
    assert_eq!(bytes_to_mb(17_179_869_184), Some(16384));
    assert_eq!(bytes_to_mb(0), Some(0));
    assert_eq!(bytes_to_mb(1_048_575), Some(0));
    assert_eq!(bytes_to_mb(1_048_576), Some(1));
    assert_eq!(bytes_to_mb(6_352_367_616), Some(6058));
}

#[test]
fn megabytes_that_do_not_fit_are_a_miss() {
    assert_eq!(bytes_to_mb(4_503_599_627_370_495), Some(u32::MAX));
    assert_eq!(bytes_to_mb(4_503_599_627_370_496), None);
    assert_eq!(bytes_to_mb(4_503_599_627_370_496 + 3 * 1_048_576), None);
    assert_eq!(bytes_to_mb(u64::MAX), None);
    let draft = decode_device(&bag(
        r#"{"VRAM Total Memory (B)": "4503599627370496", "VRAM Total Used Memory (B)": "4503599627370495",
            "vram_total_mb": 8192}"#,
    ));
    assert_eq!(draft.device.vram_total_mb, None);
    assert_eq!(draft.device.vram_used_mb, Some(u32::MAX));
}

#[test]
fn memory_size_falls_back_to_a_plain_number() {
    let draft = decode_device(&bag(r#"{"vram_total_mb": 8192, "vram_used_mb": "100"}"#));
    assert_eq!(draft.device.vram_total_mb, Some(8192));
    assert_eq!(draft.device.vram_used_mb, None);
    let draft = decode_device(&bag(
        r#"{"vram_total_mb": 8192, "VRAM Total Memory (B)": "17179869184", "vram_used_mb": 4294967296}"#,
    ));
    assert_eq!(draft.device.vram_total_mb, Some(16384));
    assert_eq!(draft.device.vram_used_mb, None);
}

#[test]
fn malformed_reports_are_told_apart() {
    assert_eq!(snapshot("x", "x", "x", "x"), Err(SnapshotError::MalformedDocument(Report::Base)));
    assert_eq!(snapshot("[]", "{}", "{}", "{}"), Err(SnapshotError::MalformedDocument(Report::Base)));
    assert_eq!(snapshot("{}", "", "x", "x"), Err(SnapshotError::MalformedDocument(Report::Clocks)));
    assert_eq!(snapshot("{}", "7", "{}", "{}"), Err(SnapshotError::MalformedDocument(Report::Clocks)));
    assert_eq!(snapshot("{}", "{}", "{", "x"), Err(SnapshotError::MalformedDocument(Report::Memory)));
    assert_eq!(snapshot("{}", "{}", "{}", "null"), Err(SnapshotError::MalformedDocument(Report::MaxPower)));
    assert_eq!(snapshot("{}", "{}", "{}", "{}"), Ok(Vec::new()));
}

#[test]
fn device_that_is_no_object_fails_the_snapshot() {
    assert_eq!(snapshot(r#"{"card0": 5}"#, "{}", "{}", "{}"), Err(SnapshotError::MalformedDevice));
    assert_eq!(
        snapshot(r#"{"card0": {}, "card1": "x"}"#, "{}", "{}", "{}"),
        Err(SnapshotError::MalformedDevice)
    );
    assert_eq!(
        snapshot(r#"{"card0": [1, 2]}"#, r#"{"card0": {"Fan RPM": 1}}"#, "{}", "{}"),
        Err(SnapshotError::MalformedDevice)
    );
    assert_eq!(snapshot(r#"{"system": 5}"#, "{}", "{}", "{}"), Ok(Vec::new()));
    assert_eq!(
        snapshot("[]", "{}", "{}", r#"{"card0": 5}"#),
        Err(SnapshotError::MalformedDocument(Report::Base))
    );
}

#[test]
fn snapshot_of_roots_takes_what_was_read() {
    let base = || RocmSnapshot::parse(BASE.as_bytes());
    let empty = RocmSnapshot::parse(b"{}");
    let clocks = RocmSnapshot::parse(CLOCKS.as_bytes());
    let drafts = snapshot_of_roots(base(), &empty, &empty, &empty).unwrap();
    assert_eq!(drafts.len(), 2);
    assert_eq!(drafts[0].device.sclk_mhz, Some(600));
    let drafts = snapshot_of_roots(base(), &clocks, &empty, &empty).unwrap();
    assert_eq!(drafts[0].device.sclk_mhz, Some(1350));
    assert_eq!(
        snapshot_of_roots(None, &empty, &empty, &empty),
        Err(SnapshotError::MalformedDocument(Report::Base))
    );
    assert_eq!(
        snapshot_of_roots(base(), &None, &empty, &empty),
        Err(SnapshotError::MalformedDocument(Report::Clocks))
    );
    assert_eq!(
        snapshot_of_roots(base(), &empty, &None, &None),
        Err(SnapshotError::MalformedDocument(Report::Memory))
    );
    assert_eq!(
        snapshot_of_roots(base(), &empty, &empty, &None),
        Err(SnapshotError::MalformedDocument(Report::MaxPower))
    );
}

#[test]
fn roots_merge_and_list_drafts() {
    let mut root = RocmSnapshot::parse(BASE.as_bytes()).unwrap();
    let clocks = RocmSnapshot::parse(CLOCKS.as_bytes()).unwrap();
    assert_eq!(root.cards.len(), 3);
    root.merge(&clocks);
    let names: Vec<&str> = root.cards.keys().map(|k| k.as_str()).collect();
    assert_eq!(names, vec!["card0", "card1", "system"]);
    let drafts = root.drafts().unwrap();
    assert_eq!(drafts.len(), 2);
    assert_eq!(drafts[0].device.mclk_mhz, Some(2400));
    assert_eq!(drafts[1].device.mclk_mhz, Some(1249));
    assert_eq!(RocmSnapshot::parse(b"null"), None);
}

#[test]
fn version_is_read_from_the_report() {
    let report = br#"{"ROCM-SMI version": "3.0.0+0f48fe7", "ROCM-SMI-LIB version": "7.3.0", "other": 1}"#;
    assert_eq!(
        RocmVersion::parse(report),
        Some(RocmVersion { rocm_smi: "3.0.0+0f48fe7".to_string(), rocm_smi_lib: "7.3.0".to_string() })
    );
    assert_eq!(RocmVersion::parse(br#"{"ROCM-SMI version": "3.0.0"}"#), None);
    assert_eq!(RocmVersion::parse(br#"{"ROCM-SMI version": "3.0.0", "ROCM-SMI-LIB version": 7}"#), None);
    assert_eq!(RocmVersion::parse(br#"["3.0.0", "7.3.0"]"#), None);
    assert_eq!(RocmVersion::parse(b"rocm-smi 3.0.0"), None);
    assert_eq!(RocmVersion::from_json(&Json::Null), None);
}

#[test]
fn check_reports_path_and_version() {
    let report: &[u8] = br#"{"ROCM-SMI version": "3.0.0", "ROCM-SMI-LIB version": "7.3.0"}"#;
    let version = RocmVersion { rocm_smi: "3.0.0".to_string(), rocm_smi_lib: "7.3.0".to_string() };
    let path = PathBuf::from("/opt/rocm/bin/rocm-smi");
    assert_eq!(
        check_rocm_smi(Some(path.clone()), Some(report)),
        RocmCheckResult { path: Some(path.clone()), version: Some(version) }
    );
    assert_eq!(
        check_rocm_smi(Some(path.clone()), None),
        RocmCheckResult { path: Some(path.clone()), version: None }
    );
    assert_eq!(
        check_rocm_smi(Some(path.clone()), Some(b"garbage")),
        RocmCheckResult { path: Some(path), version: None }
    );
    assert_eq!(check_rocm_smi(None, Some(report)), RocmCheckResult { path: None, version: None });
    assert_eq!(check_rocm_smi(None, None), RocmCheckResult { path: None, version: None });
}
