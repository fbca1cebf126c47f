use aquafeed::model::{
    CommunicationStatus, Device, DeviceRecord, DeviceStatus, Directory, ProfileKind, VarRecord,
};
use aquafeed::protocol::{
    child_at, process_packet, FrameError, IngestError, MessageMode, Protocol,
};

fn record(id: i32, address: &str) -> DeviceRecord {
    DeviceRecord {
        id,
        network_id: Some(1),
        name: format!("dev{}", id),
        address: address.to_string(),
        protocol: "protocol.mqtt".to_string(),
        pond_id: None,
        pond_name: None,
        farm_id: Some(9),
        status: Some(CommunicationStatus::Waiting),
        mode: None,
        empty_alarm: Some(false),
        parent_id: None,
        profile: ProfileKind::Other,
        hopper_status: None,
        first_change_status_timestamp: None,
        first_change_full_status_timestamp: None,
        battery_alarm: false,
        motor_alarm: false,
        signal_alarm: false,
        last_signal: None,
        last_comm: None,
        last_signal_date: None,
        battery_level: None,
        interface_mac_address: None,
        responded_message_counter: 0,
        status_hidden: None,
    }
}

fn snapshot(rec: &DeviceRecord) -> Device {
    Device::new(
        rec.id,
        rec.network_id,
        rec.name.clone(),
        rec.address.clone(),
        rec.protocol.clone(),
        (rec.pond_name.clone(), rec.farm_id),
        rec.status,
        rec.pond_id,
        rec.mode.clone(),
        rec.empty_alarm,
    )
}

fn add_feeder(dir: &mut Directory, id: i32, addr: &str, parent: i32) {
    let mut f = record(id, addr);
    f.parent_id = Some(parent);
    f.profile = ProfileKind::Feeder;
    dir.add_device(f);
}

const DATE: [&str; 6] = ["0A", "0B", "0C", "0F", "06", "18"];

fn with_date(rest: &[&str]) -> Vec<&'static str> {
    let mut v: Vec<&'static str> = DATE.to_vec();
    for t in rest {
        let leaked: &'static str = Box::leak(t.to_string().into_boxed_str());
        v.push(leaked);
    }
    v
}

#[test]
fn ping_walks_the_status_table() {
    let mut dir = Directory::new();
    dir.add_device(record(1, "UC"));
    let p = Protocol::MqttNative;

    // Waiting -> Intermitente.
    let dev = snapshot(&dir.devices[0]);
    p.ping_function(&dev, &mut dir).unwrap();
    assert_eq!(dir.devices[0].status, Some(CommunicationStatus::Intermitente));

    // Intermitente -> Okay.
    let dev = snapshot(&dir.devices[0]);
    p.ping_function(&dev, &mut dir).unwrap();
    assert_eq!(dir.devices[0].status, Some(CommunicationStatus::Okay));

    // Okay stays Okay, and no further message is counted.
    let counted = dir.devices[0].responded_message_counter;
    let dev = snapshot(&dir.devices[0]);
    p.ping_function(&dev, &mut dir).unwrap();
    assert_eq!(dir.devices[0].status, Some(CommunicationStatus::Okay));
    assert_eq!(dir.devices[0].responded_message_counter, counted);

    // Lost -> Intermitente.
    dir.devices[0].status = Some(CommunicationStatus::Lost);
    let dev = snapshot(&dir.devices[0]);
    p.ping_function(&dev, &mut dir).unwrap();
    assert_eq!(dir.devices[0].status, Some(CommunicationStatus::Intermitente));
}

#[test]
fn ordinal_lookup_is_positional_and_checked() {
    let mut dir = Directory::new();
    dir.add_device(record(1, "UC"));
    add_feeder(&mut dir, 11, "B", 1);
    add_feeder(&mut dir, 12, "A", 1);
    add_feeder(&mut dir, 13, "C", 1);
    let uc = snapshot(&dir.devices[0]);
    let children = uc.get_children_devices(&dir).unwrap();
    assert_eq!(children.len(), 3);
    // Ordinal "02" in base sixteen resolves the third child.
    assert_eq!(child_at(&children, 2).unwrap().id, 13);
    // An ordinal past the end is a reportable error, never a silent skip.
    assert!(matches!(child_at(&children, 5), Err(FrameError::OrdinalOutOfRange)));
    assert!(matches!(child_at(&children, -1), Err(FrameError::OrdinalOutOfRange)));
}

#[test]
fn alarm_log_targets_the_addressed_child() {
    let mut dir = Directory::new();
    dir.add_device(record(1, "UC"));
    add_feeder(&mut dir, 11, "A", 1);
    add_feeder(&mut dir, 12, "B", 1);
    let uc = snapshot(&dir.devices[0]);
    // date, ordinal 01, four mask tokens holding bit 20, capacitance.
    let data = with_date(&["01", "00", "10", "00", "00", "2A"]);
    let resp = Protocol::MqttNative
        .log_alarms_function(&uc, &data, &mut dir, 100)
        .unwrap();
    assert_eq!(resp.1, MessageMode::ModeLogResponse);
    assert_eq!(dir.alarms.len(), 1);
    assert_eq!(dir.alarms[0].device_id, 12);
    assert_eq!(dir.alarms[0].bit_position, 20);
    let pairs = resp.3.unwrap();
    assert_eq!(pairs[0].0, "Capacitancia");
    assert_eq!(pairs[0].1, "42");

    // An out-of-range ordinal is rejected.
    let bad = with_date(&["05", "00", "10", "00", "00", "2A"]);
    assert_eq!(
        Protocol::MqttNative
            .log_alarms_function(&uc, &bad, &mut dir, 100)
            .unwrap_err(),
        FrameError::OrdinalOutOfRange
    );
}

#[test]
fn feed_log_flips_hoppers_by_mask_bit() {
    let mut dir = Directory::new();
    dir.add_device(record(1, "UC"));
    add_feeder(&mut dir, 11, "A", 1);
    add_feeder(&mut dir, 12, "B", 1);
    let uc = snapshot(&dir.devices[0]);
    // date, four value tokens, mask 0x0001: first feeder empty, second full.
    let data = with_date(&["00", "00", "00", "64", "00", "01"]);
    Protocol::MqttNative
        .feed_log_function(&uc, &data, &mut dir, 100)
        .unwrap();
    assert_eq!(dir.device_status.len(), 2);
    assert_eq!(dir.device_status[0].status, DeviceStatus::Empty);
    assert_eq!(dir.device_status[1].status, DeviceStatus::Full);
    assert_eq!(dir.devices[1].empty_alarm, Some(true));
    assert_eq!(dir.devices[2].empty_alarm, Some(false));
    assert_eq!(dir.devices[1].hopper_status, Some(DeviceStatus::Empty));

    // A bad timestamp rejects the frame before any write.
    let mut dir2 = Directory::new();
    dir2.add_device(record(1, "UC"));
    add_feeder(&mut dir2, 11, "A", 1);
    let bad = vec!["FF", "0B", "0C", "0F", "06", "18", "00", "00", "00", "64", "00", "01"];
    assert_eq!(
        Protocol::MqttNative
            .feed_log_function(&uc, &bad, &mut dir2, 100)
            .unwrap_err(),
        FrameError::BadTimestamp
    );
    assert_eq!(dir2.device_status.len(), 0);
}

#[test]
fn feed_confirmation_stamps_responding_feeders() {
    let mut dir = Directory::new();
    dir.add_device(record(1, "UC"));
    add_feeder(&mut dir, 11, "A", 1);
    add_feeder(&mut dir, 12, "B", 1);
    let uc = snapshot(&dir.devices[0]);
    // date, two value tokens, mask 0x0002: only the second feeder responded.
    let data = with_date(&["00", "64", "00", "02"]);
    Protocol::MqttNative
        .feed_log_confirmation_function(&uc, &data, &mut dir, 700)
        .unwrap();
    assert_eq!(dir.devices[1].last_comm, None);
    assert_eq!(dir.devices[2].last_comm, Some(700));

    // A mask that is not hexadecimal is rejected.
    let bad = with_date(&["00", "64", "ZZ", "02"]);
    assert_eq!(
        Protocol::MqttNative
            .feed_log_confirmation_function(&uc, &bad, &mut dir, 700)
            .unwrap_err(),
        FrameError::BadMask
    );
}

#[test]
fn status_uc_log_stores_the_negated_signal() {
    let mut dir = Directory::new();
    dir.add_device(record(1, "UC"));
    let uc = snapshot(&dir.devices[0]);
    // date, signal 91 (decimal), temperature 0x15.
    let data = with_date(&["91", "15"]);
    let resp = Protocol::MqttNative
        .log_status_uc_function(&uc, &data, &mut dir, 100)
        .unwrap();
    assert_eq!(dir.status_logs.len(), 1);
    assert_eq!(dir.status_logs[0].signal, -91);
    assert_eq!(dir.status_logs[0].temp, 0x15);
    assert!(dir.devices[0].signal_alarm);
    let pairs = resp.3.unwrap();
    assert_eq!(pairs[1], ("Senal".to_string(), "91".to_string()));
}

#[test]
fn status_device_log_decodes_battery_and_panel() {
    let mut dir = Directory::new();
    dir.add_device(record(1, "UC"));
    add_feeder(&mut dir, 11, "A", 1);
    dir.add_variable(VarRecord {
        device_id: 11,
        id: 200,
        size: 4,
        format: "b22".to_string(),
        name: "bateria".to_string(),
        base_var_id: 20,
        value: String::new(),
        code: Some("0D8D".to_string()),
        write_date: None,
    });
    dir.add_variable(VarRecord {
        device_id: 11,
        id: 201,
        size: 4,
        format: "dec2b".to_string(),
        name: "panel".to_string(),
        base_var_id: 21,
        value: String::new(),
        code: Some("0D86".to_string()),
        write_date: None,
    });
    dir.add_variable(VarRecord {
        device_id: 11,
        id: 202,
        size: 1,
        format: "dec".to_string(),
        name: "rssi".to_string(),
        base_var_id: 22,
        value: String::new(),
        code: Some("4442".to_string()),
        write_date: None,
    });
    let uc = snapshot(&dir.devices[0]);
    // date, ordinal 00, signal 0x5F, battery "00 12 25 25", panel "03 E8" + filler.
    let data = with_date(&["00", "5F", "00", "12", "25", "25", "03", "E8", "00", "00"]);
    let resp = Protocol::MqttNative
        .log_status_device_function(&uc, &data, &mut dir, 100)
        .unwrap();
    let pairs = resp.3.unwrap();
    assert_eq!(pairs[2], ("Bateria".to_string(), "12.2525".to_string()));
    // The signal variable was refreshed with the decimal signal.
    assert_eq!(dir.vars[2].value, "95");
    // The device row carries the signal date and battery level.
    assert_eq!(dir.devices[1].battery_level.as_deref(), Some("12.2525"));
    assert!(dir.devices[1].last_signal_date.is_some());
    // And the status log row was written with the negated signal.
    assert_eq!(dir.status_logs[0].signal, -95);
    assert_eq!(dir.status_logs[0].battery.as_deref(), Some("12.2525"));
}

#[test]
fn mac_response_records_the_address() {
    let mut dir = Directory::new();
    dir.add_device(record(1, "UC"));
    let uc = snapshot(&dir.devices[0]);
    let data = vec!["0013A200"];
    Protocol::MqttNative
        .mac_address_response_function(&uc, &data, &mut dir)
        .unwrap();
    assert_eq!(dir.devices[0].interface_mac_address.as_deref(), Some("0013A200"));
}

#[test]
fn assignment_detaches_reported_children() {
    let mut dir = Directory::new();
    dir.add_device(record(1, "UC"));
    add_feeder(&mut dir, 11, "AB", 1);
    add_feeder(&mut dir, 12, "CD", 1);
    let uc = snapshot(&dir.devices[0]);
    let data = vec!["AB", "FF"];
    let resp = Protocol::MqttNative
        .assign_device_response_function(&uc, &data, &mut dir)
        .unwrap();
    assert_eq!(dir.devices[1].parent_id, None);
    assert_eq!(dir.devices[2].parent_id, Some(1));
    let pairs = resp.3.unwrap();
    assert_eq!(pairs[0], ("No asignados".to_string(), "dev11".to_string()));
}

#[test]
fn unknown_opcode_acknowledges_without_state_change() {
    let mut dir = Directory::new();
    dir.add_device(record(1, "UC"));
    let uc = snapshot(&dir.devices[0]);
    let data = vec!["77", "00", "01", "02"];
    let resp = Protocol::MqttNative
        .process_packet(&uc, &data, &mut dir, 100)
        .unwrap();
    assert_eq!(resp.1, MessageMode::ModeWriteResponse);
    assert_eq!(resp.2, "Respuesta de escritura");
    assert_eq!(dir.device_status.len(), 0);
}

#[test]
fn legacy_variants_refuse_their_missing_handlers() {
    let mut dir = Directory::new();
    dir.add_device(record(1, "UC"));
    let uc = snapshot(&dir.devices[0]);
    let data = vec!["99"];
    assert_eq!(
        Protocol::LegacyRadio
            .process_packet(&uc, &data, &mut dir, 100)
            .unwrap_err(),
        FrameError::Unsupported
    );
}

#[test]
fn recovery_updates_state_but_reports_recovery_mode() {
    let mut dir = Directory::new();
    dir.add_device(record(1, "UC"));
    add_feeder(&mut dir, 11, "A", 1);
    let uc = snapshot(&dir.devices[0]);
    // Envelope: 85, then the embedded feed log with its own message id.
    let mut data = vec!["85", "30", "01", "02"];
    data.extend_from_slice(&DATE);
    data.extend_from_slice(&["00", "00", "00", "64", "00", "01"]);
    let resp = Protocol::MqttNative
        .process_packet(&uc, &data, &mut dir, 100)
        .unwrap();
    assert_eq!(resp.1, MessageMode::LogRecovery);
    // The embedded frame still flipped the hopper state.
    assert_eq!(dir.device_status.len(), 1);
    assert_eq!(dir.device_status[0].status, DeviceStatus::Empty);
}

#[test]
fn read_response_decodes_and_stores_fields() {
    let mut dir = Directory::new();
    dir.add_device(record(1, "UC"));
    dir.add_variable(VarRecord {
        device_id: 1,
        id: 300,
        size: 2,
        format: "dec".to_string(),
        name: "peso".to_string(),
        base_var_id: 30,
        value: String::new(),
        code: Some("0E9F".to_string()),
        write_date: None,
    });
    let uc = snapshot(&dir.devices[0]);
    // Envelope 85 re-enters the table with opcode 23: read response.
    // Inner payload: one skipped token, code 0E 9F, two value bytes 01 00.
    let data = vec!["85", "23", "01", "02", "00", "0E", "9F", "01", "00"];
    Protocol::MqttNative
        .process_packet(&uc, &data, &mut dir, 100)
        .unwrap();
    assert_eq!(dir.vars[0].value, "256");
    assert_eq!(dir.vars[0].write_date, Some(100));
}

#[test]
fn sound_log_appends_one_hydrophone_line() {
    let mut dir = Directory::new();
    let mut uc_rec = record(1, "UC");
    uc_rec.mode = Some("hydro".to_string());
    dir.add_device(uc_rec);
    dir.add_variable(VarRecord {
        device_id: 1,
        id: 400,
        size: 1,
        format: "dec".to_string(),
        name: "sonido".to_string(),
        base_var_id: 40,
        value: String::new(),
        code: Some("DDE0".to_string()),
        write_date: None,
    });
    let uc = snapshot(&dir.devices[0]);
    let data = with_date(&["00", "01", "02", "33", "12", "44", "55", "60", "61", "62"]);
    Protocol::MqttNative
        .log_sound_function(&uc, &data, &mut dir, 100000)
        .unwrap();
    assert_eq!(dir.hydro_sessions.len(), 1);
    assert_eq!(dir.hydro_lines.len(), 1);
    // sound-a is the twelfth token, sound-b the third from the end.
    assert_eq!(dir.hydro_lines[0].sound_a, "44");
    assert_eq!(dir.hydro_lines[0].sound_b, "60");

    // Without the sound variable the frame is rejected.
    let mut dir2 = Directory::new();
    dir2.add_device(record(1, "UC"));
    let uc2 = snapshot(&dir2.devices[0]);
    assert_eq!(
        Protocol::MqttNative
            .log_sound_function(&uc2, &with_date(&[]), &mut dir2, 100000)
            .unwrap_err(),
        FrameError::MissingVariable
    );
}

#[test]
fn ingestion_resolves_uc_topics_and_stamps_liveness() {
    let mut dir = Directory::new();
    dir.add_device(record(1, "MAC01"));
    let r = process_packet("99", "server/uc/net/MAC01", &mut dir, 500).unwrap();
    assert!(r.is_some());
    assert_eq!(dir.devices[0].status, Some(CommunicationStatus::Intermitente));
    assert_eq!(dir.devices[0].last_comm, Some(500));
}

#[test]
fn ingestion_extracts_x2_addresses_from_the_payload() {
    let mut dir = Directory::new();
    dir.add_device(record(1, "AABBCCDDEEFF0011"));
    let payload = "99 01 02 03 AA BB CC DD EE FF 00 11 22";
    let r = process_packet(payload, "server/x2/anything", &mut dir, 500).unwrap();
    assert!(r.is_some());
    assert_eq!(dir.devices[0].last_comm, Some(500));
}

#[test]
fn ingestion_drops_unknown_devices_and_families() {
    let mut dir = Directory::new();
    dir.add_device(record(1, "MAC01"));
    let r = process_packet("99", "server/uc/net/NOPE", &mut dir, 500).unwrap();
    assert!(r.is_none());
    assert_eq!(dir.devices[0].last_comm, None);
    assert_eq!(
        process_packet("99", "server/zz/net/MAC01", &mut dir, 500).unwrap_err(),
        IngestError::UnknownFamily
    );
}

#[test]
fn read_response_mirrors_panel_readings_into_the_status_log() {
    let mut dir = Directory::new();
    dir.add_device(record(1, "UC"));
    dir.add_variable(VarRecord {
        device_id: 1,
        id: 301,
        size: 2,
        format: "dec2b".to_string(),
        name: "panel".to_string(),
        base_var_id: 31,
        value: String::new(),
        code: Some("0D86".to_string()),
        write_date: None,
    });
    let uc = snapshot(&dir.devices[0]);
    // Envelope 85, opcode 23, message id, skip token, code 0D 86, value 03 E8.
    let data = vec!["85", "23", "01", "02", "00", "0D", "86", "03", "E8"];
    Protocol::MqttNative
        .process_packet(&uc, &data, &mut dir, 100)
        .unwrap();
    // The variable took the decoded value, and the reading was mirrored.
    assert_eq!(dir.vars[0].value, "10");
    assert_eq!(dir.status_logs.len(), 1);
    assert_eq!(dir.status_logs[0].battery.as_deref(), Some("10"));
}

#[test]
fn read_response_keeps_earlier_writes_when_a_field_fails() {
    let mut dir = Directory::new();
    dir.add_device(record(1, "UC"));
    dir.add_variable(VarRecord {
        device_id: 1,
        id: 302,
        size: 1,
        format: "dec".to_string(),
        name: "first".to_string(),
        base_var_id: 32,
        value: String::new(),
        code: Some("0E9F".to_string()),
        write_date: None,
    });
    dir.add_variable(VarRecord {
        device_id: 1,
        id: 303,
        size: 4,
        format: "asc".to_string(),
        name: "second".to_string(),
        base_var_id: 33,
        value: String::new(),
        code: Some("0EA0".to_string()),
        write_date: None,
    });
    let uc = snapshot(&dir.devices[0]);
    // The first field decodes; the second carries invalid text bytes.
    let data = vec![
        "85", "23", "01", "02", "00", "0E", "9F", "2A", "0E", "A0", "FF", "FE", "00", "00",
    ];
    let r = Protocol::MqttNative.process_packet(&uc, &data, &mut dir, 100);
    assert!(r.is_err());
    // The field written before the failure stays written.
    assert_eq!(dir.vars[0].value, "42");
    assert_eq!(dir.vars[1].value, "");
}
