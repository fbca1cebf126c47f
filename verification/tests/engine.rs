use aquafeed::alarm::{bulk_clean_alarms, create_or_update_device_alarm_history};
use aquafeed::ftime::FrameTime;
use aquafeed::model::{
    get_device, AlarmKind, CommunicationStatus, Device, DeviceRecord, DeviceStatus, Directory,
    ProfileKind, VarRecord,
};

fn record(id: i32, address: &str) -> DeviceRecord {
    DeviceRecord {
        id,
        network_id: Some(1),
        name: format!("dev{}", id),
        address: address.to_string(),
        protocol: "protocol.mqtt".to_string(),
        pond_id: None,
        pond_name: None,
        farm_id: Some(9),
        status: None,
        mode: None,
        empty_alarm: Some(false),
        parent_id: None,
        profile: ProfileKind::Other,
        hopper_status: None,
        first_change_status_timestamp: None,
        first_change_full_status_timestamp: None,
        battery_alarm: false,
        motor_alarm: false,
        signal_alarm: false,
        last_signal: None,
        last_comm: None,
        last_signal_date: None,
        battery_level: None,
        interface_mac_address: None,
        responded_message_counter: 0,
        status_hidden: None,
    }
}

fn snapshot(rec: &DeviceRecord) -> Device {
    Device::new(
        rec.id,
        rec.network_id,
        rec.name.clone(),
        rec.address.clone(),
        rec.protocol.clone(),
        (rec.pond_name.clone(), rec.farm_id),
        rec.status,
        rec.pond_id,
        rec.mode.clone(),
        rec.empty_alarm,
    )
}

fn noon() -> FrameTime {
    FrameTime { hour: 12, minute: 0, second: 0, day: 15, month: 6, year: 24 }
}

#[test]
fn alarm_history_counts_one_episode() {
    let mut dir = Directory::new();
    create_or_update_device_alarm_history(Some(5), AlarmKind::BatteryAlarm, true, &mut dir, 100);
    create_or_update_device_alarm_history(Some(5), AlarmKind::BatteryAlarm, true, &mut dir, 200);
    assert_eq!(dir.alarm_history.len(), 1);
    assert_eq!(dir.alarm_history[0].alarm_counter, 2);
    assert!(dir.alarm_history[0].still_alarmed);
    assert_eq!(dir.alarm_history[0].last_alarmed_date, 200);

    create_or_update_device_alarm_history(Some(5), AlarmKind::BatteryAlarm, false, &mut dir, 300);
    assert_eq!(dir.alarm_history.len(), 1);
    assert_eq!(dir.alarm_history[0].alarm_counter, 2);
    assert!(!dir.alarm_history[0].still_alarmed);
    assert_eq!(dir.alarm_history[0].non_alarmed_date, Some(300));

    create_or_update_device_alarm_history(Some(5), AlarmKind::BatteryAlarm, true, &mut dir, 400);
    assert_eq!(dir.alarm_history.len(), 2);
    assert_eq!(dir.alarm_history[1].alarm_counter, 1);
    assert!(dir.alarm_history[1].still_alarmed);
}

#[test]
fn alarm_history_false_on_fresh_state_is_a_no_op() {
    let mut dir = Directory::new();
    create_or_update_device_alarm_history(Some(5), AlarmKind::MotorAlarm, false, &mut dir, 100);
    assert_eq!(dir.alarm_history.len(), 0);
}

#[test]
fn alarm_history_keeps_kinds_apart() {
    let mut dir = Directory::new();
    create_or_update_device_alarm_history(Some(5), AlarmKind::BatteryAlarm, true, &mut dir, 100);
    create_or_update_device_alarm_history(Some(5), AlarmKind::SignalAlarm, true, &mut dir, 100);
    assert_eq!(dir.alarm_history.len(), 2);
    assert_eq!(dir.alarm_history[0].alarm_counter, 1);
    assert_eq!(dir.alarm_history[1].alarm_counter, 1);
}

#[test]
fn hopper_edges_stamp_timestamps_once() {
    let mut dir = Directory::new();
    dir.add_device(record(3, "AA01"));
    let t = noon();

    // Full -> Full: no timestamp write.
    let dev = snapshot(&dir.devices[0]);
    dev.create_device_status(&t, DeviceStatus::Full, &mut dir, 1000);
    assert_eq!(dir.devices[0].first_change_status_timestamp, None);
    assert_eq!(dir.devices[0].first_change_full_status_timestamp, None);

    // Full -> Empty: first-empty stamped once.
    let dev = snapshot(&dir.devices[0]);
    dev.create_device_status(&t, DeviceStatus::Empty, &mut dir, 2000);
    assert_eq!(dir.devices[0].first_change_status_timestamp, Some(2000));

    // Empty -> Empty: the stamp stays.
    let dev = snapshot(&dir.devices[0]);
    dev.create_device_status(&t, DeviceStatus::Empty, &mut dir, 3000);
    assert_eq!(dir.devices[0].first_change_status_timestamp, Some(2000));
    assert_eq!(dir.devices[0].first_change_full_status_timestamp, None);

    // Empty -> Full: first-full stamped once.
    let dev = snapshot(&dir.devices[0]);
    dev.create_device_status(&t, DeviceStatus::Full, &mut dir, 4000);
    assert_eq!(dir.devices[0].first_change_status_timestamp, Some(2000));
    assert_eq!(dir.devices[0].first_change_full_status_timestamp, Some(4000));

    // Four status-log rows were written, one per frame.
    assert_eq!(dir.device_status.len(), 4);
    assert_eq!(dir.device_status[1].status, DeviceStatus::Empty);

    // The hopper condition fed the alarm history under the empty kind.
    assert!(dir.alarm_history.iter().all(|h| h.kind == AlarmKind::EmptyAlarm));
}

#[test]
fn hopper_status_row_marks_powered_off_devices_retained() {
    let mut dir = Directory::new();
    dir.add_device(record(3, "AA01"));
    dir.add_variable(VarRecord {
        device_id: 3,
        id: 70,
        size: 1,
        format: "dec".to_string(),
        name: "power".to_string(),
        base_var_id: 7,
        value: "0".to_string(),
        code: Some("0C03:15".to_string()),
        write_date: None,
    });
    let dev = snapshot(&dir.devices[0]);
    dev.create_device_status(&noon(), DeviceStatus::Full, &mut dir, 1000);
    assert!(dir.device_status[0].retained);
}

#[test]
fn bit_alarm_mask_zero_deactivates_all_three() {
    let mut dir = Directory::new();
    dir.add_device(record(4, "AA02"));
    let dev = snapshot(&dir.devices[0]);

    // Raise all three configured alarms: bits 1, 4 and 20.
    dev.insert_alarm((1 << 1) | (1 << 4) | (1 << 20), &mut dir, 50);
    assert_eq!(dir.alarms.len(), 3);
    assert!(dir.alarms.iter().all(|a| a.active));

    // Mask zero retires every configured position.
    dev.insert_alarm(0, &mut dir, 60);
    assert_eq!(dir.alarms.len(), 3);
    assert!(dir.alarms.iter().all(|a| !a.active));
}

#[test]
fn bit_alarm_battery_only_activates_low_battery() {
    let mut dir = Directory::new();
    dir.add_device(record(4, "AA02"));
    let dev = snapshot(&dir.devices[0]);
    dev.insert_alarm(1 << 20, &mut dir, 50);
    assert_eq!(dir.alarms.len(), 1);
    let row = &dir.alarms[0];
    assert_eq!(row.bit_position, 20);
    assert_eq!(row.name, "Bateria baja");
    assert!(row.active);
}

#[test]
fn bit_alarm_duplicates_are_allowed() {
    let mut dir = Directory::new();
    dir.add_device(record(4, "AA02"));
    let dev = snapshot(&dir.devices[0]);
    dev.insert_alarm(1 << 20, &mut dir, 50);
    dev.insert_alarm(1 << 20, &mut dir, 60);
    assert_eq!(dir.alarms.iter().filter(|a| a.bit_position == 20 && a.active).count(), 2);
}

#[test]
fn sweep_retires_stale_alarms_and_rewrites_flags() {
    let mut dir = Directory::new();
    dir.add_device(record(4, "AA02"));
    let dev = snapshot(&dir.devices[0]);
    // A battery alarm raised at tick 50.
    dev.insert_alarm(1 << 20, &mut dir, 50);
    // Sweep four minutes later: 50 <= 290 - 180, so it is stale.
    bulk_clean_alarms(&vec![4], None, &mut dir, 290);
    assert!(!dir.alarms[0].active);
    assert!(!dir.devices[0].battery_alarm);
    assert!(!dir.devices[0].motor_alarm);

    // A fresh alarm survives a sweep moments later and sets the flag.
    dev.insert_alarm(1 << 20, &mut dir, 300);
    bulk_clean_alarms(&vec![4], None, &mut dir, 310);
    assert!(dir.alarms[1].active);
    assert!(dir.devices[0].battery_alarm);
    // And the history engine saw the open battery episode.
    assert!(dir
        .alarm_history
        .iter()
        .any(|h| h.kind == AlarmKind::BatteryAlarm && h.still_alarmed));
}

#[test]
fn sweep_drops_parent_pre_alarms() {
    let mut dir = Directory::new();
    dir.add_device(record(4, "AA02"));
    let dev = snapshot(&dir.devices[0]);
    dev.insert_pre_alarm(&mut dir, 10);
    dev.insert_pre_alarm(&mut dir, 20);
    assert_eq!(dir.pre_alarms.len(), 1);
    bulk_clean_alarms(&vec![4], Some(4), &mut dir, 200);
    assert_eq!(dir.pre_alarms.len(), 0);
}

#[test]
fn get_device_requires_exactly_one_match() {
    let mut dir = Directory::new();
    dir.add_device(record(1, "ADDR1"));
    dir.add_device(record(2, "ADDR2"));
    dir.add_device(record(3, "DUP"));
    dir.add_device(record(4, "DUP"));
    assert_eq!(get_device("ADDR1".to_string(), &dir).unwrap().id, 1);
    assert!(get_device("MISSING".to_string(), &dir).is_none());
    assert!(get_device("DUP".to_string(), &dir).is_none());
}

#[test]
fn children_are_ordered_by_address() {
    let mut dir = Directory::new();
    dir.add_device(record(1, "UC"));
    let mut c1 = record(11, "C");
    c1.parent_id = Some(1);
    let mut c2 = record(12, "A");
    c2.parent_id = Some(1);
    let mut c3 = record(13, "B");
    c3.parent_id = Some(1);
    dir.add_device(c1);
    dir.add_device(c2);
    dir.add_device(c3);
    let uc = snapshot(&dir.devices[0]);
    let children = uc.get_children_devices(&dir).unwrap();
    let addrs: Vec<&str> = children.iter().map(|c| c.address.as_str()).collect();
    assert_eq!(addrs, vec!["A", "B", "C"]);
    // Ordinal 2 resolves the third child in address order.
    assert_eq!(children[2].id, 11);
}

#[test]
fn feeders_keep_their_cached_hopper_flag() {
    let mut dir = Directory::new();
    dir.add_device(record(1, "UC"));
    let mut f = record(21, "F1");
    f.parent_id = Some(1);
    f.profile = ProfileKind::Feeder;
    f.empty_alarm = Some(true);
    let mut s = record(22, "S1");
    s.parent_id = Some(1);
    s.profile = ProfileKind::Sensor;
    dir.add_device(f);
    dir.add_device(s);
    let uc = snapshot(&dir.devices[0]);
    let feeders = uc.get_feeders(&dir).unwrap();
    assert_eq!(feeders.len(), 1);
    assert_eq!(feeders[0].id, 21);
    assert_eq!(feeders[0].empty_alarm, Some(true));
    let sensors = uc.get_sensors(&dir).unwrap();
    assert_eq!(sensors.len(), 1);
    assert_eq!(sensors[0].id, 22);
    assert!(uc.get_feeders(&Directory::new()).is_none());
}

#[test]
fn update_status_counts_responded_messages() {
    let mut dir = Directory::new();
    dir.add_device(record(1, "UC"));
    let dev = snapshot(&dir.devices[0]);
    dev.update_status(CommunicationStatus::Intermitente, &mut dir);
    assert_eq!(dir.devices[0].status, Some(CommunicationStatus::Intermitente));
    assert_eq!(dir.devices[0].responded_message_counter, 1);
    assert_eq!(dir.devices[0].status_hidden, Some(CommunicationStatus::Okay));
}

#[test]
fn insert_status_log_derives_the_signal_alarm() {
    let mut dir = Directory::new();
    dir.add_device(record(1, "UC"));
    let dev = snapshot(&dir.devices[0]);
    dev.insert_status_log(
        aquafeed::model::LogTime::Frame(noon()),
        Some(21),
        95,
        None,
        None,
        &mut dir,
        500,
    );
    // Stored negated: -95 <= -90 trips the alarm.
    assert_eq!(dir.status_logs[0].signal, -95);
    assert_eq!(dir.status_logs[0].temp, 21);
    assert!(dir.devices[0].signal_alarm);
    assert_eq!(dir.devices[0].last_signal, Some(-95));

    dev.insert_status_log(
        aquafeed::model::LogTime::Frame(noon()),
        None,
        80,
        None,
        None,
        &mut dir,
        600,
    );
    assert!(!dir.devices[0].signal_alarm);
}

#[test]
fn hydro_sessions_are_reused_within_a_window() {
    let mut dir = Directory::new();
    dir.add_device(record(1, "UC"));
    let dev = snapshot(&dir.devices[0]);
    let first = dev.get_or_create_hydro_now(1000, 2000, &mut dir).unwrap();
    assert_eq!(dir.hydro_sessions.len(), 1);
    let again = dev.get_or_create_hydro_now(1000, 2500, &mut dir).unwrap();
    assert_eq!(dir.hydro_sessions.len(), 1);
    assert_eq!(first.id, again.id);

    let lines = again.create_lines("12.5", "31", 2500, &mut dir);
    assert!(lines.is_ok());
    assert_eq!(dir.hydro_lines.len(), 1);
    assert_eq!(dir.hydro_lines[0].sound_a, "12.5");
    assert_eq!(dir.hydro_lines[0].hopper_status, "full");

    assert!(again.create_lines("1F", "2", 2600, &mut dir).is_err());
    assert_eq!(dir.hydro_lines.len(), 1);
}

#[test]
fn verify_bytes_seteo_rewrites_disagreeing_bits() {
    let mut dir = Directory::new();
    dir.add_device(record(1, "UC"));
    let mk = |id: i32, suffix: &str, value: &str| VarRecord {
        device_id: 1,
        id,
        size: 1,
        format: "dec".to_string(),
        name: format!("bit{}", suffix),
        base_var_id: id,
        value: value.to_string(),
        code: Some(format!("0C03:{}", suffix)),
        write_date: None,
    };
    dir.add_variable(mk(100, "0", "0"));
    dir.add_variable(mk(101, "1", "1"));
    let dev = snapshot(&dir.devices[0]);
    // New mask 0x1: bit 0 set, bit 1 clear.
    dev.verify_bytes_seteo("0C03", "1", &mut dir, 999).unwrap();
    assert_eq!(dir.vars[0].value, "1");
    assert_eq!(dir.vars[0].write_date, Some(999));
    assert_eq!(dir.vars[1].value, "0");

    // A code without a usable suffix aborts.
    dir.add_variable(mk(102, "abc", "0"));
    let dev = snapshot(&dir.devices[0]);
    assert!(dev.verify_bytes_seteo("0C03", "1", &mut dir, 999).is_err());

    // Another code is ignored entirely.
    assert!(dev.verify_bytes_seteo("0D00", "1", &mut dir, 999).is_ok());
}
