//! The device directory: an in-memory projection of the persistent rows
//! the engine reads and writes — devices, variables, and the log, alarm
//! and analysis tables.  Handlers mutate this directory; the process
//! boundary applies it back to the store.

use vstd::prelude::*;

use crate::codec::Var;
use crate::ftime::FrameTime;
use crate::strutil::{lex_le, prefix_ci, str_eq, str_le};

verus! {

/// What role a provisioned device plays under its parent.
#[derive(Clone, Copy, PartialEq, Eq, Structural, Debug)]
pub enum ProfileKind {
    Feeder,
    Sensor,
    Other,
}

/// Hopper fill state of a feeder.
#[derive(Clone, Copy, PartialEq, Eq, Structural, Debug)]
pub enum DeviceStatus {
    Empty,
    Full,
}

/// Communication liveness of a device, as the ping state machine drives
/// it.
#[derive(Clone, Copy, PartialEq, Eq, Structural, Debug)]
pub enum CommunicationStatus {
    Waiting,
    Okay,
    Intermitente,
    Lost,
}

/// The four boolean alarm-condition types that the history engine tracks.
#[derive(Clone, Copy, PartialEq, Eq, Structural, Debug)]
pub enum AlarmKind {
    EmptyAlarm,
    SignalAlarm,
    BatteryAlarm,
    MotorAlarm,
}

/// One provisioned device row with the columns the engine touches.
pub struct DeviceRecord {
    pub id: i32,
    pub network_id: Option<i32>,
    pub name: String,
    pub address: String,
    pub protocol: String,
    pub pond_id: Option<i32>,
    pub pond_name: Option<String>,
    pub farm_id: Option<i32>,
    pub status: Option<CommunicationStatus>,
    pub mode: Option<String>,
    pub empty_alarm: Option<bool>,
    pub parent_id: Option<i32>,
    pub profile: ProfileKind,
    pub hopper_status: Option<DeviceStatus>,
    pub first_change_status_timestamp: Option<i64>,
    pub first_change_full_status_timestamp: Option<i64>,
    pub battery_alarm: bool,
    pub motor_alarm: bool,
    pub signal_alarm: bool,
    pub last_signal: Option<i64>,
    pub last_comm: Option<i64>,
    pub last_signal_date: Option<FrameTime>,
    pub battery_level: Option<String>,
    pub interface_mac_address: Option<String>,
    pub responded_message_counter: i64,
    pub status_hidden: Option<CommunicationStatus>,
}

/// One variable row bound to a device.
pub struct VarRecord {
    pub device_id: i32,
    pub id: i32,
    pub size: i32,
    pub format: String,
    pub name: String,
    pub base_var_id: i32,
    pub value: String,
    pub code: Option<String>,
    pub write_date: Option<i64>,
}

/// One hopper-state log row.
pub struct DeviceStatusRow {
    pub create_date: i64,
    pub device_id: i32,
    pub timestamp: FrameTime,
    pub status: DeviceStatus,
    pub retained: bool,
}

/// When a log row happened: a frame-carried calendar timestamp or a
/// server-side tick.
#[derive(Clone, Copy, PartialEq, Eq, Structural, Debug)]
pub enum LogTime {
    Frame(FrameTime),
    Tick(i64),
}

/// Why a directory operation could not complete.
#[derive(Clone, Copy, PartialEq, Eq, Structural, Debug)]
pub enum EngineError {
    /// A value that must be numeric is not.
    NotNumeric,
    /// A variable code lacks a usable bit-position suffix.
    BadVarCode,
    /// No session identifier is left.
    IdSpace,
}

/// One device status-log row: temperature, signal and power readings.
pub struct StatusLogRow {
    pub create_date: i64,
    pub device_id: i32,
    pub timestamp: LogTime,
    pub temp: i64,
    pub signal: i64,
    pub battery: Option<String>,
    pub panel: Option<String>,
    pub farm_id: Option<i32>,
}

/// One decoded-variable log row.
pub struct VarLogRow {
    pub create_date: i64,
    pub timestamp: FrameTime,
    pub device_id: i32,
    pub base_var_id: i32,
    pub value: String,
    pub cycle_id: Option<i32>,
    pub code: String,
    pub description: Option<String>,
}

/// One bit-position alarm row.
pub struct AlarmRow {
    pub create_date: i64,
    pub device_id: i32,
    pub pond: Option<String>,
    pub bit_position: i32,
    pub incident_number: i32,
    pub name: String,
    pub farm_id: Option<i32>,
    pub timestamp: i64,
    pub active: bool,
}

/// One pre-alarm row awaiting server processing.
#[derive(Clone, Copy, PartialEq, Eq, Structural, Debug)]
pub struct PreAlarmRow {
    pub create_date: i64,
    pub device_id: i32,
}

/// One alarm-history row: a per-device, per-condition episode with a
/// running counter.
pub struct DeviceAlarmHistory {
    pub device_id: Option<i32>,
    pub kind: AlarmKind,
    pub still_alarmed: bool,
    pub alarm_counter: i64,
    pub last_alarmed_date: i64,
    pub non_alarmed_date: Option<i64>,
    pub create_date: i64,
}

/// One hydrophone analysis session row for a daily window.
pub struct HydroSessionRow {
    pub id: i32,
    pub device_id: i32,
    pub create_date: i64,
    pub farm_id: Option<i32>,
    pub pond_id: Option<i32>,
}

/// One sound-sample line of an analysis session.
pub struct HydroLineRow {
    pub analysis_id: i32,
    pub sound_a: String,
    pub sound_b: String,
    pub create_date: i64,
    pub hopper_status: String,
}

/// The in-memory projection of the store.
pub struct Directory {
    pub devices: Vec<DeviceRecord>,
    pub vars: Vec<VarRecord>,
    pub device_status: Vec<DeviceStatusRow>,
    pub status_logs: Vec<StatusLogRow>,
    pub var_logs: Vec<VarLogRow>,
    pub alarms: Vec<AlarmRow>,
    pub pre_alarms: Vec<PreAlarmRow>,
    pub alarm_history: Vec<DeviceAlarmHistory>,
    pub hydro_sessions: Vec<HydroSessionRow>,
    pub hydro_lines: Vec<HydroLineRow>,
}

/// A device as a handler sees it: the resolved snapshot.
pub struct Device {
    pub id: i32,
    pub network_id: Option<i32>,
    pub name: String,
    pub address: String,
    pub protocol: String,
    pub pond_id: Option<i32>,
    pub pond_name: Option<String>,
    pub farm_id: Option<i32>,
    pub status: Option<CommunicationStatus>,
    pub mode: Option<String>,
    pub empty_alarm: Option<bool>,
}

/// Pond name and farm id, resolved together.
pub type Shrimp = (Option<String>, Option<i32>);

impl Directory {
    /// An empty directory.
    pub fn new() -> (r: Directory)
        ensures
            r.devices@ == Seq::<DeviceRecord>::empty(),
            r.vars@ == Seq::<VarRecord>::empty(),
            r.device_status@ == Seq::<DeviceStatusRow>::empty(),
            r.status_logs@ == Seq::<StatusLogRow>::empty(),
            r.var_logs@ == Seq::<VarLogRow>::empty(),
            r.alarms@ == Seq::<AlarmRow>::empty(),
            r.pre_alarms@ == Seq::<PreAlarmRow>::empty(),
            r.alarm_history@ == Seq::<DeviceAlarmHistory>::empty(),
            r.hydro_sessions@ == Seq::<HydroSessionRow>::empty(),
            r.hydro_lines@ == Seq::<HydroLineRow>::empty(),
    {
        Directory {
            devices: Vec::new(),
            vars: Vec::new(),
            device_status: Vec::new(),
            status_logs: Vec::new(),
            var_logs: Vec::new(),
            alarms: Vec::new(),
            pre_alarms: Vec::new(),
            alarm_history: Vec::new(),
            hydro_sessions: Vec::new(),
            hydro_lines: Vec::new(),
        }
    }

    /// Provision one device row.
    pub fn add_device(&mut self, rec: DeviceRecord)
        ensures
            final(self).devices@ == old(self).devices@.push(rec),
            final(self).vars == old(self).vars,
            final(self).device_status == old(self).device_status,
            final(self).status_logs == old(self).status_logs,
            final(self).var_logs == old(self).var_logs,
            final(self).alarms == old(self).alarms,
            final(self).pre_alarms == old(self).pre_alarms,
            final(self).alarm_history == old(self).alarm_history,
            final(self).hydro_sessions == old(self).hydro_sessions,
            final(self).hydro_lines == old(self).hydro_lines,
    {
        self.devices.push(rec);
    }

    /// Provision one variable row.
    pub fn add_variable(&mut self, rec: VarRecord)
        ensures
            final(self).vars@ == old(self).vars@.push(rec),
            final(self).devices == old(self).devices,
            final(self).device_status == old(self).device_status,
            final(self).status_logs == old(self).status_logs,
            final(self).var_logs == old(self).var_logs,
            final(self).alarms == old(self).alarms,
            final(self).pre_alarms == old(self).pre_alarms,
            final(self).alarm_history == old(self).alarm_history,
            final(self).hydro_sessions == old(self).hydro_sessions,
            final(self).hydro_lines == old(self).hydro_lines,
    {
        self.vars.push(rec);
    }
}

/// Everything but the device table unchanged.
pub open spec fn same_but_devices(post: Directory, pre: Directory) -> bool {
    &&& post.vars == pre.vars
    &&& post.device_status == pre.device_status
    &&& post.status_logs == pre.status_logs
    &&& post.var_logs == pre.var_logs
    &&& post.alarms == pre.alarms
    &&& post.pre_alarms == pre.pre_alarms
    &&& post.alarm_history == pre.alarm_history
    &&& post.hydro_sessions == pre.hydro_sessions
    &&& post.hydro_lines == pre.hydro_lines
}

/// The variable rows of `dev` whose code is exactly `code`, in stored
/// order.
pub open spec fn vars_with_code(vs: Seq<VarRecord>, dev: i32, code: Seq<char>) -> Seq<VarRecord> {
    vs.filter(
        |v: VarRecord|
            v.device_id == dev && match v.code {
                Some(c) => c@ == code,
                None => false,
            },
    )
}

/// The variable snapshot built from a row.
pub open spec fn var_of(v: VarRecord) -> Var {
    Var {
        id: v.id,
        size: v.size,
        format: v.format,
        name: v.name,
        base_var_id: v.base_var_id,
        value: v.value,
        code: v.code,
    }
}

/// The variable rows of `dev` whose code begins with `code` and a colon,
/// compared without regard to ASCII case, in stored order.
pub open spec fn vars_with_code_prefix(vs: Seq<VarRecord>, dev: i32, pref: Seq<char>) -> Seq<
    VarRecord,
> {
    vs.filter(
        |v: VarRecord|
            v.device_id == dev && match v.code {
                Some(c) => prefix_ci(c@, pref),
                None => false,
            },
    )
}

/// The device rows whose address is exactly `addr`, in stored order.
pub open spec fn devices_with_address(ds: Seq<DeviceRecord>, addr: Seq<char>) -> Seq<DeviceRecord> {
    ds.filter(|r: DeviceRecord| r.address@ == addr)
}

/// The snapshot a resolution query builds from a row.
pub open spec fn device_of(r: DeviceRecord) -> Device {
    Device {
        id: r.id,
        network_id: r.network_id,
        name: r.name,
        address: r.address,
        protocol: r.protocol,
        pond_id: r.pond_id,
        pond_name: r.pond_name,
        farm_id: r.farm_id,
        status: r.status,
        mode: r.mode,
        empty_alarm: r.empty_alarm,
    }
}

impl Device {
    /// Create a new device snapshot.
    pub fn new(
        id: i32,
        network_id: Option<i32>,
        name: String,
        address: String,
        protocol: String,
        shrimps: Shrimp,
        status: Option<CommunicationStatus>,
        pond_id: Option<i32>,
        mode: Option<String>,
        empty_alarm: Option<bool>,
    ) -> (r: Self)
        ensures
            r.id == id,
            r.network_id == network_id,
            r.name == name,
            r.address == address,
            r.protocol == protocol,
            r.pond_name == shrimps.0,
            r.farm_id == shrimps.1,
            r.status == status,
            r.pond_id == pond_id,
            r.mode == mode,
            r.empty_alarm == empty_alarm,
    {
        Self {
            id,
            network_id,
            name,
            address,
            protocol,
            pond_name: shrimps.0,
            farm_id: shrimps.1,
            status,
            pond_id,
            mode,
            empty_alarm,
        }
    }
}

/// Resolve a device by its hardware address: the snapshot when exactly one
/// row carries the address, nothing otherwise.
pub fn get_device(address: String, dir: &Directory) -> (r: Option<Device>)
    ensures
        ({
            let ms = devices_with_address(dir.devices@, address@);
            if ms.len() == 1 {
                r == Some(device_of(ms[0]))
            } else {
                r is None
            }
        }),
{
    let ghost pred = |rec: DeviceRecord| rec.address@ == address@;
    let mut found: usize = 0;
    let mut count: usize = 0;
    let mut i: usize = 0;
    proof {
        assert(dir.devices@.take(0).filter(pred) =~= Seq::<DeviceRecord>::empty());
    }
    while i < dir.devices.len()
        invariant
            i <= dir.devices@.len(),
            pred == (|rec: DeviceRecord| rec.address@ == address@),
            count == dir.devices@.take(i as int).filter(pred).len(),
            count > 0 ==> found < i && pred(dir.devices@[found as int]) && dir.devices@.take(
                i as int,
            ).filter(pred)[0] == dir.devices@[found as int],
        decreases dir.devices@.len() - i,
    {
        let ghost pre = dir.devices@.take(i as int);
        proof {
            assert(dir.devices@.take(i as int + 1).drop_last() =~= pre);
            assert(dir.devices@.take(i as int + 1).last() == dir.devices@[i as int]);
            reveal_with_fuel(Seq::filter, 2);
        }
        if str_eq(dir.devices[i].address.as_str(), address.as_str()) {
            if count == 0 {
                found = i;
            }
            count = count + 1;
        }
        i = i + 1;
    }
    proof {
        assert(dir.devices@.take(dir.devices@.len() as int) =~= dir.devices@);
        assert(vstd::prelude::Seq::filter(dir.devices@, pred) == devices_with_address(
            dir.devices@,
            address@,
        ));
    }
    if count == 1 {
        let rec = &dir.devices[found];
        Some(
            Device::new(
                rec.id,
                rec.network_id,
                rec.name.clone(),
                rec.address.clone(),
                rec.protocol.clone(),
                (clone_opt_string(&rec.pond_name), rec.farm_id),
                rec.status,
                rec.pond_id,
                clone_opt_string(&rec.mode),
                rec.empty_alarm,
            ),
        )
    } else {
        None
    }
}

/// A copy of an optional string.
pub fn clone_opt_string(s: &Option<String>) -> (r: Option<String>)
    ensures
        r == *s,
{
    match s {
        Some(v) => Some(v.clone()),
        None => None,
    }
}

impl Directory {
    /// Set `last_comm` on every listed device: the per-message liveness
    /// stamp.
    pub open spec fn with_last_comm(ds: Seq<DeviceRecord>, ids: Seq<i32>, now: i64) -> Seq<
        DeviceRecord,
    > {
        ds.map_values(
            |r: DeviceRecord|
                if ids.contains(r.id) {
                    DeviceRecord { last_comm: Some(now), ..r }
                } else {
                    r
                },
        )
    }
}

impl Device {
    /// Record the arrival of a message for this device.
    pub fn update_communication(&self, dir: &mut Directory, now: i64)
        ensures
            final(dir).devices@ == Directory::with_last_comm(
                old(dir).devices@,
                seq![self.id],
                now,
            ),
            same_but_devices(*final(dir), *old(dir)),
    {
        update_communication_for(dir, self.id, now);
    }
}

/// Record the arrival of a message for one device.
pub fn update_communication_for(dir: &mut Directory, id: i32, now: i64)
    ensures
        final(dir).devices@ == Directory::with_last_comm(old(dir).devices@, seq![id], now),
        same_but_devices(*final(dir), *old(dir)),
{
    let ids: Vec<i32> = vec![id];
    proof {
        assert(ids@ =~= seq![id]);
    }
    bulk_update_communication(&ids, dir, now);
}

/// Record the arrival of a message for a set of devices at once.
pub fn bulk_update_communication(devices: &Vec<i32>, dir: &mut Directory, now: i64)
    ensures
        final(dir).devices@ == Directory::with_last_comm(old(dir).devices@, devices@, now),
        same_but_devices(*final(dir), *old(dir)),
{
    let mut i: usize = 0;
    while i < dir.devices.len()
        invariant
            i <= dir.devices@.len(),
            dir.devices@.len() == old(dir).devices@.len(),
            same_but_devices(*dir, *old(dir)),
            forall|j: int|
                0 <= j < i ==> dir.devices@[j] == (if devices@.contains(
                    #[trigger] old(dir).devices@[j].id,
                ) {
                    DeviceRecord { last_comm: Some(now), ..old(dir).devices@[j] }
                } else {
                    old(dir).devices@[j]
                }),
            forall|j: int| i <= j < dir.devices@.len() ==> dir.devices@[j] == old(dir).devices@[j],
        decreases dir.devices@.len() - i,
    {
        let id = dir.devices[i].id;
        if contains_i32(devices, id) {
            let rec = &mut dir.devices[i];
            rec.last_comm = Some(now);
        }
        i = i + 1;
    }
    proof {
        assert(dir.devices@ =~= Directory::with_last_comm(old(dir).devices@, devices@, now));
    }
}

/// Whether `v` holds `x`.
pub fn contains_i32(v: &Vec<i32>, x: i32) -> (r: bool)
    ensures
        r == v@.contains(x),
{
    let mut i: usize = 0;
    while i < v.len()
        invariant
            i <= v@.len(),
            forall|j: int| 0 <= j < i ==> v@[j] != x,
        decreases v@.len() - i,
    {
        if v[i] == x {
            return true;
        }
        i = i + 1;
    }
    false
}

} // verus!

verus! {

// ---- variable lookup ----

/// Resolve the first variable of `dev` with exactly this code.
pub fn get_variable_from(dir: &Directory, dev: i32, code: &str) -> (r: Option<Var>)
    ensures
        ({
            let ms = vars_with_code(dir.vars@, dev, code@);
            if ms.len() > 0 {
                r == Some(var_of(ms[0]))
            } else {
                r is None
            }
        }),
{
    let ghost pred = |v: VarRecord|
        v.device_id == dev && match v.code {
            Some(c) => c@ == code@,
            None => false,
        };
    let mut i: usize = 0;
    proof {
        assert(dir.vars@.take(0).filter(pred) =~= Seq::<VarRecord>::empty());
    }
    while i < dir.vars.len()
        invariant
            i <= dir.vars@.len(),
            pred == (|v: VarRecord|
                v.device_id == dev && match v.code {
                    Some(c) => c@ == code@,
                    None => false,
                }),
            dir.vars@.take(i as int).filter(pred).len() == 0,
        decreases dir.vars@.len() - i,
    {
        let ghost pre = dir.vars@.take(i as int);
        proof {
            assert(dir.vars@.take(i as int + 1).drop_last() =~= pre);
            assert(dir.vars@.take(i as int + 1).last() == dir.vars@[i as int]);
            reveal_with_fuel(Seq::filter, 2);
        }
        let v = &dir.vars[i];
        let code_match = match &v.code {
            Some(c) => str_eq(c.as_str(), code),
            None => false,
        };
        if v.device_id == dev && code_match {
            proof {
                let whole = dir.vars@;
                assert(whole =~= whole.take(i as int + 1) + whole.skip(i as int + 1));
                Seq::<VarRecord>::filter_distributes_over_add(
                    whole.take(i as int + 1),
                    whole.skip(i as int + 1),
                    pred,
                );
                assert(whole.take(i as int + 1).filter(pred) =~= seq![whole[i as int]]);
                assert(vars_with_code(dir.vars@, dev, code@) == (whole.take(i as int + 1)
                    + whole.skip(i as int + 1)).filter(pred));
            }
            return Some(
                Var::new(
                    v.id,
                    v.size,
                    v.format.clone(),
                    v.name.clone(),
                    v.base_var_id,
                    v.value.clone(),
                    clone_opt_string(&v.code),
                ),
            );
        }
        i = i + 1;
    }
    proof {
        assert(dir.vars@.take(dir.vars@.len() as int) =~= dir.vars@);
    }
    None
}

/// The variables of `dev` whose code begins with `pref`, as snapshots in
/// stored order.
pub open spec fn multiple_vars_of(vs: Seq<VarRecord>, dev: i32, pref: Seq<char>) -> Seq<Var> {
    vars_with_code_prefix(vs, dev, pref).map_values(|v: VarRecord| var_of(v))
}

/// Resolve every variable of `dev` whose code starts with `code` and a
/// colon, without regard to ASCII case.
pub fn get_multiple_variables_from(dir: &Directory, dev: i32, code: &str) -> (r: Vec<Var>)
    ensures
        ({
            let pref = code@ + seq![':'];
            r@ == multiple_vars_of(dir.vars@, dev, pref)
        }),
{
    let mut pattern = String::new();
    pattern.append(code);
    proof {
        reveal_strlit(":");
        assert(":"@ =~= seq![':']);
    }
    pattern.append(":");
    let ghost pref = code@ + seq![':'];
    proof {
        assert(pattern@ == pref);
    }
    let ghost pred = |v: VarRecord|
        v.device_id == dev && match v.code {
            Some(c) => prefix_ci(c@, pref),
            None => false,
        };
    let mut out: Vec<Var> = Vec::new();
    let mut i: usize = 0;
    proof {
        assert(dir.vars@.take(0).filter(pred) =~= Seq::<VarRecord>::empty());
        assert(out@ =~= dir.vars@.take(0).filter(pred).map_values(|v: VarRecord| var_of(v)));
    }
    while i < dir.vars.len()
        invariant
            i <= dir.vars@.len(),
            pref == code@ + seq![':'],
            pattern@ == pref,
            pred == (|v: VarRecord|
                v.device_id == dev && match v.code {
                    Some(c) => prefix_ci(c@, pref),
                    None => false,
                }),
            out@ == dir.vars@.take(i as int).filter(pred).map_values(|v: VarRecord| var_of(v)),
        decreases dir.vars@.len() - i,
    {
        let ghost pre = dir.vars@.take(i as int);
        proof {
            assert(dir.vars@.take(i as int + 1).drop_last() =~= pre);
            assert(dir.vars@.take(i as int + 1).last() == dir.vars@[i as int]);
            reveal_with_fuel(Seq::filter, 2);
        }
        let v = &dir.vars[i];
        let code_match = match &v.code {
            Some(c) => crate::strutil::starts_with_ci(c.as_str(), pattern.as_str()),
            None => false,
        };
        if v.device_id == dev && code_match {
            out.push(
                Var::new(
                    v.id,
                    v.size,
                    v.format.clone(),
                    v.name.clone(),
                    v.base_var_id,
                    v.value.clone(),
                    clone_opt_string(&v.code),
                ),
            );
            proof {
                assert(dir.vars@.take(i as int + 1).filter(pred) =~= pre.filter(pred).push(
                    dir.vars@[i as int],
                ));
                assert(out@ =~= dir.vars@.take(i as int + 1).filter(pred).map_values(
                    |v: VarRecord| var_of(v),
                ));
            }
        } else {
            proof {
                assert(dir.vars@.take(i as int + 1).filter(pred) =~= pre.filter(pred));
            }
        }
        i = i + 1;
    }
    proof {
        assert(dir.vars@.take(dir.vars@.len() as int) =~= dir.vars@);
    }
    out
}

/// Whether the power-state variable reports the device switched on; a
/// device without the variable counts as on.
pub open spec fn power_on(vs: Seq<VarRecord>, dev: i32) -> bool {
    let ms = vars_with_code(vs, dev, "0C03:15"@);
    if ms.len() > 0 {
        ms[0].value@ == "1"@
    } else {
        true
    }
}

/// Whether the hydrophone-enable variable reports an active hydrophone.
pub open spec fn hydro_active(vs: Seq<VarRecord>, dev: i32) -> bool {
    let ms = vars_with_code(vs, dev, "0C03:13"@);
    ms.len() > 0 && ms[0].value@ == "1"@
}

} // verus!

verus! {

// ---- address-ordered child lists ----

/// Stable insertion of a snapshot into an address-ordered list: after
/// every entry at or before it.
pub open spec fn insert_by_addr(x: Device, s: Seq<Device>) -> Seq<Device>
    decreases s.len(),
{
    if s.len() == 0 {
        seq![x]
    } else if lex_le(s[0].address@, x.address@) {
        seq![s[0]] + insert_by_addr(x, s.drop_first())
    } else {
        seq![x] + s
    }
}

/// The snapshots ordered by address ascending, stably.
pub open spec fn sort_by_addr(s: Seq<Device>) -> Seq<Device>
    decreases s.len(),
{
    if s.len() == 0 {
        Seq::empty()
    } else {
        insert_by_addr(s.last(), sort_by_addr(s.drop_last()))
    }
}

/// Where a scan that skipped every at-or-before entry stops is where the
/// insertion lands.
proof fn lemma_insert_by_addr_at(x: Device, s: Seq<Device>, j: int)
    requires
        0 <= j <= s.len(),
        forall|m: int| 0 <= m < j ==> lex_le(#[trigger] s[m].address@, x.address@),
        j < s.len() ==> !lex_le(s[j].address@, x.address@),
    ensures
        insert_by_addr(x, s) == s.insert(j, x),
    decreases j,
{
    if j == 0 {
        if s.len() == 0 {
            assert(insert_by_addr(x, s) =~= s.insert(0, x));
        } else {
            assert(insert_by_addr(x, s) =~= s.insert(0, x));
        }
    } else {
        assert(lex_le(s[0].address@, x.address@));
        assert(forall|m: int|
            0 <= m < j - 1 ==> #[trigger] s.drop_first()[m].address@ == s[m + 1].address@);
        lemma_insert_by_addr_at(x, s.drop_first(), j - 1);
        assert(seq![s[0]] + s.drop_first().insert(j - 1, x) =~= s.insert(j, x));
    }
}

/// Push one snapshot into a sorted accumulator.
fn insert_dev_sorted(out: &mut Vec<Device>, x: Device)
    ensures
        final(out)@ == insert_by_addr(x, old(out)@),
{
    let mut j: usize = 0;
    while j < out.len() && str_le(out[j].address.as_str(), x.address.as_str())
        invariant
            j <= out@.len(),
            out@ == old(out)@,
            forall|m: int| 0 <= m < j ==> lex_le(#[trigger] out@[m].address@, x.address@),
        decreases out@.len() - j,
    {
        j = j + 1;
    }
    proof {
        lemma_insert_by_addr_at(x, out@, j as int);
    }
    out.insert(j, x);
}

/// The rows that are children of `parent` with the wanted profile;
/// `ProfileKind::Other` stands for no profile restriction.
pub open spec fn child_rows(ds: Seq<DeviceRecord>, parent: i32, profile: ProfileKind) -> Seq<
    DeviceRecord,
> {
    ds.filter(
        |r: DeviceRecord|
            r.parent_id == Some(parent) && (profile == ProfileKind::Other || r.profile == profile),
    )
}

/// The snapshot a child query builds: the parent's protocol, the row's
/// farm and, for feeders, its cached hopper flag; sensors and plain
/// children report a full hopper.
pub open spec fn child_snapshot(r: DeviceRecord, proto: String, keep_empty_alarm: bool) -> Device {
    Device {
        id: r.id,
        network_id: r.network_id,
        name: r.name,
        address: r.address,
        protocol: proto,
        pond_id: None,
        pond_name: None,
        farm_id: r.farm_id,
        status: None,
        mode: None,
        empty_alarm: if keep_empty_alarm {
            r.empty_alarm
        } else {
            Some(false)
        },
    }
}

/// The address-ordered child list a query returns.
pub open spec fn child_list(
    ds: Seq<DeviceRecord>,
    parent: i32,
    profile: ProfileKind,
    proto: String,
    keep_empty_alarm: bool,
) -> Seq<Device> {
    sort_by_addr(
        child_rows(ds, parent, profile).map_values(
            |r: DeviceRecord| child_snapshot(r, proto, keep_empty_alarm),
        ),
    )
}

/// Shared query core for the three child lists.
fn query_children(dir: &Directory, parent: i32, profile: ProfileKind, proto: &String, keep_empty_alarm: bool) -> (r: Vec<
    Device,
>)
    ensures
        r@ == child_list(dir.devices@, parent, profile, *proto, keep_empty_alarm),
{
    let ghost pred = |rec: DeviceRecord|
        rec.parent_id == Some(parent) && (profile == ProfileKind::Other || rec.profile == profile);
    let ghost snap = |rec: DeviceRecord| child_snapshot(rec, *proto, keep_empty_alarm);
    let mut out: Vec<Device> = Vec::new();
    let mut i: usize = 0;
    proof {
        assert(dir.devices@.take(0).filter(pred) =~= Seq::<DeviceRecord>::empty());
        assert(out@ =~= sort_by_addr(dir.devices@.take(0).filter(pred).map_values(snap)));
    }
    while i < dir.devices.len()
        invariant
            i <= dir.devices@.len(),
            pred == (|rec: DeviceRecord|
                rec.parent_id == Some(parent) && (profile == ProfileKind::Other || rec.profile
                    == profile)),
            snap == (|rec: DeviceRecord| child_snapshot(rec, *proto, keep_empty_alarm)),
            out@ == sort_by_addr(dir.devices@.take(i as int).filter(pred).map_values(snap)),
        decreases dir.devices@.len() - i,
    {
        let ghost pre = dir.devices@.take(i as int);
        proof {
            assert(dir.devices@.take(i as int + 1).drop_last() =~= pre);
            assert(dir.devices@.take(i as int + 1).last() == dir.devices@[i as int]);
            reveal_with_fuel(Seq::filter, 2);
        }
        let rec = &dir.devices[i];
        let is_child = match rec.parent_id {
            Some(p) => p == parent,
            None => false,
        };
        let profile_ok = match profile {
            ProfileKind::Other => true,
            ProfileKind::Feeder => rec.profile == ProfileKind::Feeder,
            ProfileKind::Sensor => rec.profile == ProfileKind::Sensor,
        };
        if is_child && profile_ok {
            let snapshot = Device {
                id: rec.id,
                network_id: rec.network_id,
                name: rec.name.clone(),
                address: rec.address.clone(),
                protocol: proto.clone(),
                pond_id: None,
                pond_name: None,
                farm_id: rec.farm_id,
                status: None,
                mode: None,
                empty_alarm: if keep_empty_alarm {
                    rec.empty_alarm
                } else {
                    Some(false)
                },
            };
            proof {
                let fpre = pre.filter(pred);
                let fpost = dir.devices@.take(i as int + 1).filter(pred);
                assert(fpost =~= fpre.push(dir.devices@[i as int]));
                assert(fpost.map_values(snap) =~= fpre.map_values(snap).push(
                    snap(dir.devices@[i as int]),
                ));
                assert(fpost.map_values(snap).drop_last() =~= fpre.map_values(snap));
                assert(snapshot == snap(dir.devices@[i as int]));
            }
            insert_dev_sorted(&mut out, snapshot);
        } else {
            proof {
                assert(dir.devices@.take(i as int + 1).filter(pred) =~= pre.filter(pred));
            }
        }
        i = i + 1;
    }
    proof {
        assert(dir.devices@.take(dir.devices@.len() as int) =~= dir.devices@);
    }
    out
}

} // verus!

verus! {

// ---- child queries on a resolved device ----

impl Device {
    /// All child devices of this central unit, address ascending, or
    /// nothing when it has none.
    pub fn get_children_devices(&self, dir: &Directory) -> (r: Option<Vec<Device>>)
        ensures
            ({
                let l = child_list(dir.devices@, self.id, ProfileKind::Other, self.protocol, false);
                match r {
                    Some(v) => l.len() > 0 && v@ == l,
                    None => l.len() == 0,
                }
            }),
    {
        let v = query_children(dir, self.id, ProfileKind::Other, &self.protocol, false);
        if v.len() == 0 {
            None
        } else {
            Some(v)
        }
    }

    /// The feeder children, address ascending, with their cached hopper
    /// flags, or nothing when there are none.
    pub fn get_feeders(&self, dir: &Directory) -> (r: Option<Vec<Device>>)
        ensures
            ({
                let l = child_list(dir.devices@, self.id, ProfileKind::Feeder, self.protocol, true);
                match r {
                    Some(v) => l.len() > 0 && v@ == l,
                    None => l.len() == 0,
                }
            }),
    {
        let v = query_children(dir, self.id, ProfileKind::Feeder, &self.protocol, true);
        if v.len() == 0 {
            None
        } else {
            Some(v)
        }
    }

    /// The sensor children, address ascending, or nothing when there are
    /// none.
    pub fn get_sensors(&self, dir: &Directory) -> (r: Option<Vec<Device>>)
        ensures
            ({
                let l = child_list(
                    dir.devices@,
                    self.id,
                    ProfileKind::Sensor,
                    self.protocol,
                    false,
                );
                match r {
                    Some(v) => l.len() > 0 && v@ == l,
                    None => l.len() == 0,
                }
            }),
    {
        let v = query_children(dir, self.id, ProfileKind::Sensor, &self.protocol, false);
        if v.len() == 0 {
            None
        } else {
            Some(v)
        }
    }

    /// Resolve one of this device's variables by exact code.
    pub fn get_variable(&self, code: &str, dir: &Directory) -> (r: Option<Var>)
        ensures
            ({
                let ms = vars_with_code(dir.vars@, self.id, code@);
                if ms.len() > 0 {
                    r == Some(var_of(ms[0]))
                } else {
                    r is None
                }
            }),
    {
        get_variable_from(dir, self.id, code)
    }

    /// Resolve every variable whose code extends `code` with a colon.
    pub fn get_multiple_variables(&self, code: &str, dir: &Directory) -> (r: Vec<Var>)
        ensures
            r@ == multiple_vars_of(dir.vars@, self.id, code@ + seq![':']),
    {
        get_multiple_variables_from(dir, self.id, code)
    }

    /// Whether the device reports itself powered on; a device without the
    /// power variable counts as on.
    pub fn power(&self, dir: &Directory) -> (r: bool)
        ensures
            r == power_on(dir.vars@, self.id),
    {
        let bytes_var = self.get_variable("0C03:15", dir);
        match bytes_var {
            Some(byte_var) => str_eq(byte_var.value.as_str(), "1"),
            None => true,
        }
    }

    /// Whether this central unit has an active hydrophone.
    pub fn has_hydro(&self, dir: &Directory) -> (r: bool)
        ensures
            r == hydro_active(dir.vars@, self.id),
    {
        let active_hydrophone = self.get_variable("0C03:13", dir);
        match active_hydrophone {
            Some(hydro) => str_eq(hydro.value.as_str(), "1"),
            None => false,
        }
    }
}

} // verus!

verus! {

// ---- device field updates ----

/// Everything but the variable table unchanged.
pub open spec fn same_but_vars(post: Directory, pre: Directory) -> bool {
    &&& post.devices == pre.devices
    &&& post.device_status == pre.device_status
    &&& post.status_logs == pre.status_logs
    &&& post.var_logs == pre.var_logs
    &&& post.alarms == pre.alarms
    &&& post.pre_alarms == pre.pre_alarms
    &&& post.alarm_history == pre.alarm_history
    &&& post.hydro_sessions == pre.hydro_sessions
    &&& post.hydro_lines == pre.hydro_lines
}

impl Directory {
    /// One ping acknowledged: the new status, one more responded message,
    /// and the hidden flag cleared.  A device whose counter cannot grow is
    /// left untouched, as a rejected row update would be.
    pub open spec fn ping_step(ds: Seq<DeviceRecord>, id: i32, st: CommunicationStatus) -> Seq<
        DeviceRecord,
    > {
        ds.map_values(
            |r: DeviceRecord|
                if r.id == id && r.responded_message_counter < i64::MAX {
                    DeviceRecord {
                        status: Some(st),
                        responded_message_counter: (r.responded_message_counter + 1) as i64,
                        status_hidden: Some(CommunicationStatus::Okay),
                        ..r
                    }
                } else {
                    r
                },
        )
    }

    /// The parent assignment cleared.
    pub open spec fn with_parent_cleared(ds: Seq<DeviceRecord>, id: i32) -> Seq<DeviceRecord> {
        ds.map_values(
            |r: DeviceRecord|
                if r.id == id {
                    DeviceRecord { parent_id: None, ..r }
                } else {
                    r
                },
        )
    }

    /// The last-signal date and battery level recorded.
    pub open spec fn with_rssi_battery(
        ds: Seq<DeviceRecord>,
        id: i32,
        ts: FrameTime,
        info: String,
    ) -> Seq<DeviceRecord> {
        ds.map_values(
            |r: DeviceRecord|
                if r.id == id {
                    DeviceRecord { last_signal_date: Some(ts), battery_level: Some(info), ..r }
                } else {
                    r
                },
        )
    }
}

impl Device {
    /// Record an acknowledged status transition for this device.
    pub fn update_status(&self, status: CommunicationStatus, dir: &mut Directory)
        ensures
            final(dir).devices@ == Directory::ping_step(old(dir).devices@, self.id, status),
            same_but_devices(*final(dir), *old(dir)),
    {
        let mut i: usize = 0;
        while i < dir.devices.len()
            invariant
                i <= dir.devices@.len(),
                dir.devices@.len() == old(dir).devices@.len(),
                same_but_devices(*dir, *old(dir)),
                forall|j: int|
                    0 <= j < i ==> dir.devices@[j] == (if old(dir).devices@[j].id == self.id && old(
                        dir,
                    ).devices@[j].responded_message_counter < i64::MAX {
                        DeviceRecord {
                            status: Some(status),
                            responded_message_counter: (old(
                                dir,
                            ).devices@[j].responded_message_counter + 1) as i64,
                            status_hidden: Some(CommunicationStatus::Okay),
                            ..(#[trigger] old(dir).devices@[j])
                        }
                    } else {
                        old(dir).devices@[j]
                    }),
                forall|j: int|
                    i <= j < dir.devices@.len() ==> dir.devices@[j] == old(dir).devices@[j],
            decreases dir.devices@.len() - i,
        {
            if dir.devices[i].id == self.id && dir.devices[i].responded_message_counter < i64::MAX {
                let rec = &mut dir.devices[i];
                rec.status = Some(status);
                rec.responded_message_counter = rec.responded_message_counter + 1;
                rec.status_hidden = Some(CommunicationStatus::Okay);
            }
            i = i + 1;
        }
        proof {
            assert(dir.devices@ =~= Directory::ping_step(old(dir).devices@, self.id, status));
        }
    }

    /// Record the interface hardware address reported by the device.
    pub fn update_mac_address(&self, mac: &str, dir: &mut Directory)
        ensures
            final(dir).devices@.len() == old(dir).devices@.len(),
            forall|j: int|
                0 <= j < old(dir).devices@.len() ==> if old(dir).devices@[j].id == self.id {
                    (#[trigger] final(dir).devices@[j]) == DeviceRecord {
                        interface_mac_address: final(dir).devices@[j].interface_mac_address,
                        ..old(dir).devices@[j]
                    } && match final(dir).devices@[j].interface_mac_address {
                        Some(m) => m@ == mac@,
                        None => false,
                    }
                } else {
                    final(dir).devices@[j] == old(dir).devices@[j]
                },
            same_but_devices(*final(dir), *old(dir)),
    {
        let mut i: usize = 0;
        while i < dir.devices.len()
            invariant
                i <= dir.devices@.len(),
                dir.devices@.len() == old(dir).devices@.len(),
                same_but_devices(*dir, *old(dir)),
                forall|j: int|
                    0 <= j < i ==> if old(dir).devices@[j].id == self.id {
                        (#[trigger] dir.devices@[j]) == DeviceRecord {
                            interface_mac_address: dir.devices@[j].interface_mac_address,
                            ..old(dir).devices@[j]
                        } && match dir.devices@[j].interface_mac_address {
                            Some(m) => m@ == mac@,
                            None => false,
                        }
                    } else {
                        dir.devices@[j] == old(dir).devices@[j]
                    },
                forall|j: int|
                    i <= j < dir.devices@.len() ==> dir.devices@[j] == old(dir).devices@[j],
            decreases dir.devices@.len() - i,
        {
            if dir.devices[i].id == self.id {
                let owned = String::new().concat(mac);
                let rec = &mut dir.devices[i];
                rec.interface_mac_address = Some(owned);
            }
            i = i + 1;
        }
    }

    /// Detach this child from its central unit.
    pub fn update_parent_device(&self, dir: &mut Directory)
        ensures
            final(dir).devices@ == Directory::with_parent_cleared(old(dir).devices@, self.id),
            same_but_devices(*final(dir), *old(dir)),
    {
        let mut i: usize = 0;
        while i < dir.devices.len()
            invariant
                i <= dir.devices@.len(),
                dir.devices@.len() == old(dir).devices@.len(),
                same_but_devices(*dir, *old(dir)),
                forall|j: int|
                    0 <= j < i ==> dir.devices@[j] == (if old(dir).devices@[j].id == self.id {
                        DeviceRecord { parent_id: None, ..(#[trigger] old(dir).devices@[j]) }
                    } else {
                        old(dir).devices@[j]
                    }),
                forall|j: int|
                    i <= j < dir.devices@.len() ==> dir.devices@[j] == old(dir).devices@[j],
            decreases dir.devices@.len() - i,
        {
            if dir.devices[i].id == self.id {
                let rec = &mut dir.devices[i];
                rec.parent_id = None;
            }
            i = i + 1;
        }
        proof {
            assert(dir.devices@ =~= Directory::with_parent_cleared(old(dir).devices@, self.id));
        }
    }

    /// Record the frame's signal date and battery reading on the device
    /// row.
    pub fn update_rssi_battery_timestamp(
        &self,
        dir: &mut Directory,
        timestamp: &FrameTime,
        battery_info: String,
    )
        ensures
            final(dir).devices@ == Directory::with_rssi_battery(
                old(dir).devices@,
                self.id,
                *timestamp,
                battery_info,
            ),
            same_but_devices(*final(dir), *old(dir)),
    {
        let mut i: usize = 0;
        while i < dir.devices.len()
            invariant
                i <= dir.devices@.len(),
                dir.devices@.len() == old(dir).devices@.len(),
                same_but_devices(*dir, *old(dir)),
                forall|j: int|
                    0 <= j < i ==> dir.devices@[j] == (if old(dir).devices@[j].id == self.id {
                        DeviceRecord {
                            last_signal_date: Some(*timestamp),
                            battery_level: Some(battery_info),
                            ..(#[trigger] old(dir).devices@[j])
                        }
                    } else {
                        old(dir).devices@[j]
                    }),
                forall|j: int|
                    i <= j < dir.devices@.len() ==> dir.devices@[j] == old(dir).devices@[j],
            decreases dir.devices@.len() - i,
        {
            if dir.devices[i].id == self.id {
                let owned = battery_info.clone();
                let rec = &mut dir.devices[i];
                rec.last_signal_date = Some(*timestamp);
                rec.battery_level = Some(owned);
            }
            i = i + 1;
        }
        proof {
            assert(dir.devices@ =~= Directory::with_rssi_battery(
                old(dir).devices@,
                self.id,
                *timestamp,
                battery_info,
            ));
        }
    }
}

impl Var {
    /// Write a decoded value back to this variable's row, stamping the
    /// write date.
    pub fn update(&self, value: &str, dir: &mut Directory, now: i64)
        ensures
            final(dir).vars@.len() == old(dir).vars@.len(),
            forall|j: int|
                0 <= j < old(dir).vars@.len() ==> if old(dir).vars@[j].id == self.id {
                    (#[trigger] final(dir).vars@[j]) == VarRecord {
                        value: final(dir).vars@[j].value,
                        write_date: Some(now),
                        ..old(dir).vars@[j]
                    } && final(dir).vars@[j].value@ == value@
                } else {
                    final(dir).vars@[j] == old(dir).vars@[j]
                },
            same_but_vars(*final(dir), *old(dir)),
    {
        let mut i: usize = 0;
        while i < dir.vars.len()
            invariant
                i <= dir.vars@.len(),
                dir.vars@.len() == old(dir).vars@.len(),
                same_but_vars(*dir, *old(dir)),
                forall|j: int|
                    0 <= j < i ==> if old(dir).vars@[j].id == self.id {
                        (#[trigger] dir.vars@[j]) == VarRecord {
                            value: dir.vars@[j].value,
                            write_date: Some(now),
                            ..old(dir).vars@[j]
                        } && dir.vars@[j].value@ == value@
                    } else {
                        dir.vars@[j] == old(dir).vars@[j]
                    },
                forall|j: int| i <= j < dir.vars@.len() ==> dir.vars@[j] == old(dir).vars@[j],
            decreases dir.vars@.len() - i,
        {
            if dir.vars[i].id == self.id {
                let owned = String::new().concat(value);
                let rec = &mut dir.vars[i];
                rec.value = owned;
                rec.write_date = Some(now);
            }
            i = i + 1;
        }
    }
}

} // verus!

verus! {

// ---- settings-byte reconciliation ----

/// The ghost view of a variable row, for stating multi-row updates.
pub ghost struct VarView {
    pub device_id: int,
    pub id: int,
    pub size: int,
    pub format: Seq<char>,
    pub name: Seq<char>,
    pub base_var_id: int,
    pub value: Seq<char>,
    pub code: Option<Seq<char>>,
    pub write_date: Option<int>,
}

/// The view of one variable row.
pub open spec fn var_view(v: VarRecord) -> VarView {
    VarView {
        device_id: v.device_id as int,
        id: v.id as int,
        size: v.size as int,
        format: v.format@,
        name: v.name@,
        base_var_id: v.base_var_id as int,
        value: v.value@,
        code: match v.code {
            Some(c) => Some(c@),
            None => None,
        },
        write_date: match v.write_date {
            Some(d) => Some(d as int),
            None => None,
        },
    }
}

/// The views of all variable rows.
pub open spec fn var_views(vs: Seq<VarRecord>) -> Seq<VarView> {
    vs.map_values(|v: VarRecord| var_view(v))
}

/// The bit position named by a settings-variable code suffix: the strict
/// unsigned number after the colon, when there is one.
pub open spec fn seteo_bit(code: Option<String>) -> Option<int> {
    match code {
        Some(c) => {
            let parts = crate::strutil::split_by(c@, ':');
            if parts.len() < 2 {
                None
            } else {
                crate::nums::strict_u32(parts[1], 10)
            }
        },
        None => None,
    }
}

/// Whether a settings variable can be reconciled: its code names a bit
/// position the mask arithmetic can shift by.
pub open spec fn seteo_ok(item: Var) -> bool {
    match seteo_bit(item.code) {
        Some(n) => n <= 62,
        None => false,
    }
}

/// The stored value read back as an integer, parse-or-zero.
pub open spec fn seteo_current(item: Var) -> int {
    crate::nums::parse_or_zero(item.value@, 10, i32::MIN as int, i32::MAX as int)
}

/// The bit of the newly decoded mask that the variable mirrors: one when
/// set, zero when clear.
pub open spec fn seteo_after(item: Var, hexval: i64) -> int {
    let n = seteo_bit(item.code).unwrap();
    if hexval & (1i64 << n) == 0 {
        0
    } else {
        1
    }
}

/// One variable value rewritten, at the view level.
pub open spec fn seteo_apply(vs: Seq<VarView>, item_id: int, newval: Seq<char>, now: i64) -> Seq<
    VarView,
> {
    vs.map_values(
        |v: VarView|
            if v.id == item_id {
                VarView { value: newval, write_date: Some(now as int), ..v }
            } else {
                v
            },
    )
}

/// The reconciliation applied to each settings variable in order: a
/// variable whose stored value disagrees with its mask bit is rewritten
/// to that bit.
pub open spec fn seteo_fold(
    vs: Seq<VarView>,
    items: Seq<Var>,
    hexval: i64,
    now: i64,
) -> Seq<VarView>
    decreases items.len(),
{
    if items.len() == 0 {
        vs
    } else {
        let prev = seteo_fold(vs, items.drop_last(), hexval, now);
        let item = items.last();
        if seteo_current(item) != seteo_after(item, hexval) {
            seteo_apply(
                prev,
                item.id as int,
                crate::nums::dec_str_int(seteo_after(item, hexval)),
                now,
            )
        } else {
            prev
        }
    }
}

impl Device {
    /// Reconcile the settings-byte variables of this device against a
    /// newly decoded settings mask: each bit-position variable whose
    /// stored value disagrees with its bit is rewritten.  A code without
    /// a usable bit position aborts the frame, keeping what was already
    /// reconciled.
    pub fn verify_bytes_seteo(&self, code: &str, value: &str, dir: &mut Directory, now: i64) -> (r:
        Result<(), EngineError>)
        ensures
            code@ != "0C03"@ ==> r is Ok && *final(dir) == *old(dir),
            code@ == "0C03"@ ==> ({
                let items = multiple_vars_of(old(dir).vars@, self.id, code@ + seq![':']);
                let hexval = crate::nums::parse_or_zero(
                    value@.filter(|c: char| c != ' '),
                    16,
                    i64::MIN as int,
                    i64::MAX as int,
                ) as i64;
                &&& same_but_vars(*final(dir), *old(dir))
                &&& match r {
                    Ok(()) => (forall|k: int| 0 <= k < items.len() ==> seteo_ok(#[trigger] items[k]))
                        && var_views(final(dir).vars@) == seteo_fold(
                        var_views(old(dir).vars@),
                        items,
                        hexval,
                        now,
                    ),
                    Err(e) => e == EngineError::BadVarCode && exists|k: int|
                        {
                            &&& 0 <= k < items.len()
                            &&& !seteo_ok(#[trigger] items[k])
                            &&& forall|j: int| 0 <= j < k ==> seteo_ok(#[trigger] items[j])
                            &&& var_views(final(dir).vars@) == seteo_fold(
                                var_views(old(dir).vars@),
                                items.take(k),
                                hexval,
                                now,
                            )
                        },
                }
            }),
    {
        if !str_eq(code, "0C03") {
            return Ok(());
        }
        let variables = self.get_multiple_variables(code, dir);
        let hexval = crate::nums::str_to_int64(value, 16);
        let ghost items = variables@;
        let ghost vs0 = var_views(dir.vars@);
        let mut k: usize = 0;
        proof {
            assert(var_views(dir.vars@) =~= seteo_fold(vs0, items.take(0), hexval, now));
        }
        while k < variables.len()
            invariant
                code@ == "0C03"@,
                k <= variables@.len(),
                variables@ == items,
                items == multiple_vars_of(old(dir).vars@, self.id, code@ + seq![':']),
                hexval as int == crate::nums::parse_or_zero(
                    value@.filter(|c: char| c != ' '),
                    16,
                    i64::MIN as int,
                    i64::MAX as int,
                ),
                vs0 == var_views(old(dir).vars@),
                same_but_vars(*dir, *old(dir)),
                forall|j: int| 0 <= j < k ==> seteo_ok(#[trigger] items[j]),
                var_views(dir.vars@) == seteo_fold(vs0, items.take(k as int), hexval, now),
            decreases variables@.len() - k,
        {
            let var = &variables[k];
            let parts: Vec<&str> = match &var.code {
                Some(c) => crate::strutil::split_str(c.as_str(), ':'),
                None => {
                    proof {
                        assert(!seteo_ok(items[k as int]));
                    }
                    return Err(EngineError::BadVarCode);
                },
            };
            if parts.len() < 2 {
                proof {
                    assert(!seteo_ok(items[k as int]));
                }
                return Err(EngineError::BadVarCode);
            }
            let n: u32 = match crate::nums::parse_u32_strict(parts[1], 10) {
                Some(v) => v,
                None => {
                    proof {
                        assert(!seteo_ok(items[k as int]));
                    }
                    return Err(EngineError::BadVarCode);
                },
            };
            if n > 62 {
                proof {
                    assert(!seteo_ok(items[k as int]));
                }
                return Err(EngineError::BadVarCode);
            }
            proof {
                assert(seteo_bit(items[k as int].code) == Some(n as int));
                assert(seteo_ok(items[k as int]));
            }
            let current: i32 = crate::nums::str_to_int(var.value.as_str(), 10);
            let after: i64 = if hexval & (1i64 << n) == 0 {
                0
            } else {
                1
            };
            proof {
                assert(after as int == seteo_after(items[k as int], hexval));
                assert(current as int == seteo_current(items[k as int]));
                assert(items.take(k as int + 1).drop_last() =~= items.take(k as int));
                assert(items.take(k as int + 1).last() == items[k as int]);
            }
            if (current as i64) != after {
                let newval = crate::nums::i64_to_dec(after);
                var.update(newval.as_str(), dir, now);
                proof {
                    assert(var_views(dir.vars@) =~= seteo_apply(
                        seteo_fold(vs0, items.take(k as int), hexval, now),
                        items[k as int].id as int,
                        crate::nums::dec_str_int(seteo_after(items[k as int], hexval)),
                        now,
                    ));
                }
            }
            k = k + 1;
        }
        proof {
            assert(items.take(variables@.len() as int) =~= items);
        }
        Ok(())
    }
}

} // verus!
