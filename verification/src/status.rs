//! The device-status engine: the ping state machine, the hopper-status
//! transition with its edge-triggered first-change timestamps, the device
//! status log, and the hydrophone analysis sessions.

use vstd::prelude::*;

use crate::alarm::{history_step, create_or_update_device_alarm_history};
use crate::ftime::FrameTime;
use crate::model::{
    same_but_devices, power_on, AlarmKind, CommunicationStatus, Device, DeviceRecord,
    DeviceStatus, DeviceStatusRow, Directory, EngineError, HydroLineRow, HydroSessionRow, LogTime,
    StatusLogRow, VarLogRow,
};
use crate::nums::is_decimal_num_exec;

verus! {

/// The communication status after one acknowledged ping: a silent or lost
/// device turns intermittent, an intermittent one turns healthy, a
/// healthy one stays so.
pub open spec fn ping_next(s: CommunicationStatus) -> CommunicationStatus {
    match s {
        CommunicationStatus::Waiting => CommunicationStatus::Intermitente,
        CommunicationStatus::Lost => CommunicationStatus::Intermitente,
        CommunicationStatus::Intermitente => CommunicationStatus::Okay,
        CommunicationStatus::Okay => CommunicationStatus::Okay,
    }
}

/// The ping state machine follows its transition table exactly, and from
/// any state two pings reach the healthy state, which every further ping
/// keeps.
pub proof fn lemma_ping_table()
    ensures
        ping_next(CommunicationStatus::Waiting) == CommunicationStatus::Intermitente,
        ping_next(CommunicationStatus::Lost) == CommunicationStatus::Intermitente,
        ping_next(CommunicationStatus::Intermitente) == CommunicationStatus::Okay,
        ping_next(CommunicationStatus::Okay) == CommunicationStatus::Okay,
        forall|s: CommunicationStatus|
            ping_next(#[trigger] ping_next(s)) == CommunicationStatus::Okay,
{
    assert forall|s: CommunicationStatus|
        ping_next(#[trigger] ping_next(s)) == CommunicationStatus::Okay by {
        match s {
            CommunicationStatus::Waiting => {},
            CommunicationStatus::Lost => {},
            CommunicationStatus::Intermitente => {},
            CommunicationStatus::Okay => {},
        }
    }
}

/// Whether the cached hopper flag of a snapshot reports an empty hopper.
pub open spec fn snap_empty(ea: Option<bool>) -> bool {
    ea == Some(true)
}

/// One hopper transition applied to a device row: the cached flag and
/// hopper state always move; a full-to-empty edge stamps the first-empty
/// timestamp, an empty-to-full edge the first-full one.
pub open spec fn hopper_rec_step(r: DeviceRecord, ea_dev: bool, ea: bool, now: i64) -> DeviceRecord {
    let stamped = if !ea_dev && ea {
        DeviceRecord { first_change_status_timestamp: Some(now), ..r }
    } else if ea_dev && !ea {
        DeviceRecord { first_change_full_status_timestamp: Some(now), ..r }
    } else {
        r
    };
    DeviceRecord {
        hopper_status: Some(
            if ea {
                DeviceStatus::Empty
            } else {
                DeviceStatus::Full
            },
        ),
        empty_alarm: Some(ea),
        ..stamped
    }
}

/// The hopper transition applied to every row of the device.
pub open spec fn hopper_step(
    ds: Seq<DeviceRecord>,
    id: i32,
    ea_dev: bool,
    ea: bool,
    now: i64,
) -> Seq<DeviceRecord> {
    ds.map_values(
        |r: DeviceRecord|
            if r.id == id {
                hopper_rec_step(r, ea_dev, ea, now)
            } else {
                r
            },
    )
}

/// Hopper edge detection writes each first-change timestamp exactly once
/// per edge: a full hopper staying full writes nothing; going empty
/// stamps the first-empty time once, and staying empty keeps that stamp;
/// filling up afterwards stamps the first-full time once, keeping the
/// first-empty stamp.
pub proof fn lemma_hopper_edges(r: DeviceRecord, t1: i64, t2: i64, t3: i64)
    requires
        !snap_empty(r.empty_alarm),
    ensures
        ({
            let full_again = hopper_rec_step(r, snap_empty(r.empty_alarm), false, t1);
            &&& full_again.first_change_status_timestamp == r.first_change_status_timestamp
            &&& full_again.first_change_full_status_timestamp
                == r.first_change_full_status_timestamp
        }),
        ({
            let e1 = hopper_rec_step(r, snap_empty(r.empty_alarm), true, t1);
            let e2 = hopper_rec_step(e1, snap_empty(e1.empty_alarm), true, t2);
            let f3 = hopper_rec_step(e2, snap_empty(e2.empty_alarm), false, t3);
            &&& e1.first_change_status_timestamp == Some(t1)
            &&& e2.first_change_status_timestamp == Some(t1)
            &&& e2.first_change_full_status_timestamp == r.first_change_full_status_timestamp
            &&& f3.first_change_status_timestamp == Some(t1)
            &&& f3.first_change_full_status_timestamp == Some(t3)
        }),
{
}

impl Device {
    /// Persist a hopper-state log row, edge-detect against the cached
    /// hopper flag of this snapshot, update the device row, and feed the
    /// hopper condition into the alarm history.
    pub fn create_device_status(
        &self,
        timestamp: &FrameTime,
        status: DeviceStatus,
        dir: &mut Directory,
        now: i64,
    )
        ensures
            ({
                let ea = status == DeviceStatus::Empty;
                let ea_dev = snap_empty(self.empty_alarm);
                &&& final(dir).device_status@ == old(dir).device_status@.push(
                    DeviceStatusRow {
                        create_date: now,
                        device_id: self.id,
                        timestamp: *timestamp,
                        status,
                        retained: !power_on(old(dir).vars@, self.id),
                    },
                )
                &&& final(dir).devices@ == hopper_step(
                    old(dir).devices@,
                    self.id,
                    ea_dev,
                    ea,
                    now,
                )
                &&& final(dir).alarm_history@ == history_step(
                    old(dir).alarm_history@,
                    Some(self.id),
                    AlarmKind::EmptyAlarm,
                    ea,
                    now,
                )
                &&& final(dir).vars == old(dir).vars
                &&& final(dir).status_logs == old(dir).status_logs
                &&& final(dir).var_logs == old(dir).var_logs
                &&& final(dir).alarms == old(dir).alarms
                &&& final(dir).pre_alarms == old(dir).pre_alarms
                &&& final(dir).hydro_sessions == old(dir).hydro_sessions
                &&& final(dir).hydro_lines == old(dir).hydro_lines
            }),
    {
        let retained = !self.power(dir);
        dir.device_status.push(
            DeviceStatusRow {
                create_date: now,
                device_id: self.id,
                timestamp: *timestamp,
                status,
                retained,
            },
        );
        let empty_alarm = status == DeviceStatus::Empty;
        let empty_alarm_device = match self.empty_alarm {
            Some(alarm) => alarm,
            None => false,
        };
        let mut i: usize = 0;
        while i < dir.devices.len()
            invariant
                i <= dir.devices@.len(),
                dir.devices@.len() == old(dir).devices@.len(),
                dir.vars == old(dir).vars,
                dir.status_logs == old(dir).status_logs,
                dir.var_logs == old(dir).var_logs,
                dir.alarms == old(dir).alarms,
                dir.pre_alarms == old(dir).pre_alarms,
                dir.alarm_history == old(dir).alarm_history,
                dir.hydro_sessions == old(dir).hydro_sessions,
                dir.hydro_lines == old(dir).hydro_lines,
                dir.device_status@ == old(dir).device_status@.push(
                    DeviceStatusRow {
                        create_date: now,
                        device_id: self.id,
                        timestamp: *timestamp,
                        status,
                        retained: !power_on(old(dir).vars@, self.id),
                    },
                ),
                empty_alarm == (status == DeviceStatus::Empty),
                empty_alarm_device == snap_empty(self.empty_alarm),
                forall|j: int|
                    0 <= j < i ==> dir.devices@[j] == (if old(dir).devices@[j].id == self.id {
                        hopper_rec_step(
                            #[trigger] old(dir).devices@[j],
                            empty_alarm_device,
                            empty_alarm,
                            now,
                        )
                    } else {
                        old(dir).devices@[j]
                    }),
                forall|j: int|
                    i <= j < dir.devices@.len() ==> dir.devices@[j] == old(dir).devices@[j],
            decreases dir.devices@.len() - i,
        {
            if dir.devices[i].id == self.id {
                let rec = &mut dir.devices[i];
                if !empty_alarm_device && empty_alarm {
                    rec.first_change_status_timestamp = Some(now);
                }
                if empty_alarm_device && !empty_alarm {
                    rec.first_change_full_status_timestamp = Some(now);
                }
                rec.hopper_status = Some(
                    if empty_alarm {
                        DeviceStatus::Empty
                    } else {
                        DeviceStatus::Full
                    },
                );
                rec.empty_alarm = Some(empty_alarm);
            }
            i = i + 1;
        }
        proof {
            assert(dir.devices@ =~= hopper_step(
                old(dir).devices@,
                self.id,
                empty_alarm_device,
                empty_alarm,
                now,
            ));
        }
        create_or_update_device_alarm_history(
            Some(self.id),
            AlarmKind::EmptyAlarm,
            empty_alarm,
            dir,
            now,
        );
    }
}

} // verus!

verus! {

// ---- the device status log and the signal alarm ----

/// Whether a stored signal level trips the signal alarm: at or below
/// -90 in the stored (negated) scale.
pub open spec fn signal_alarm_of(signal_store: i64) -> bool {
    signal_store <= -90
}

impl Directory {
    /// The signal alarm flag and last signal level recorded on a device.
    pub open spec fn with_signal(ds: Seq<DeviceRecord>, id: i32, alarm: bool, sig: i64) -> Seq<
        DeviceRecord,
    > {
        ds.map_values(
            |r: DeviceRecord|
                if r.id == id {
                    DeviceRecord { signal_alarm: alarm, last_signal: Some(sig), ..r }
                } else {
                    r
                },
        )
    }
}

impl Device {
    /// Persist a status-log row, negate and store the signal level,
    /// derive the signal alarm, and feed it into the alarm history.
    pub fn insert_status_log(
        &self,
        timestamp: LogTime,
        temperature: Option<i32>,
        signal: i32,
        battery: Option<String>,
        panel: Option<String>,
        dir: &mut Directory,
        now: i64,
    )
        ensures
            ({
                let sig = -(signal as int) as i64;
                let alarm = signal_alarm_of(sig);
                &&& final(dir).status_logs@ == old(dir).status_logs@.push(
                    StatusLogRow {
                        create_date: now,
                        device_id: self.id,
                        timestamp,
                        temp: (match temperature {
                            Some(t) => t as int,
                            None => 0,
                        }) as i64,
                        signal: sig,
                        battery,
                        panel,
                        farm_id: self.farm_id,
                    },
                )
                &&& final(dir).devices@ == Directory::with_signal(
                    old(dir).devices@,
                    self.id,
                    alarm,
                    sig,
                )
                &&& final(dir).alarm_history@ == history_step(
                    old(dir).alarm_history@,
                    Some(self.id),
                    AlarmKind::SignalAlarm,
                    alarm,
                    now,
                )
                &&& final(dir).vars == old(dir).vars
                &&& final(dir).device_status == old(dir).device_status
                &&& final(dir).var_logs == old(dir).var_logs
                &&& final(dir).alarms == old(dir).alarms
                &&& final(dir).pre_alarms == old(dir).pre_alarms
                &&& final(dir).hydro_sessions == old(dir).hydro_sessions
                &&& final(dir).hydro_lines == old(dir).hydro_lines
            }),
    {
        let temp: i64 = match temperature {
            Some(t) => t as i64,
            None => 0,
        };
        let signal_store: i64 = -(signal as i64);
        dir.status_logs.push(
            StatusLogRow {
                create_date: now,
                device_id: self.id,
                timestamp,
                temp,
                signal: signal_store,
                battery,
                panel,
                farm_id: self.farm_id,
            },
        );
        let signal_alarm = signal_store <= -90;
        let mut i: usize = 0;
        while i < dir.devices.len()
            invariant
                i <= dir.devices@.len(),
                dir.devices@.len() == old(dir).devices@.len(),
                forall|j: int|
                    0 <= j < i ==> dir.devices@[j] == (if old(dir).devices@[j].id == self.id {
                        DeviceRecord {
                            signal_alarm: signal_alarm,
                            last_signal: Some(signal_store),
                            ..(#[trigger] old(dir).devices@[j])
                        }
                    } else {
                        old(dir).devices@[j]
                    }),
                forall|j: int|
                    i <= j < dir.devices@.len() ==> dir.devices@[j] == old(dir).devices@[j],
                dir.vars == old(dir).vars,
                dir.device_status == old(dir).device_status,
                dir.status_logs@ == old(dir).status_logs@.push(
                    StatusLogRow {
                        create_date: now,
                        device_id: self.id,
                        timestamp,
                        temp: (match temperature {
                            Some(t) => t as int,
                            None => 0,
                        }) as i64,
                        signal: signal_store,
                        battery,
                        panel,
                        farm_id: self.farm_id,
                    },
                ),
                dir.var_logs == old(dir).var_logs,
                dir.alarms == old(dir).alarms,
                dir.pre_alarms == old(dir).pre_alarms,
                dir.alarm_history == old(dir).alarm_history,
                dir.hydro_sessions == old(dir).hydro_sessions,
                dir.hydro_lines == old(dir).hydro_lines,
                signal_store == -(signal as int),
                signal_alarm == signal_alarm_of(signal_store),
            decreases dir.devices@.len() - i,
        {
            if dir.devices[i].id == self.id {
                let rec = &mut dir.devices[i];
                rec.signal_alarm = signal_alarm;
                rec.last_signal = Some(signal_store);
            }
            i = i + 1;
        }
        proof {
            assert(dir.devices@ =~= Directory::with_signal(
                old(dir).devices@,
                self.id,
                signal_alarm,
                signal_store,
            ));
        }
        create_or_update_device_alarm_history(
            Some(self.id),
            AlarmKind::SignalAlarm,
            signal_alarm,
            dir,
            now,
        );
    }

    /// Persist one decoded-variable log row.
    pub fn insert_into_logs(
        &self,
        base_var_id: i32,
        timestamp: &FrameTime,
        value: String,
        cycle_id: Option<i32>,
        code: String,
        description: Option<String>,
        dir: &mut Directory,
        now: i64,
    )
        ensures
            final(dir).var_logs@ == old(dir).var_logs@.push(
                VarLogRow {
                    create_date: now,
                    timestamp: *timestamp,
                    device_id: self.id,
                    base_var_id,
                    value,
                    cycle_id,
                    code,
                    description,
                },
            ),
            final(dir).devices == old(dir).devices,
            final(dir).vars == old(dir).vars,
            final(dir).device_status == old(dir).device_status,
            final(dir).status_logs == old(dir).status_logs,
            final(dir).alarms == old(dir).alarms,
            final(dir).pre_alarms == old(dir).pre_alarms,
            final(dir).alarm_history == old(dir).alarm_history,
            final(dir).hydro_sessions == old(dir).hydro_sessions,
            final(dir).hydro_lines == old(dir).hydro_lines,
    {
        dir.var_logs.push(
            VarLogRow {
                create_date: now,
                timestamp: *timestamp,
                device_id: self.id,
                base_var_id,
                value,
                cycle_id,
                code,
                description,
            },
        );
    }

    /// After a read response, mirror a panel-voltage variable into the
    /// status log; a value that is not numeric aborts the frame as a
    /// malformed field.
    pub fn create_logs_from_fetch(
        &self,
        var: &crate::codec::Var,
        value: &String,
        dir: &mut Directory,
        now: i64,
    ) -> (r: Result<(), EngineError>)
        ensures
            ({
                let numeric = crate::nums::is_decimal_num(value@);
                let is_panel = match var.code {
                    Some(c) => c@ == "0D86"@,
                    None => false,
                };
                match r {
                    Ok(()) => numeric && (if is_panel {
                        exists|b: String|
                            #![auto]
                            b@ == value@ && fetch_applied(
                                *old(dir),
                                *final(dir),
                                self.id,
                                self.farm_id,
                                b,
                                now,
                            )
                    } else {
                        *final(dir) == *old(dir)
                    }),
                    Err(e) => !numeric && e == EngineError::NotNumeric && *final(dir) == *old(dir),
                }
            }),
    {
        if !is_decimal_num_exec(value.as_str()) {
            return Err(EngineError::NotNumeric);
        }
        let is_panel = match &var.code {
            Some(c) => crate::strutil::str_eq(c.as_str(), "0D86"),
            None => false,
        };
        if is_panel {
            let ghost b: String = *value;
            self.insert_status_log(
                LogTime::Tick(now),
                None,
                0,
                Some(value.clone()),
                None,
                dir,
                now,
            );
            proof {
                assert(b@ == value@ && fetch_applied(
                    *old(dir),
                    *dir,
                    self.id,
                    self.farm_id,
                    b,
                    now,
                ));
            }
        }
        Ok(())
    }
}

/// The state change of mirroring a panel reading `b` into the status log
/// with a zero signal.
pub open spec fn fetch_applied(
    pre: Directory,
    post: Directory,
    id: i32,
    farm: Option<i32>,
    b: String,
    now: i64,
) -> bool {
    &&& post.status_logs@ == pre.status_logs@.push(
        StatusLogRow {
            create_date: now,
            device_id: id,
            timestamp: LogTime::Tick(now),
            temp: 0,
            signal: 0,
            battery: Some(b),
            panel: None,
            farm_id: farm,
        },
    )
    &&& post.devices@ == Directory::with_signal(pre.devices@, id, signal_alarm_of(0), 0)
    &&& post.alarm_history@ == history_step(
        pre.alarm_history@,
        Some(id),
        AlarmKind::SignalAlarm,
        signal_alarm_of(0),
        now,
    )
    &&& post.vars == pre.vars
    &&& post.device_status == pre.device_status
    &&& post.var_logs == pre.var_logs
    &&& post.alarms == pre.alarms
    &&& post.pre_alarms == pre.pre_alarms
    &&& post.hydro_sessions == pre.hydro_sessions
    &&& post.hydro_lines == pre.hydro_lines
}

} // verus!

verus! {

// ---- hydrophone analysis sessions ----

/// A resolved analysis session for a daily window.
pub struct HydrophoneAnalysis {
    pub id: i32,
    pub device_id: i32,
}

/// Index of the first session of the device created inside the window, or
/// -1.
pub open spec fn find_session(hs: Seq<HydroSessionRow>, dev: i32, date: int, now: int) -> int
    decreases hs.len(),
{
    if hs.len() == 0 {
        -1
    } else if hs[0].device_id == dev && date <= hs[0].create_date <= now {
        0
    } else {
        let r = find_session(hs.drop_first(), dev, date, now);
        if r < 0 {
            -1
        } else {
            r + 1
        }
    }
}

proof fn lemma_find_session_is(hs: Seq<HydroSessionRow>, dev: i32, date: int, now: int, k: int)
    requires
        0 <= k < hs.len(),
        hs[k].device_id == dev && date <= hs[k].create_date <= now,
        forall|j: int|
            0 <= j < k ==> !((#[trigger] hs[j]).device_id == dev && date <= hs[j].create_date
                <= now),
    ensures
        find_session(hs, dev, date, now) == k,
    decreases hs.len(),
{
    if k > 0 {
        assert(hs.drop_first()[k - 1] == hs[k]);
        assert(forall|j: int| 0 <= j < k - 1 ==> hs.drop_first()[j] == hs[j + 1]);
        lemma_find_session_is(hs.drop_first(), dev, date, now, k - 1);
    }
}

proof fn lemma_find_session_none(hs: Seq<HydroSessionRow>, dev: i32, date: int, now: int)
    requires
        forall|j: int|
            0 <= j < hs.len() ==> !((#[trigger] hs[j]).device_id == dev && date
                <= hs[j].create_date <= now),
    ensures
        find_session(hs, dev, date, now) < 0,
    decreases hs.len(),
{
    if hs.len() > 0 {
        assert(forall|j: int| 0 <= j < hs.len() - 1 ==> hs.drop_first()[j] == hs[j + 1]);
        lemma_find_session_none(hs.drop_first(), dev, date, now);
    }
}

impl Device {
    /// Resolve the analysis session of this device for the window from
    /// `date` to `now`, creating it lazily on the first frame of the
    /// window.
    pub fn get_or_create_hydro_now(&self, date: i64, now: i64, dir: &mut Directory) -> (r: Result<
        HydrophoneAnalysis,
        EngineError,
    >)
        requires
            date <= now,
        ensures
            ({
                let j = find_session(old(dir).hydro_sessions@, self.id, date as int, now as int);
                if j >= 0 {
                    &&& r == Ok::<HydrophoneAnalysis, EngineError>(
                        HydrophoneAnalysis {
                            id: old(dir).hydro_sessions@[j].id,
                            device_id: self.id,
                        },
                    )
                    &&& *final(dir) == *old(dir)
                } else if old(dir).hydro_sessions@.len() < i32::MAX {
                    let fresh = HydroSessionRow {
                        id: (old(dir).hydro_sessions@.len() + 1) as i32,
                        device_id: self.id,
                        create_date: now,
                        farm_id: self.farm_id,
                        pond_id: self.pond_id,
                    };
                    &&& r == Ok::<HydrophoneAnalysis, EngineError>(
                        HydrophoneAnalysis { id: fresh.id, device_id: self.id },
                    )
                    &&& final(dir).hydro_sessions@ == old(dir).hydro_sessions@.push(fresh)
                    &&& final(dir).devices == old(dir).devices
                    &&& final(dir).vars == old(dir).vars
                    &&& final(dir).device_status == old(dir).device_status
                    &&& final(dir).status_logs == old(dir).status_logs
                    &&& final(dir).var_logs == old(dir).var_logs
                    &&& final(dir).alarms == old(dir).alarms
                    &&& final(dir).pre_alarms == old(dir).pre_alarms
                    &&& final(dir).alarm_history == old(dir).alarm_history
                    &&& final(dir).hydro_lines == old(dir).hydro_lines
                } else {
                    &&& r == Err::<HydrophoneAnalysis, EngineError>(EngineError::IdSpace)
                    &&& *final(dir) == *old(dir)
                }
            }),
    {
        let mut i: usize = 0;
        while i < dir.hydro_sessions.len()
            invariant
                i <= dir.hydro_sessions@.len(),
                *dir == *old(dir),
                date <= now,
                forall|j: int|
                    0 <= j < i ==> !((#[trigger] dir.hydro_sessions@[j]).device_id == self.id
                        && date <= dir.hydro_sessions@[j].create_date <= now),
            decreases dir.hydro_sessions@.len() - i,
        {
            let row = &dir.hydro_sessions[i];
            if row.device_id == self.id && date <= row.create_date && row.create_date <= now {
                proof {
                    lemma_find_session_is(
                        dir.hydro_sessions@,
                        self.id,
                        date as int,
                        now as int,
                        i as int,
                    );
                }
                return Ok(HydrophoneAnalysis { id: row.id, device_id: self.id });
            }
            i = i + 1;
        }
        proof {
            lemma_find_session_none(dir.hydro_sessions@, self.id, date as int, now as int);
        }
        if dir.hydro_sessions.len() >= i32::MAX as usize {
            return Err(EngineError::IdSpace);
        }
        let id: i32 = (dir.hydro_sessions.len() as i32) + 1;
        dir.hydro_sessions.push(
            HydroSessionRow {
                id,
                device_id: self.id,
                create_date: now,
                farm_id: self.farm_id,
                pond_id: self.pond_id,
            },
        );
        Ok(HydrophoneAnalysis { id, device_id: self.id })
    }
}

impl HydrophoneAnalysis {
    /// Append one sound-sample line to this session; sound values that
    /// are not numeric abort the frame as malformed fields.
    pub fn create_lines(
        &self,
        sound_a: &str,
        sound_b: &str,
        now: i64,
        dir: &mut Directory,
    ) -> (r: Result<(), EngineError>)
        ensures
            ({
                let numeric = crate::nums::is_decimal_num(sound_a@) && crate::nums::is_decimal_num(
                    sound_b@,
                );
                match r {
                    Ok(()) => numeric && lines_applied(
                        *old(dir),
                        *final(dir),
                        self.id,
                        sound_a@,
                        sound_b@,
                        now,
                    ),
                    Err(e) => !numeric && e == EngineError::NotNumeric && *final(dir) == *old(dir),
                }
            }),
    {
        if !is_decimal_num_exec(sound_a) {
            return Err(EngineError::NotNumeric);
        }
        if !is_decimal_num_exec(sound_b) {
            return Err(EngineError::NotNumeric);
        }
        let a = String::new().concat(sound_a);
        let b = String::new().concat(sound_b);
        let full = String::new().concat("full");
        dir.hydro_lines.push(
            HydroLineRow {
                analysis_id: self.id,
                sound_a: a,
                sound_b: b,
                create_date: now,
                hopper_status: full,
            },
        );
        proof {
            assert(dir.hydro_lines@.take(old(dir).hydro_lines@.len() as int) =~= old(
                dir,
            ).hydro_lines@);
        }
        Ok(())
    }
}

/// The state change of appending one sound-sample line.
pub open spec fn lines_applied(
    pre: Directory,
    post: Directory,
    analysis_id: i32,
    a: Seq<char>,
    b: Seq<char>,
    now: i64,
) -> bool {
    &&& post.hydro_lines@.len() == pre.hydro_lines@.len() + 1
    &&& post.hydro_lines@.take(pre.hydro_lines@.len() as int) == pre.hydro_lines@
    &&& post.hydro_lines@.last().analysis_id == analysis_id
    &&& post.hydro_lines@.last().sound_a@ == a
    &&& post.hydro_lines@.last().sound_b@ == b
    &&& post.hydro_lines@.last().create_date == now
    &&& post.hydro_lines@.last().hopper_status@ == "full"@
    &&& post.devices == pre.devices
    &&& post.vars == pre.vars
    &&& post.device_status == pre.device_status
    &&& post.status_logs == pre.status_logs
    &&& post.var_logs == pre.var_logs
    &&& post.alarms == pre.alarms
    &&& post.pre_alarms == pre.pre_alarms
    &&& post.alarm_history == pre.alarm_history
    &&& post.hydro_sessions == pre.hydro_sessions
}

} // verus!
