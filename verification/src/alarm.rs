//! The alarm engines: the episodic per-condition alarm history, the
//! bit-position alarm table, the pre-alarm queue, and the periodic sweep
//! that retires stale alarms and refreshes the battery and motor flags.

use vstd::prelude::*;

use crate::model::{
    same_but_devices, AlarmKind, AlarmRow, Device, DeviceAlarmHistory, DeviceRecord, Directory,
    PreAlarmRow,
};

verus! {

// ---- the alarm-history engine ----

/// Whether a history row is the open episode of this device and
/// condition.  A missing device id never matches, the way an equality
/// against a missing value selects nothing.
pub open spec fn open_match(h: DeviceAlarmHistory, dev: Option<i32>, kind: AlarmKind) -> bool {
    h.kind == kind && h.still_alarmed && dev is Some && h.device_id == dev
}

/// Index of the first open episode for the device and condition, or -1.
pub open spec fn open_history_index(
    hs: Seq<DeviceAlarmHistory>,
    dev: Option<i32>,
    kind: AlarmKind,
) -> int
    decreases hs.len(),
{
    if hs.len() == 0 {
        -1
    } else if open_match(hs[0], dev, kind) {
        0
    } else {
        let r = open_history_index(hs.drop_first(), dev, kind);
        if r < 0 {
            -1
        } else {
            r + 1
        }
    }
}

pub proof fn lemma_open_index_is(
    hs: Seq<DeviceAlarmHistory>,
    dev: Option<i32>,
    kind: AlarmKind,
    k: int,
)
    requires
        0 <= k < hs.len(),
        open_match(hs[k], dev, kind),
        forall|j: int| 0 <= j < k ==> !open_match(#[trigger] hs[j], dev, kind),
    ensures
        open_history_index(hs, dev, kind) == k,
    decreases hs.len(),
{
    if k > 0 {
        assert(hs.drop_first()[k - 1] == hs[k]);
        assert(forall|j: int| 0 <= j < k - 1 ==> hs.drop_first()[j] == hs[j + 1]);
        lemma_open_index_is(hs.drop_first(), dev, kind, k - 1);
    }
}

pub proof fn lemma_open_index_none(hs: Seq<DeviceAlarmHistory>, dev: Option<i32>, kind: AlarmKind)
    requires
        forall|j: int| 0 <= j < hs.len() ==> !open_match(#[trigger] hs[j], dev, kind),
    ensures
        open_history_index(hs, dev, kind) < 0,
    decreases hs.len(),
{
    if hs.len() > 0 {
        assert(forall|j: int| 0 <= j < hs.len() - 1 ==> hs.drop_first()[j] == hs[j + 1]);
        lemma_open_index_none(hs.drop_first(), dev, kind);
    }
}

/// An open episode hit again: one more count and a fresh last-alarmed
/// date.  A counter that cannot grow leaves the row untouched, as a
/// rejected row update would.
pub open spec fn history_rec_alarmed(h: DeviceAlarmHistory, now: i64) -> DeviceAlarmHistory {
    if h.alarm_counter < i64::MAX {
        DeviceAlarmHistory {
            alarm_counter: (h.alarm_counter + 1) as i64,
            last_alarmed_date: now,
            ..h
        }
    } else {
        h
    }
}

/// A fresh open episode: count one, both dates now.
pub open spec fn history_rec_new(dev: Option<i32>, kind: AlarmKind, now: i64) -> DeviceAlarmHistory {
    DeviceAlarmHistory {
        device_id: dev,
        kind,
        still_alarmed: true,
        alarm_counter: 1,
        last_alarmed_date: now,
        non_alarmed_date: None,
        create_date: now,
    }
}

/// One condition observation fed to the history engine: an open episode
/// is counted up or closed; with none, a true condition opens one and a
/// false one changes nothing.
pub open spec fn history_step(
    hs: Seq<DeviceAlarmHistory>,
    dev: Option<i32>,
    kind: AlarmKind,
    alarmed: bool,
    now: i64,
) -> Seq<DeviceAlarmHistory> {
    let j = open_history_index(hs, dev, kind);
    if j >= 0 {
        if alarmed {
            hs.update(j, history_rec_alarmed(hs[j], now))
        } else {
            hs.update(
                j,
                DeviceAlarmHistory { still_alarmed: false, non_alarmed_date: Some(now), ..hs[j] },
            )
        }
    } else {
        if alarmed {
            hs.push(history_rec_new(dev, kind, now))
        } else {
            hs
        }
    }
}

/// Feed one boolean condition observation into the alarm history.
pub fn create_or_update_device_alarm_history(
    device_id: Option<i32>,
    alarm_type: AlarmKind,
    alarmed: bool,
    dir: &mut Directory,
    now: i64,
)
    ensures
        final(dir).alarm_history@ == history_step(
            old(dir).alarm_history@,
            device_id,
            alarm_type,
            alarmed,
            now,
        ),
        final(dir).devices == old(dir).devices,
        final(dir).vars == old(dir).vars,
        final(dir).device_status == old(dir).device_status,
        final(dir).status_logs == old(dir).status_logs,
        final(dir).var_logs == old(dir).var_logs,
        final(dir).alarms == old(dir).alarms,
        final(dir).pre_alarms == old(dir).pre_alarms,
        final(dir).hydro_sessions == old(dir).hydro_sessions,
        final(dir).hydro_lines == old(dir).hydro_lines,
{
    let mut i: usize = 0;
    while i < dir.alarm_history.len()
        invariant
            i <= dir.alarm_history@.len(),
            *dir == *old(dir),
            forall|j: int|
                0 <= j < i ==> !open_match(#[trigger] dir.alarm_history@[j], device_id, alarm_type),
        decreases dir.alarm_history@.len() - i,
    {
        let h = &dir.alarm_history[i];
        let id_match = match (h.device_id, device_id) {
            (Some(a), Some(b)) => a == b,
            _ => false,
        };
        if h.kind == alarm_type && h.still_alarmed && id_match {
            proof {
                lemma_open_index_is(dir.alarm_history@, device_id, alarm_type, i as int);
            }
            if alarmed {
                if dir.alarm_history[i].alarm_counter < i64::MAX {
                    let row = &mut dir.alarm_history[i];
                    row.alarm_counter = row.alarm_counter + 1;
                    row.last_alarmed_date = now;
                }
            } else {
                let row = &mut dir.alarm_history[i];
                row.still_alarmed = false;
                row.non_alarmed_date = Some(now);
            }
            proof {
                if alarmed && old(dir).alarm_history@[i as int].alarm_counter == i64::MAX {
                    assert(dir.alarm_history@ =~= old(dir).alarm_history@.update(
                        i as int,
                        history_rec_alarmed(old(dir).alarm_history@[i as int], now),
                    ));
                }
            }
            return ;
        }
        i = i + 1;
    }
    proof {
        lemma_open_index_none(dir.alarm_history@, device_id, alarm_type);
    }
    if alarmed {
        dir.alarm_history.push(
            DeviceAlarmHistory {
                device_id,
                kind: alarm_type,
                still_alarmed: true,
                alarm_counter: 1,
                last_alarmed_date: now,
                non_alarmed_date: None,
                create_date: now,
            },
        );
    }
}

/// The open episodes of a device and condition, in stored order.
pub open spec fn open_rows(hs: Seq<DeviceAlarmHistory>, dev: Option<i32>, kind: AlarmKind) -> Seq<
    DeviceAlarmHistory,
> {
    hs.filter(|h: DeviceAlarmHistory| open_match(h, dev, kind))
}

/// With no open episode, none of the rows matches.
pub proof fn lemma_open_rows_empty(hs: Seq<DeviceAlarmHistory>, dev: Option<i32>, kind: AlarmKind)
    requires
        open_rows(hs, dev, kind).len() == 0,
    ensures
        forall|j: int| 0 <= j < hs.len() ==> !open_match(#[trigger] hs[j], dev, kind),
{
    assert forall|j: int| 0 <= j < hs.len() implies !open_match(hs[j], dev, kind) by {
        if open_match(hs[j], dev, kind) {
            hs.lemma_filter_contains(|h: DeviceAlarmHistory| open_match(h, dev, kind), j);
        }
    }
}

/// The alarm-history engine is episodic.  From a state with no open
/// episode for a device and condition: two true observations produce one
/// open row counted twice, not two rows; a false observation then closes
/// that row, freezing its counter; and a later true observation opens a
/// fresh row counted once.
pub proof fn lemma_alarm_history_episode(
    hs: Seq<DeviceAlarmHistory>,
    dev: i32,
    kind: AlarmKind,
    t1: i64,
    t2: i64,
    t3: i64,
    t4: i64,
)
    requires
        open_rows(hs, Some(dev), kind).len() == 0,
    ensures
        ({
            let h1 = history_step(hs, Some(dev), kind, true, t1);
            let h2 = history_step(h1, Some(dev), kind, true, t2);
            let h3 = history_step(h2, Some(dev), kind, false, t3);
            let h4 = history_step(h3, Some(dev), kind, true, t4);
            &&& h1 == hs.push(history_rec_new(Some(dev), kind, t1))
            &&& h2.len() == hs.len() + 1
            &&& open_rows(h2, Some(dev), kind) == seq![h2[hs.len() as int]]
            &&& h2[hs.len() as int].alarm_counter == 2
            &&& h2[hs.len() as int].still_alarmed
            &&& h3.len() == hs.len() + 1
            &&& open_rows(h3, Some(dev), kind).len() == 0
            &&& !h3[hs.len() as int].still_alarmed
            &&& h3[hs.len() as int].alarm_counter == 2
            &&& h3[hs.len() as int].non_alarmed_date == Some(t3)
            &&& h4 == h3.push(history_rec_new(Some(dev), kind, t4))
            &&& h4[hs.len() as int + 1].alarm_counter == 1
        }),
{
    let pred = |h: DeviceAlarmHistory| open_match(h, Some(dev), kind);
    lemma_open_rows_empty(hs, Some(dev), kind);
    lemma_open_index_none(hs, Some(dev), kind);
    let n = hs.len() as int;
    let h1 = history_step(hs, Some(dev), kind, true, t1);
    let row1 = history_rec_new(Some(dev), kind, t1);
    assert(h1 == hs.push(row1));

    assert(forall|j: int| 0 <= j < n ==> h1[j] == hs[j]);
    assert(h1[n] == row1 && open_match(row1, Some(dev), kind));
    lemma_open_index_is(h1, Some(dev), kind, n);
    let h2 = history_step(h1, Some(dev), kind, true, t2);
    let row2 = history_rec_alarmed(row1, t2);
    assert(row2.alarm_counter == 2 && row2.still_alarmed);
    assert(h2 == h1.update(n, row2));
    assert(h2 =~= hs.push(row2));

    assert(forall|j: int| 0 <= j < n ==> h2[j] == hs[j]);
    lemma_open_index_is(h2, Some(dev), kind, n);
    let h3 = history_step(h2, Some(dev), kind, false, t3);
    let row3 = DeviceAlarmHistory { still_alarmed: false, non_alarmed_date: Some(t3), ..row2 };
    assert(h3 == h2.update(n, row3));
    assert(h3 =~= hs.push(row3));

    assert(forall|j: int| 0 <= j < n ==> h3[j] == hs[j]);
    assert(forall|j: int| 0 <= j < h3.len() ==> !open_match(#[trigger] h3[j], Some(dev), kind));
    lemma_open_index_none(h3, Some(dev), kind);
    let h4 = history_step(h3, Some(dev), kind, true, t4);
    assert(h4 == h3.push(history_rec_new(Some(dev), kind, t4)));

    // The filtered views of the middle states.
    assert(hs.filter(pred) =~= Seq::<DeviceAlarmHistory>::empty());
    assert(h2 =~= hs + seq![row2]);
    Seq::<DeviceAlarmHistory>::filter_distributes_over_add(hs, seq![row2], pred);
    assert(seq![row2].drop_last() =~= Seq::<DeviceAlarmHistory>::empty());
    reveal_with_fuel(Seq::filter, 2);
    assert(seq![row2].filter(pred) =~= seq![row2]);
    assert(open_rows(h2, Some(dev), kind) =~= seq![h2[n]]);
    assert(h3 =~= hs + seq![row3]);
    Seq::<DeviceAlarmHistory>::filter_distributes_over_add(hs, seq![row3], pred);
    assert(seq![row3].filter(pred) =~= Seq::<DeviceAlarmHistory>::empty());
    assert(open_rows(h3, Some(dev), kind).len() == 0);
}

} // verus!

verus! {

// ---- the bit-position alarm table ----

/// Whether bit `bit` of the reported mask is set, the way the handlers
/// test it: the masked value must be positive.
pub open spec fn mask_bit(data: i32, bit: u32) -> bool
    recommends
        bit < 31,
{
    (data & (1i32 << bit)) > 0
}

/// Every active alarm row of the device at this bit position marked
/// inactive.
pub open spec fn deactivate_bit(rows: Seq<AlarmRow>, id: i32, bit: i32) -> Seq<AlarmRow> {
    rows.map_values(
        |r: AlarmRow|
            if r.device_id == id && r.active && r.bit_position == bit {
                AlarmRow { active: false, ..r }
            } else {
                r
            },
    )
}

/// One table entry applied: a set bit inserts a fresh active row — even
/// beside an already active one, most recent wins — and a clear bit
/// retires every active row at the position.
pub open spec fn alarm_one_step(
    rows: Seq<AlarmRow>,
    id: i32,
    pond: Option<String>,
    farm: Option<i32>,
    data: i32,
    now: i64,
    bit: i32,
    name: String,
) -> Seq<AlarmRow> {
    if mask_bit(data, bit as u32) {
        rows.push(
            AlarmRow {
                create_date: now,
                device_id: id,
                pond,
                bit_position: bit,
                incident_number: 1,
                name,
                farm_id: farm,
                timestamp: now,
                active: true,
            },
        )
    } else {
        deactivate_bit(rows, id, bit)
    }
}

/// The fixed incident table applied in order: motor output disconnected
/// (bit 1), motor output over maximum draw (bit 4), low battery (bit 20).
pub open spec fn alarm_table_step(
    rows: Seq<AlarmRow>,
    id: i32,
    pond: Option<String>,
    farm: Option<i32>,
    data: i32,
    now: i64,
    n1: String,
    n2: String,
    n3: String,
) -> Seq<AlarmRow> {
    alarm_one_step(
        alarm_one_step(
            alarm_one_step(rows, id, pond, farm, data, now, 1, n1),
            id,
            pond,
            farm,
            data,
            now,
            4,
            n2,
        ),
        id,
        pond,
        farm,
        data,
        now,
        20,
        n3,
    )
}

/// Apply one incident-table entry to the alarm table.
fn alarm_one(
    dir: &mut Directory,
    id: i32,
    pond: &Option<String>,
    farm: Option<i32>,
    data: i32,
    now: i64,
    bit: i32,
    name: String,
)
    requires
        0 <= bit < 31,
    ensures
        final(dir).alarms@ == alarm_one_step(
            old(dir).alarms@,
            id,
            *pond,
            farm,
            data,
            now,
            bit,
            name,
        ),
        final(dir).devices == old(dir).devices,
        final(dir).vars == old(dir).vars,
        final(dir).device_status == old(dir).device_status,
        final(dir).status_logs == old(dir).status_logs,
        final(dir).var_logs == old(dir).var_logs,
        final(dir).pre_alarms == old(dir).pre_alarms,
        final(dir).alarm_history == old(dir).alarm_history,
        final(dir).hydro_sessions == old(dir).hydro_sessions,
        final(dir).hydro_lines == old(dir).hydro_lines,
{
    if data & (1i32 << (bit as u32)) > 0 {
        dir.alarms.push(
            AlarmRow {
                create_date: now,
                device_id: id,
                pond: crate::model::clone_opt_string(pond),
                bit_position: bit,
                incident_number: 1,
                name,
                farm_id: farm,
                timestamp: now,
                active: true,
            },
        );
    } else {
        let mut i: usize = 0;
        while i < dir.alarms.len()
            invariant
                i <= dir.alarms@.len(),
                dir.alarms@.len() == old(dir).alarms@.len(),
                dir.devices == old(dir).devices,
                dir.vars == old(dir).vars,
                dir.device_status == old(dir).device_status,
                dir.status_logs == old(dir).status_logs,
                dir.var_logs == old(dir).var_logs,
                dir.pre_alarms == old(dir).pre_alarms,
                dir.alarm_history == old(dir).alarm_history,
                dir.hydro_sessions == old(dir).hydro_sessions,
                dir.hydro_lines == old(dir).hydro_lines,
                forall|j: int|
                    0 <= j < i ==> dir.alarms@[j] == (if old(dir).alarms@[j].device_id == id && old(
                        dir,
                    ).alarms@[j].active && old(dir).alarms@[j].bit_position == bit {
                        AlarmRow { active: false, ..(#[trigger] old(dir).alarms@[j]) }
                    } else {
                        old(dir).alarms@[j]
                    }),
                forall|j: int| i <= j < dir.alarms@.len() ==> dir.alarms@[j] == old(dir).alarms@[j],
            decreases dir.alarms@.len() - i,
        {
            if dir.alarms[i].device_id == id && dir.alarms[i].active && dir.alarms[i].bit_position
                == bit {
                let row = &mut dir.alarms[i];
                row.active = false;
            }
            i = i + 1;
        }
        proof {
            assert(dir.alarms@ =~= deactivate_bit(old(dir).alarms@, id, bit));
        }
    }
}

/// The incident name of a table bit.
pub open spec fn alarm_bit_name(bit: int) -> Seq<char> {
    if bit == 1 {
        "Salida 1 desconectado (motor 1)"@
    } else if bit == 4 {
        "Salida 1 excedio maximo consumo"@
    } else {
        "Bateria baja"@
    }
}

impl Device {
    /// Decode a raw alarm bitmask against the fixed incident table: each
    /// set bit inserts an active alarm row, each clear bit retires the
    /// position's active rows.
    pub fn insert_alarm(&self, data: i32, dir: &mut Directory, now: i64)
        ensures
            exists|n1: String, n2: String, n3: String|
                {
                    &&& n1@ == alarm_bit_name(1)
                    &&& n2@ == alarm_bit_name(4)
                    &&& n3@ == alarm_bit_name(20)
                    &&& final(dir).alarms@ == alarm_table_step(
                        old(dir).alarms@,
                        self.id,
                        self.pond_name,
                        self.farm_id,
                        data,
                        now,
                        n1,
                        n2,
                        n3,
                    )
                },
            final(dir).devices == old(dir).devices,
            final(dir).vars == old(dir).vars,
            final(dir).device_status == old(dir).device_status,
            final(dir).status_logs == old(dir).status_logs,
            final(dir).var_logs == old(dir).var_logs,
            final(dir).pre_alarms == old(dir).pre_alarms,
            final(dir).alarm_history == old(dir).alarm_history,
            final(dir).hydro_sessions == old(dir).hydro_sessions,
            final(dir).hydro_lines == old(dir).hydro_lines,
    {
        let n1 = String::new().concat("Salida 1 desconectado (motor 1)");
        let n2 = String::new().concat("Salida 1 excedio maximo consumo");
        let n3 = String::new().concat("Bateria baja");
        let ghost w1 = n1;
        let ghost w2 = n2;
        let ghost w3 = n3;
        alarm_one(dir, self.id, &self.pond_name, self.farm_id, data, now, 1, n1);
        alarm_one(dir, self.id, &self.pond_name, self.farm_id, data, now, 4, n2);
        alarm_one(dir, self.id, &self.pond_name, self.farm_id, data, now, 20, n3);
        proof {
            assert(w1@ == alarm_bit_name(1) && w2@ == alarm_bit_name(4) && w3@ == alarm_bit_name(
                20,
            ) && dir.alarms@ == alarm_table_step(
                old(dir).alarms@,
                self.id,
                self.pond_name,
                self.farm_id,
                data,
                now,
                w1,
                w2,
                w3,
            ));
        }
    }
}

/// The fixed table behaves bit by bit: a zero mask retires every
/// configured position of the device and inserts nothing, and a mask
/// holding only the battery bit inserts exactly the low-battery incident
/// while retiring the two motor positions.
pub proof fn lemma_alarm_bit_table(
    rows: Seq<AlarmRow>,
    id: i32,
    pond: Option<String>,
    farm: Option<i32>,
    now: i64,
    n1: String,
    n2: String,
    n3: String,
)
    ensures
        ({
            let r0 = alarm_table_step(rows, id, pond, farm, 0, now, n1, n2, n3);
            &&& r0.len() == rows.len()
            &&& forall|i: int|
                0 <= i < rows.len() ==> ((#[trigger] rows[i]).device_id == id && (
                rows[i].bit_position == 1 || rows[i].bit_position == 4 || rows[i].bit_position
                    == 20) ==> !r0[i].active)
            &&& forall|i: int|
                0 <= i < rows.len() ==> (!((#[trigger] rows[i]).device_id == id && (
                rows[i].bit_position == 1 || rows[i].bit_position == 4 || rows[i].bit_position
                    == 20)) ==> r0[i] == rows[i])
        }),
        ({
            let r1 = alarm_table_step(rows, id, pond, farm, 1i32 << 20u32, now, n1, n2, n3);
            &&& r1.len() == rows.len() + 1
            &&& r1.last() == AlarmRow {
                create_date: now,
                device_id: id,
                pond,
                bit_position: 20,
                incident_number: 1,
                name: n3,
                farm_id: farm,
                timestamp: now,
                active: true,
            }
            &&& forall|i: int|
                0 <= i < rows.len() ==> ((#[trigger] rows[i]).device_id == id && (
                rows[i].bit_position == 1 || rows[i].bit_position == 4) ==> !r1[i].active)
            &&& forall|i: int|
                0 <= i < rows.len() ==> (!((#[trigger] rows[i]).device_id == id && (
                rows[i].bit_position == 1 || rows[i].bit_position == 4)) ==> r1[i] == rows[i])
        }),
{
    assert(!mask_bit(0, 1) && !mask_bit(0, 4) && !mask_bit(0, 20)) by (bit_vector);
    assert(!mask_bit(1i32 << 20u32, 1) && !mask_bit(1i32 << 20u32, 4) && mask_bit(
        1i32 << 20u32,
        20,
    )) by (bit_vector);
}

} // verus!

verus! {

// ---- pre-alarms and the periodic sweep ----

/// Whether the device already has a queued pre-alarm.
pub open spec fn has_pre_alarm(rows: Seq<PreAlarmRow>, id: i32) -> bool {
    exists|i: int| 0 <= i < rows.len() && (#[trigger] rows[i]).device_id == id
}

/// The pre-alarm queue without the rows of one device.
pub open spec fn without_pre_alarms(rows: Seq<PreAlarmRow>, id: i32) -> Seq<PreAlarmRow> {
    rows.filter(|r: PreAlarmRow| r.device_id != id)
}

impl Device {
    /// Queue a pre-alarm for this device unless one is already waiting.
    pub fn insert_pre_alarm(&self, dir: &mut Directory, now: i64)
        ensures
            final(dir).pre_alarms@ == if has_pre_alarm(old(dir).pre_alarms@, self.id) {
                old(dir).pre_alarms@
            } else {
                old(dir).pre_alarms@.push(PreAlarmRow { create_date: now, device_id: self.id })
            },
            final(dir).devices == old(dir).devices,
            final(dir).vars == old(dir).vars,
            final(dir).device_status == old(dir).device_status,
            final(dir).status_logs == old(dir).status_logs,
            final(dir).var_logs == old(dir).var_logs,
            final(dir).alarms == old(dir).alarms,
            final(dir).alarm_history == old(dir).alarm_history,
            final(dir).hydro_sessions == old(dir).hydro_sessions,
            final(dir).hydro_lines == old(dir).hydro_lines,
    {
        let mut i: usize = 0;
        while i < dir.pre_alarms.len()
            invariant
                i <= dir.pre_alarms@.len(),
                *dir == *old(dir),
                forall|j: int| 0 <= j < i ==> (#[trigger] dir.pre_alarms@[j]).device_id != self.id,
            decreases dir.pre_alarms@.len() - i,
        {
            if dir.pre_alarms[i].device_id == self.id {
                return ;
            }
            i = i + 1;
        }
        dir.pre_alarms.push(PreAlarmRow { create_date: now, device_id: self.id });
    }
}

/// Every listed device's stale active alarms retired: older than the
/// cutoff and still active.
pub open spec fn deactivate_stale(rows: Seq<AlarmRow>, ids: Seq<i32>, cutoff: int) -> Seq<
    AlarmRow,
> {
    rows.map_values(
        |r: AlarmRow|
            if ids.contains(r.device_id) && r.timestamp <= cutoff && r.active {
                AlarmRow { active: false, ..r }
            } else {
                r
            },
    )
}

/// Whether the device has an active alarm at this bit position.
pub open spec fn has_active_bit(rows: Seq<AlarmRow>, id: i32, bit: i32) -> bool {
    exists|i: int|
        0 <= i < rows.len() && (#[trigger] rows[i]).device_id == id && rows[i].active
            && rows[i].bit_position == bit
}

impl Directory {
    /// The battery alarm flag written on a device.
    pub open spec fn with_battery_flag(ds: Seq<DeviceRecord>, id: i32, v: bool) -> Seq<
        DeviceRecord,
    > {
        ds.map_values(
            |r: DeviceRecord|
                if r.id == id {
                    DeviceRecord { battery_alarm: v, ..r }
                } else {
                    r
                },
        )
    }

    /// The motor alarm flag written on a device.
    pub open spec fn with_motor_flag(ds: Seq<DeviceRecord>, id: i32, v: bool) -> Seq<
        DeviceRecord,
    > {
        ds.map_values(
            |r: DeviceRecord|
                if r.id == id {
                    DeviceRecord { motor_alarm: v, ..r }
                } else {
                    r
                },
        )
    }
}

/// The re-check of one device after the sweep: its battery and motor
/// flags follow whether an active alarm remains at bits 20 and 1, and
/// each is fed into the alarm history.
pub open spec fn clean_step(
    ds: Seq<DeviceRecord>,
    hs: Seq<DeviceAlarmHistory>,
    alarms: Seq<AlarmRow>,
    id: i32,
    now: i64,
) -> (Seq<DeviceRecord>, Seq<DeviceAlarmHistory>) {
    let bat = has_active_bit(alarms, id, 20);
    let mot = has_active_bit(alarms, id, 1);
    let ds1 = Directory::with_battery_flag(ds, id, bat);
    let hs1 = history_step(hs, Some(id), AlarmKind::BatteryAlarm, bat, now);
    let ds2 = Directory::with_motor_flag(ds1, id, mot);
    let hs2 = history_step(hs1, Some(id), AlarmKind::MotorAlarm, mot, now);
    (ds2, hs2)
}

/// The re-check applied to each listed device in order.
pub open spec fn clean_fold(
    ds: Seq<DeviceRecord>,
    hs: Seq<DeviceAlarmHistory>,
    alarms: Seq<AlarmRow>,
    ids: Seq<i32>,
    now: i64,
) -> (Seq<DeviceRecord>, Seq<DeviceAlarmHistory>)
    decreases ids.len(),
{
    if ids.len() == 0 {
        (ds, hs)
    } else {
        let prev = clean_fold(ds, hs, alarms, ids.drop_last(), now);
        clean_step(prev.0, prev.1, alarms, ids.last(), now)
    }
}

/// Whether the device has an active alarm at this bit position.
fn has_active_bit_exec(alarms: &Vec<AlarmRow>, id: i32, bit: i32) -> (r: bool)
    ensures
        r == has_active_bit(alarms@, id, bit),
{
    let mut i: usize = 0;
    while i < alarms.len()
        invariant
            i <= alarms@.len(),
            forall|j: int|
                0 <= j < i ==> !((#[trigger] alarms@[j]).device_id == id && alarms@[j].active
                    && alarms@[j].bit_position == bit),
        decreases alarms@.len() - i,
    {
        if alarms[i].device_id == id && alarms[i].active && alarms[i].bit_position == bit {
            return true;
        }
        i = i + 1;
    }
    false
}

/// Write the battery alarm flag on a device.
fn set_battery_flag(dir: &mut Directory, id: i32, v: bool)
    ensures
        final(dir).devices@ == Directory::with_battery_flag(old(dir).devices@, id, v),
        same_but_devices(*final(dir), *old(dir)),
{
    let mut i: usize = 0;
    while i < dir.devices.len()
        invariant
            i <= dir.devices@.len(),
            dir.devices@.len() == old(dir).devices@.len(),
            same_but_devices(*dir, *old(dir)),
            forall|j: int|
                0 <= j < i ==> dir.devices@[j] == (if old(dir).devices@[j].id == id {
                    DeviceRecord { battery_alarm: v, ..(#[trigger] old(dir).devices@[j]) }
                } else {
                    old(dir).devices@[j]
                }),
            forall|j: int| i <= j < dir.devices@.len() ==> dir.devices@[j] == old(dir).devices@[j],
        decreases dir.devices@.len() - i,
    {
        if dir.devices[i].id == id {
            let rec = &mut dir.devices[i];
            rec.battery_alarm = v;
        }
        i = i + 1;
    }
    proof {
        assert(dir.devices@ =~= Directory::with_battery_flag(old(dir).devices@, id, v));
    }
}

/// Write the motor alarm flag on a device.
fn set_motor_flag(dir: &mut Directory, id: i32, v: bool)
    ensures
        final(dir).devices@ == Directory::with_motor_flag(old(dir).devices@, id, v),
        same_but_devices(*final(dir), *old(dir)),
{
    let mut i: usize = 0;
    while i < dir.devices.len()
        invariant
            i <= dir.devices@.len(),
            dir.devices@.len() == old(dir).devices@.len(),
            same_but_devices(*dir, *old(dir)),
            forall|j: int|
                0 <= j < i ==> dir.devices@[j] == (if old(dir).devices@[j].id == id {
                    DeviceRecord { motor_alarm: v, ..(#[trigger] old(dir).devices@[j]) }
                } else {
                    old(dir).devices@[j]
                }),
            forall|j: int| i <= j < dir.devices@.len() ==> dir.devices@[j] == old(dir).devices@[j],
        decreases dir.devices@.len() - i,
    {
        if dir.devices[i].id == id {
            let rec = &mut dir.devices[i];
            rec.motor_alarm = v;
        }
        i = i + 1;
    }
    proof {
        assert(dir.devices@ =~= Directory::with_motor_flag(old(dir).devices@, id, v));
    }
}

/// The periodic sweep: retire alarms of the listed devices older than
/// three minutes that are still active, drop any queued pre-alarm of the
/// parent, and re-derive each device's battery and motor flags from what
/// remains, feeding both into the alarm history.
pub fn bulk_clean_alarms(
    devices: &Vec<i32>,
    parent_device: Option<i32>,
    dir: &mut Directory,
    now: i64,
)
    requires
        now >= 0,
    ensures
        final(dir).alarms@ == deactivate_stale(old(dir).alarms@, devices@, now - 180),
        final(dir).pre_alarms@ == match parent_device {
            Some(p) => without_pre_alarms(old(dir).pre_alarms@, p),
            None => old(dir).pre_alarms@,
        },
        (final(dir).devices@, final(dir).alarm_history@) == clean_fold(
            old(dir).devices@,
            old(dir).alarm_history@,
            deactivate_stale(old(dir).alarms@, devices@, now - 180),
            devices@,
            now,
        ),
        final(dir).vars == old(dir).vars,
        final(dir).device_status == old(dir).device_status,
        final(dir).status_logs == old(dir).status_logs,
        final(dir).var_logs == old(dir).var_logs,
        final(dir).hydro_sessions == old(dir).hydro_sessions,
        final(dir).hydro_lines == old(dir).hydro_lines,
{
    let cutoff: i64 = now - 180;
    let mut i: usize = 0;
    while i < dir.alarms.len()
        invariant
            i <= dir.alarms@.len(),
            dir.alarms@.len() == old(dir).alarms@.len(),
            dir.devices == old(dir).devices,
            dir.vars == old(dir).vars,
            dir.device_status == old(dir).device_status,
            dir.status_logs == old(dir).status_logs,
            dir.var_logs == old(dir).var_logs,
            dir.pre_alarms == old(dir).pre_alarms,
            dir.alarm_history == old(dir).alarm_history,
            dir.hydro_sessions == old(dir).hydro_sessions,
            dir.hydro_lines == old(dir).hydro_lines,
            cutoff == now - 180,
            forall|j: int|
                0 <= j < i ==> dir.alarms@[j] == (if devices@.contains(
                    (#[trigger] old(dir).alarms@[j]).device_id,
                ) && old(dir).alarms@[j].timestamp <= cutoff && old(dir).alarms@[j].active {
                    AlarmRow { active: false, ..old(dir).alarms@[j] }
                } else {
                    old(dir).alarms@[j]
                }),
            forall|j: int| i <= j < dir.alarms@.len() ==> dir.alarms@[j] == old(dir).alarms@[j],
        decreases dir.alarms@.len() - i,
    {
        let dev_listed = crate::model::contains_i32(devices, dir.alarms[i].device_id);
        if dev_listed && dir.alarms[i].timestamp <= cutoff && dir.alarms[i].active {
            let row = &mut dir.alarms[i];
            row.active = false;
        }
        i = i + 1;
    }
    proof {
        assert(dir.alarms@ =~= deactivate_stale(old(dir).alarms@, devices@, now - 180));
    }
    let ghost cleaned = dir.alarms@;
    match parent_device {
        Some(p) => {
            let mut kept: Vec<PreAlarmRow> = Vec::new();
            let mut k: usize = 0;
            proof {
                assert(dir.pre_alarms@.take(0).filter(|r: PreAlarmRow| r.device_id != p) =~= kept@);
            }
            while k < dir.pre_alarms.len()
                invariant
                    k <= dir.pre_alarms@.len(),
                    kept@ == dir.pre_alarms@.take(k as int).filter(
                        |r: PreAlarmRow| r.device_id != p,
                    ),
                decreases dir.pre_alarms@.len() - k,
            {
                let ghost pre = dir.pre_alarms@.take(k as int);
                proof {
                    assert(dir.pre_alarms@.take(k as int + 1).drop_last() =~= pre);
                    assert(dir.pre_alarms@.take(k as int + 1).last() == dir.pre_alarms@[k as int]);
                    reveal_with_fuel(Seq::filter, 2);
                }
                let row = dir.pre_alarms[k];
                if row.device_id != p {
                    kept.push(row);
                }
                k = k + 1;
            }
            proof {
                assert(dir.pre_alarms@.take(dir.pre_alarms@.len() as int) =~= dir.pre_alarms@);
            }
            dir.pre_alarms = kept;
        },
        None => {},
    }
    let ghost devs0 = dir.devices@;
    let ghost hist0 = dir.alarm_history@;
    let ghost pre1 = dir.pre_alarms@;
    let mut d: usize = 0;
    proof {
        assert(devices@.take(0) =~= Seq::<i32>::empty());
    }
    while d < devices.len()
        invariant
            d <= devices@.len(),
            dir.alarms@ == cleaned,
            devs0 == old(dir).devices@,
            hist0 == old(dir).alarm_history@,
            dir.vars == old(dir).vars,
            dir.device_status == old(dir).device_status,
            dir.status_logs == old(dir).status_logs,
            dir.var_logs == old(dir).var_logs,
            dir.hydro_sessions == old(dir).hydro_sessions,
            dir.hydro_lines == old(dir).hydro_lines,
            dir.pre_alarms@ == pre1,
            pre1 == match parent_device {
                Some(p) => without_pre_alarms(old(dir).pre_alarms@, p),
                None => old(dir).pre_alarms@,
            },
            (dir.devices@, dir.alarm_history@) == clean_fold(
                devs0,
                hist0,
                cleaned,
                devices@.take(d as int),
                now,
            ),
        decreases devices@.len() - d,
    {
        let id = devices[d];
        proof {
            assert(devices@.take(d as int + 1).drop_last() =~= devices@.take(d as int));
            assert(devices@.take(d as int + 1).last() == devices@[d as int]);
        }
        let bat = has_active_bit_exec(&dir.alarms, id, 20);
        set_battery_flag(dir, id, bat);
        create_or_update_device_alarm_history(Some(id), AlarmKind::BatteryAlarm, bat, dir, now);
        let mot = has_active_bit_exec(&dir.alarms, id, 1);
        set_motor_flag(dir, id, mot);
        create_or_update_device_alarm_history(Some(id), AlarmKind::MotorAlarm, mot, dir, now);
        d = d + 1;
    }
    proof {
        assert(devices@.take(devices@.len() as int) =~= devices@);
    }
}

} // verus!
