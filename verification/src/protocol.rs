//! The command dispatcher: opcode table, per-opcode frame handlers, the
//! recovery envelope, and the ingestion entry that resolves a device from
//! a topic and payload and dispatches its frame.

use vstd::prelude::*;

use crate::alarm::{alarm_bit_name, alarm_table_step, bulk_clean_alarms};
use crate::codec::{DecodeError, Var};
use crate::ftime::{frame_time_of_tokens, window_start, window_start_tick, FrameTime};
use crate::model::{
    child_list, same_but_devices, same_but_vars, multiple_vars_of, power_on, vars_with_code,
    var_of, AlarmKind, CommunicationStatus, Device, DeviceRecord, DeviceStatus, Directory,
    EngineError, ProfileKind, LogTime,
};
use crate::nums::{dec_str_int, str_to_int};
use crate::status::{find_session, hopper_step, ping_next, snap_empty};
use crate::strutil::{contains_seq, join_range, join_with, split_by, split_str, str_eq};

verus! {

/// How a frame's result is classified for the audit trail.
#[derive(Clone, Copy, PartialEq, Eq, Structural, Debug)]
pub enum MessageMode {
    ModeReadResponse,
    ModeWriteResponse,
    ModeLogResponse,
    LogRecovery,
    XbeeError,
    HydrophoneError,
}

/// Why a frame could not be processed to the end.  Writes already issued
/// for earlier fields of the frame are kept.
#[derive(Clone, Copy, PartialEq, Eq, Structural, Debug)]
pub enum FrameError {
    /// The variant does not implement this operation.
    Unsupported,
    /// The token list is too short for the operation.
    ShortFrame,
    /// The frame timestamp fields do not form a calendar date.
    BadTimestamp,
    /// The central unit has no children to address.
    NoChildren,
    /// A child ordinal lies outside the parent's child list.
    OrdinalOutOfRange,
    /// A required variable is missing on the device.
    MissingVariable,
    /// A field could not be decoded.
    Decode(DecodeError),
    /// A decoded or stored value could not be used.
    Value(EngineError),
    /// A mask field is not well-formed hexadecimal.
    BadMask,
    /// More children than the bit mask can address.
    TooManyChildren,
}

/// What a handler reports back for audit purposes: an optional related
/// child device, the message mode, a description, and name-value pairs
/// for display.
pub type ResponseCommand = (Option<i32>, MessageMode, String, Option<Vec<(String, String)>>);

/// The protocol variant a device speaks.
#[derive(Clone, Copy, PartialEq, Eq, Structural, Debug)]
pub enum Protocol {
    MqttNative,
    LegacySerial,
    LegacyRadio,
}

/// The operations of the command table.
#[derive(Clone, Copy, PartialEq, Eq, Structural, Debug)]
pub enum Op {
    ReadResponse,
    FeedLog,
    ReadVarsOther,
    WriteVarsOther,
    FeedLogConfirmation,
    AccumulationDay,
    Rssi,
    SoundX2,
    SensorDoTemp,
    AlarmLog,
    StatusDevice,
    StatusUc,
    SoundLog,
    DosageHydro,
    Recovery,
    AssignResponse,
    MacAddress,
    Ping,
    HydrophoneTrouble,
    XbeeTrouble,
    Ack,
}

/// The operation selected by the first token of a frame; anything
/// unmatched acknowledges.
pub open spec fn opcode_of(cmd: Seq<char>) -> Op {
    if cmd == "23"@ {
        Op::ReadResponse
    } else if cmd == "30"@ {
        Op::FeedLog
    } else if cmd == "31"@ {
        Op::ReadVarsOther
    } else if cmd == "32"@ {
        Op::WriteVarsOther
    } else if cmd == "33"@ {
        Op::FeedLogConfirmation
    } else if cmd == "37"@ {
        Op::AccumulationDay
    } else if cmd == "40"@ {
        Op::Rssi
    } else if cmd == "44"@ {
        Op::SoundX2
    } else if cmd == "50"@ {
        Op::SensorDoTemp
    } else if cmd == "52"@ {
        Op::AlarmLog
    } else if cmd == "80"@ {
        Op::StatusDevice
    } else if cmd == "81"@ {
        Op::StatusUc
    } else if cmd == "82"@ {
        Op::SoundLog
    } else if cmd == "83"@ {
        Op::DosageHydro
    } else if cmd == "85"@ {
        Op::Recovery
    } else if cmd == "88"@ {
        Op::AssignResponse
    } else if cmd == "98"@ {
        Op::MacAddress
    } else if cmd == "99"@ {
        Op::Ping
    } else if cmd == "4E"@ {
        Op::HydrophoneTrouble
    } else if cmd == "4F"@ {
        Op::XbeeTrouble
    } else {
        Op::Ack
    }
}

/// The operation selected by the first token of a frame.
pub fn opcode_exec(cmd: &str) -> (r: Op)
    ensures
        r == opcode_of(cmd@),
{
    if str_eq(cmd, "23") {
        Op::ReadResponse
    } else if str_eq(cmd, "30") {
        Op::FeedLog
    } else if str_eq(cmd, "31") {
        Op::ReadVarsOther
    } else if str_eq(cmd, "32") {
        Op::WriteVarsOther
    } else if str_eq(cmd, "33") {
        Op::FeedLogConfirmation
    } else if str_eq(cmd, "37") {
        Op::AccumulationDay
    } else if str_eq(cmd, "40") {
        Op::Rssi
    } else if str_eq(cmd, "44") {
        Op::SoundX2
    } else if str_eq(cmd, "50") {
        Op::SensorDoTemp
    } else if str_eq(cmd, "52") {
        Op::AlarmLog
    } else if str_eq(cmd, "80") {
        Op::StatusDevice
    } else if str_eq(cmd, "81") {
        Op::StatusUc
    } else if str_eq(cmd, "82") {
        Op::SoundLog
    } else if str_eq(cmd, "83") {
        Op::DosageHydro
    } else if str_eq(cmd, "85") {
        Op::Recovery
    } else if str_eq(cmd, "88") {
        Op::AssignResponse
    } else if str_eq(cmd, "98") {
        Op::MacAddress
    } else if str_eq(cmd, "99") {
        Op::Ping
    } else if str_eq(cmd, "4E") {
        Op::HydrophoneTrouble
    } else if str_eq(cmd, "4F") {
        Op::XbeeTrouble
    } else {
        Op::Ack
    }
}

/// The child a frame ordinal addresses within an address-ordered list, or
/// an out-of-range error.
pub open spec fn ordinal_child(l: Seq<Device>, pos: int) -> Result<Device, FrameError> {
    if 0 <= pos < l.len() {
        Ok(l[pos])
    } else {
        Err(FrameError::OrdinalOutOfRange)
    }
}

/// Ordinal addressing resolves by position in the address-ordered list:
/// with three children, ordinal two names the third, and an ordinal past
/// the end is a reportable error, never a silent skip.
pub proof fn lemma_ordinal_child(l: Seq<Device>)
    requires
        l.len() == 3,
    ensures
        ordinal_child(l, 2) == Ok::<Device, FrameError>(l[2]),
        ordinal_child(l, 5) == Err::<Device, FrameError>(FrameError::OrdinalOutOfRange),
{
}

/// Resolve a frame ordinal in a child list.
pub fn child_at<'a>(children: &'a Vec<Device>, position: i32) -> (r: Result<&'a Device, FrameError>)
    ensures
        match r {
            Ok(d) => ordinal_child(children@, position as int) == Ok::<Device, FrameError>(*d),
            Err(e) => ordinal_child(children@, position as int) == Err::<Device, FrameError>(e),
        },
{
    if position < 0 {
        return Err(FrameError::OrdinalOutOfRange);
    }
    let pos = position as usize;
    if pos >= children.len() {
        return Err(FrameError::OrdinalOutOfRange);
    }
    Ok(&children[pos])
}

/// The tokens from `from` on, as a fresh list.
pub fn slice_tokens<'a>(v: &Vec<&'a str>, from: usize) -> (r: Vec<&'a str>)
    requires
        from <= v.len(),
    ensures
        r.deep_view() == v.deep_view().skip(from as int),
{
    let mut out: Vec<&'a str> = Vec::new();
    let mut i: usize = from;
    while i < v.len()
        invariant
            from <= i <= v.len(),
            out.deep_view() =~= v.deep_view().subrange(from as int, i as int),
        decreases v.len() - i,
    {
        let ghost prev = out.deep_view();
        out.push(v[i]);
        proof {
            assert(out.deep_view() =~= prev.push(v.deep_view()[i as int]));
            assert(prev.push(v.deep_view()[i as int]) =~= v.deep_view().subrange(
                from as int,
                i as int + 1,
            ));
        }
        i = i + 1;
    }
    proof {
        assert(v.deep_view().subrange(from as int, v.deep_view().len() as int) =~= v.deep_view()
            .skip(from as int));
    }
    out
}

/// A write acknowledged and nothing else: the fallback for unmatched
/// opcodes.
pub open spec fn ack_response(r: ResponseCommand) -> bool {
    &&& r.0 is None
    &&& r.1 == MessageMode::ModeWriteResponse
    &&& r.2@ == "Respuesta de escritura"@
    &&& r.3 is None
}

/// The generic acknowledgment.
pub fn ack_response_function() -> (r: ResponseCommand)
    ensures
        ack_response(r),
{
    let desc = String::new().concat("Respuesta de escritura");
    (None, MessageMode::ModeWriteResponse, desc, None)
}

} // verus!

verus! {

// ---- frame handlers: ping, addresses, alarms, status ----

/// The ping state machine applied to the resolved device: only a device
/// that is not yet healthy moves, and every acknowledged move counts one
/// responded message.
pub open spec fn ping_applied(pre: Directory, post: Directory, dev: Device) -> bool {
    &&& same_but_devices(post, pre)
    &&& post.devices@ == (match dev.status {
        Some(st) => if st == CommunicationStatus::Okay {
            pre.devices@
        } else {
            Directory::ping_step(pre.devices@, dev.id, ping_next(st))
        },
        None => pre.devices@,
    })
}

/// The reported interface hardware address written on the device.
pub open spec fn mac_applied(pre: Directory, post: Directory, dev: Device, mac: Seq<char>) -> bool {
    &&& same_but_devices(post, pre)
    &&& post.devices@.len() == pre.devices@.len()
    &&& forall|j: int|
        0 <= j < pre.devices@.len() ==> if pre.devices@[j].id == dev.id {
            (#[trigger] post.devices@[j]) == DeviceRecord {
                interface_mac_address: post.devices@[j].interface_mac_address,
                ..pre.devices@[j]
            } && match post.devices@[j].interface_mac_address {
                Some(m) => m@ == mac,
                None => false,
            }
        } else {
            post.devices@[j] == pre.devices@[j]
        }
}

/// The audit response of a handler, by views.
pub open spec fn response_is(
    r: ResponseCommand,
    mode: MessageMode,
    desc: Seq<char>,
    pairs: Option<Seq<(Seq<char>, Seq<char>)>>,
) -> bool {
    &&& r.0 is None
    &&& r.1 == mode
    &&& r.2@ == desc
    &&& match (r.3, pairs) {
        (Some(ph), Some(ps)) => ph@.len() == ps.len() && forall|i: int|
            0 <= i < ps.len() ==> (#[trigger] ph@[i]).0@ == ps[i].0 && ph@[i].1@ == ps[i].1,
        (None, None) => true,
        _ => false,
    }
}

/// The bit-position alarm decode applied for the addressed child.
pub open spec fn alarm_log_applied(
    pre: Directory,
    post: Directory,
    dev: Device,
    ts: Seq<Seq<char>>,
    now: i64,
    r: Result<ResponseCommand, FrameError>,
) -> bool {
    if ts.len() < 12 {
        r == Err::<ResponseCommand, FrameError>(FrameError::ShortFrame) && post == pre
    } else {
        let children = child_list(pre.devices@, dev.id, ProfileKind::Other, dev.protocol, false);
        if children.len() == 0 {
            r == Err::<ResponseCommand, FrameError>(FrameError::NoChildren) && post == pre
        } else {
            let pos = crate::codec::tok_i32(ts[6], 16);
            match ordinal_child(children, pos) {
                Err(e) => r == Err::<ResponseCommand, FrameError>(e) && post == pre,
                Ok(target) => {
                    let mask = crate::codec::tok_i32(
                        join_with(ts.subrange(7, 11), Seq::empty()),
                        16,
                    );
                    let cap = crate::codec::tok_i32(ts[11], 16);
                    &&& post.devices == pre.devices
                    &&& post.vars == pre.vars
                    &&& post.device_status == pre.device_status
                    &&& post.status_logs == pre.status_logs
                    &&& post.var_logs == pre.var_logs
                    &&& post.pre_alarms == pre.pre_alarms
                    &&& post.alarm_history == pre.alarm_history
                    &&& post.hydro_sessions == pre.hydro_sessions
                    &&& post.hydro_lines == pre.hydro_lines
                    &&& exists|n1: String, n2: String, n3: String|
                        {
                            &&& n1@ == alarm_bit_name(1)
                            &&& n2@ == alarm_bit_name(4)
                            &&& n3@ == alarm_bit_name(20)
                            &&& post.alarms@ == #[trigger] alarm_table_step(
                                pre.alarms@,
                                target.id,
                                target.pond_name,
                                target.farm_id,
                                mask as i32,
                                now,
                                n1,
                                n2,
                                n3,
                            )
                        }
                    &&& match r {
                        Ok(resp) => response_is(
                            resp,
                            MessageMode::ModeLogResponse,
                            "Log de alarma"@,
                            Some(
                                seq![
                                    ("Capacitancia"@, dec_str_int(cap)),
                                    ("Dispositivo"@, target.name@),
                                ],
                            ),
                        ),
                        Err(_) => false,
                    }
                },
            }
        }
    }
}

/// The whole MAC response: the first token recorded as the address.
pub open spec fn mac_response_applied(
    pre: Directory,
    post: Directory,
    dev: Device,
    ts: Seq<Seq<char>>,
    r: Result<ResponseCommand, FrameError>,
) -> bool {
    if ts.len() == 0 {
        r == Err::<ResponseCommand, FrameError>(FrameError::ShortFrame) && post == pre
    } else {
        &&& mac_applied(pre, post, dev, ts[0])
        &&& match r {
            Ok(resp) => response_is(resp, MessageMode::ModeReadResponse, "Respuesta de MAC"@, None),
            Err(_) => false,
        }
    }
}

/// The whole ping response: the state machine applied and acknowledged.
pub open spec fn ping_response_applied(
    pre: Directory,
    post: Directory,
    dev: Device,
    r: Result<ResponseCommand, FrameError>,
) -> bool {
    &&& ping_applied(pre, post, dev)
    &&& match r {
        Ok(resp) => response_is(resp, MessageMode::ModeReadResponse, "Respuesta de PING"@, None),
        Err(_) => false,
    }
}

impl Protocol {
    /// Decode an alarm-bit frame for the child the ordinal addresses.
    pub fn log_alarms_function(
        &self,
        device: &Device,
        data: &Vec<&str>,
        dir: &mut Directory,
        now: i64,
    ) -> (r: Result<ResponseCommand, FrameError>)
        ensures
            self is MqttNative ==> alarm_log_applied(
                *old(dir),
                *final(dir),
                *device,
                data.deep_view(),
                now,
                r,
            ),
            !(self is MqttNative) ==> r == Err::<ResponseCommand, FrameError>(
                FrameError::Unsupported,
            ) && *final(dir) == *old(dir),
    {
        if !matches!(self, Protocol::MqttNative) {
            return Err(FrameError::Unsupported);
        }
        if data.len() < 12 {
            return Err(FrameError::ShortFrame);
        }
        let device_position = str_to_int(data[6], 16);
        let alarms_joined = join_range(data, 7, 11, "");
        proof {
            reveal_strlit("");
            assert(""@ =~= Seq::<char>::empty());
        }
        let alarms = str_to_int(alarms_joined.as_str(), 16);
        let children = match device.get_children_devices(dir) {
            Some(c) => c,
            None => {
                return Err(FrameError::NoChildren);
            },
        };
        let target = match child_at(&children, device_position) {
            Ok(t) => t,
            Err(e) => {
                return Err(e);
            },
        };
        let capacitancia = str_to_int(data[11], 16);
        target.insert_alarm(alarms, dir, now);
        proof {
            let (w1, w2, w3) = choose|n1: String, n2: String, n3: String|
                {
                    &&& n1@ == alarm_bit_name(1)
                    &&& n2@ == alarm_bit_name(4)
                    &&& n3@ == alarm_bit_name(20)
                    &&& dir.alarms@ == alarm_table_step(
                        old(dir).alarms@,
                        target.id,
                        target.pond_name,
                        target.farm_id,
                        alarms,
                        now,
                        n1,
                        n2,
                        n3,
                    )
                };
            assert(dir.alarms@ == alarm_table_step(
                old(dir).alarms@,
                target.id,
                target.pond_name,
                target.farm_id,
                alarms,
                now,
                w1,
                w2,
                w3,
            ));
            let dv = data.deep_view();
            let children_l = child_list(
                old(dir).devices@,
                device.id,
                ProfileKind::Other,
                device.protocol,
                false,
            );
            let pos = crate::codec::tok_i32(dv[6], 16);
            let tgt = ordinal_child(children_l, pos).unwrap();
            let mask = crate::codec::tok_i32(join_with(dv.subrange(7, 11), Seq::empty()), 16);
            assert(dv[6] == data@[6 as int]@);
            assert(children@ == children_l);
            assert(tgt == *target);
            assert(pos == device_position as int);
            assert(mask as i32 == alarms);
            assert(dir.alarms@ == alarm_table_step(
                old(dir).alarms@,
                tgt.id,
                tgt.pond_name,
                tgt.farm_id,
                mask as i32,
                now,
                w1,
                w2,
                w3,
            ));
        }
        let mut placeholder: Vec<(String, String)> = Vec::new();
        placeholder.push(
            (String::new().concat("Capacitancia"), crate::nums::i32_to_dec(capacitancia)),
        );
        placeholder.push((String::new().concat("Dispositivo"), target.name.clone()));
        let desc = String::new().concat("Log de alarma");
        let resp = (None, MessageMode::ModeLogResponse, desc, Some(placeholder));
        Ok(resp)
    }

    /// Record the MAC address a device reports.
    pub fn mac_address_response_function(
        &self,
        device: &Device,
        data: &Vec<&str>,
        dir: &mut Directory,
    ) -> (r: Result<ResponseCommand, FrameError>)
        ensures
            self is MqttNative ==> mac_response_applied(
                *old(dir),
                *final(dir),
                *device,
                data.deep_view(),
                r,
            ),
            !(self is MqttNative) ==> r == Err::<ResponseCommand, FrameError>(
                FrameError::Unsupported,
            ) && *final(dir) == *old(dir),
    {
        if !matches!(self, Protocol::MqttNative) {
            return Err(FrameError::Unsupported);
        }
        if data.len() == 0 {
            return Err(FrameError::ShortFrame);
        }
        device.update_mac_address(data[0], dir);
        let desc = String::new().concat("Respuesta de MAC");
        Ok((None, MessageMode::ModeReadResponse, desc, None))
    }

    /// Drive the communication-status state machine on an acknowledged
    /// ping.
    pub fn ping_function(&self, device: &Device, dir: &mut Directory) -> (r: Result<
        ResponseCommand,
        FrameError,
    >)
        ensures
            self is MqttNative ==> ping_response_applied(*old(dir), *final(dir), *device, r),
            !(self is MqttNative) ==> r == Err::<ResponseCommand, FrameError>(
                FrameError::Unsupported,
            ) && *final(dir) == *old(dir),
    {
        if !matches!(self, Protocol::MqttNative) {
            return Err(FrameError::Unsupported);
        }
        match device.status {
            Some(CommunicationStatus::Waiting) => {
                device.update_status(CommunicationStatus::Intermitente, dir);
            },
            Some(CommunicationStatus::Lost) => {
                device.update_status(CommunicationStatus::Intermitente, dir);
            },
            Some(CommunicationStatus::Intermitente) => {
                device.update_status(CommunicationStatus::Okay, dir);
            },
            Some(CommunicationStatus::Okay) => {},
            None => {},
        }
        let desc = String::new().concat("Respuesta de PING");
        Ok((None, MessageMode::ModeReadResponse, desc, None))
    }

    /// Report a device-side hydrophone failure.
    pub fn hydrophone_error_function(&self) -> (r: ResponseCommand)
        ensures
            response_is(
                r,
                MessageMode::HydrophoneError,
                "No se pudo habilitar el hidrofono"@,
                None,
            ),
    {
        let desc = String::new().concat("No se pudo habilitar el hidrofono");
        (None, MessageMode::HydrophoneError, desc, None)
    }

    /// Report a device-side radio failure.
    pub fn xbee_error_function(&self) -> (r: ResponseCommand)
        ensures
            response_is(r, MessageMode::XbeeError, "Problemas con el XBee"@, None),
    {
        let desc = String::new().concat("Problemas con el XBee");
        (None, MessageMode::XbeeError, desc, None)
    }
}

} // verus!

verus! {

// ---- frame handlers: UC status, hydrophone dosage, assignment ----

/// The status-log effects of one UC status frame.
pub open spec fn status_uc_applied(
    pre: Directory,
    post: Directory,
    dev: Device,
    ts: Seq<Seq<char>>,
    now: i64,
    r: Result<ResponseCommand, FrameError>,
) -> bool {
    if ts.len() < 8 {
        r == Err::<ResponseCommand, FrameError>(FrameError::ShortFrame) && post == pre
    } else {
        let temp = crate::codec::tok_i32(ts[7], 16);
        let sig = crate::codec::tok_i32(ts[6], 10);
        match frame_time_of_tokens(ts, 0) {
            None => r == Err::<ResponseCommand, FrameError>(FrameError::BadTimestamp) && post
                == pre,
            Some(t) => {
                let stored = -sig as i64;
                let alarm = crate::status::signal_alarm_of(stored);
                &&& post.status_logs@ == pre.status_logs@.push(
                    crate::model::StatusLogRow {
                        create_date: now,
                        device_id: dev.id,
                        timestamp: LogTime::Frame(t),
                        temp: temp as i64,
                        signal: stored,
                        battery: None,
                        panel: None,
                        farm_id: dev.farm_id,
                    },
                )
                &&& post.devices@ == Directory::with_signal(pre.devices@, dev.id, alarm, stored)
                &&& post.alarm_history@ == crate::alarm::history_step(
                    pre.alarm_history@,
                    Some(dev.id),
                    AlarmKind::SignalAlarm,
                    alarm,
                    now,
                )
                &&& post.vars == pre.vars
                &&& post.device_status == pre.device_status
                &&& post.var_logs == pre.var_logs
                &&& post.alarms == pre.alarms
                &&& post.pre_alarms == pre.pre_alarms
                &&& post.hydro_sessions == pre.hydro_sessions
                &&& post.hydro_lines == pre.hydro_lines
                &&& match r {
                    Ok(resp) => response_is(
                        resp,
                        MessageMode::ModeLogResponse,
                        "Log de Status UC"@,
                        Some(
                            seq![
                                ("UC"@, dev.name@),
                                ("Senal"@, dec_str_int(sig)),
                                ("Temp"@, dec_str_int(temp)),
                            ],
                        ),
                    ),
                    Err(_) => false,
                }
            },
        }
    }
}

/// The description attached to a hydrophone dosage token.
pub open spec fn dosage_desc(tok: Seq<char>) -> Seq<char> {
    if tok == "P"@ {
        "cebo power on"@
    } else if tok == "S"@ {
        "cebo start cycle"@
    } else if tok == "-P"@ {
        "-cebo power on"@
    } else if tok == "-S"@ {
        "-cebo start cycle"@
    } else if tok == "-N"@ {
        "-"@
    } else {
        ""@
    }
}

impl Protocol {
    /// Log a UC status frame: temperature and signal into the status log.
    pub fn log_status_uc_function(
        &self,
        device: &Device,
        data: &Vec<&str>,
        dir: &mut Directory,
        now: i64,
    ) -> (r: Result<ResponseCommand, FrameError>)
        ensures
            self is MqttNative ==> status_uc_applied(
                *old(dir),
                *final(dir),
                *device,
                data.deep_view(),
                now,
                r,
            ),
            !(self is MqttNative) ==> r == Err::<ResponseCommand, FrameError>(
                FrameError::Unsupported,
            ) && *final(dir) == *old(dir),
    {
        if !matches!(self, Protocol::MqttNative) {
            return Err(FrameError::Unsupported);
        }
        if data.len() < 8 {
            return Err(FrameError::ShortFrame);
        }
        let temperature = str_to_int(data[7], 16);
        let signal = str_to_int(data[6], 10);
        proof {
            assert(data.deep_view()[7] == data@[7 as int]@);
            assert(data.deep_view()[6] == data@[6 as int]@);
        }
        let timestamp = match FrameTime::from_tokens(data, 0) {
            Some(t) => t,
            None => {
                return Err(FrameError::BadTimestamp);
            },
        };
        let mut placeholder: Vec<(String, String)> = Vec::new();
        placeholder.push((String::new().concat("UC"), device.name.clone()));
        placeholder.push((String::new().concat("Senal"), crate::nums::i32_to_dec(signal)));
        placeholder.push((String::new().concat("Temp"), crate::nums::i32_to_dec(temperature)));
        device.insert_status_log(
            LogTime::Frame(timestamp),
            Some(temperature),
            signal,
            None,
            None,
            dir,
            now,
        );
        let desc = String::new().concat("Log de Status UC");
        Ok((None, MessageMode::ModeLogResponse, desc, Some(placeholder)))
    }

    /// Log a hydrophone dosage frame: audit only, no state change.
    pub fn log_dosage_hydro_function(
        &self,
        device: &Device,
        data: &Vec<&str>,
        dir: &mut Directory,
    ) -> (r: Result<ResponseCommand, FrameError>)
        ensures
            *final(dir) == *old(dir),
            self is MqttNative ==> dosage_applied(*old(dir), *device, data.deep_view(), r),
            !(self is MqttNative) ==> r == Err::<ResponseCommand, FrameError>(
                FrameError::Unsupported,
            ),
    {
        if !matches!(self, Protocol::MqttNative) {
            return Err(FrameError::Unsupported);
        }
        if data.len() < 8 {
            return Err(FrameError::ShortFrame);
        }
        let value = str_to_int(data[7], 10);
        let description: &str = if str_eq(data[6], "P") {
            "cebo power on"
        } else if str_eq(data[6], "S") {
            "cebo start cycle"
        } else if str_eq(data[6], "-P") {
            "-cebo power on"
        } else if str_eq(data[6], "-S") {
            "-cebo start cycle"
        } else if str_eq(data[6], "-N") {
            "-"
        } else {
            ""
        };
        let var = match device.get_variable("DDE2", dir) {
            Some(v) => v,
            None => {
                return Err(FrameError::MissingVariable);
            },
        };
        proof {
            assert(data.deep_view()[7] == data@[7 as int]@);
            assert(data.deep_view()[6] == data@[6 as int]@);
        }
        if FrameTime::from_tokens(data, 0).is_none() {
            return Err(FrameError::BadTimestamp);
        }
        let mut placeholder: Vec<(String, String)> = Vec::new();
        placeholder.push((var.name, crate::nums::i32_to_dec(value)));
        placeholder.push(
            (String::new().concat("descripcion"), String::new().concat(description)),
        );
        let desc = String::new().concat("Log dosis x sonido");
        Ok((None, MessageMode::ModeLogResponse, desc, Some(placeholder)))
    }
}

/// One hydrophone dosage frame: audit only, the state unchanged.
pub open spec fn dosage_applied(
    pre: Directory,
    dev: Device,
    ts: Seq<Seq<char>>,
    r: Result<ResponseCommand, FrameError>,
) -> bool {
    if ts.len() < 8 {
        r == Err::<ResponseCommand, FrameError>(FrameError::ShortFrame)
    } else {
        let ms = vars_with_code(pre.vars@, dev.id, "DDE2"@);
        if ms.len() == 0 {
            r == Err::<ResponseCommand, FrameError>(FrameError::MissingVariable)
        } else {
            match frame_time_of_tokens(ts, 0) {
                None => r == Err::<ResponseCommand, FrameError>(FrameError::BadTimestamp),
                Some(t) => match r {
                    Ok(resp) => response_is(
                        resp,
                        MessageMode::ModeLogResponse,
                        "Log dosis x sonido"@,
                        Some(
                            seq![
                                (ms[0].name@, dec_str_int(crate::codec::tok_i32(ts[7], 10))),
                                ("descripcion"@, dosage_desc(ts[6])),
                            ],
                        ),
                    ),
                    Err(_) => false,
                },
            }
        }
    }
}

/// The parent detachment of each child whose address occurs in the
/// reported address block, applied in child order.
pub open spec fn assign_fold(
    ds: Seq<DeviceRecord>,
    children: Seq<Device>,
    addrs: Seq<char>,
) -> Seq<DeviceRecord>
    decreases children.len(),
{
    if children.len() == 0 {
        ds
    } else {
        let prev = assign_fold(ds, children.drop_last(), addrs);
        let c = children.last();
        if contains_seq(addrs, c.address@) {
            Directory::with_parent_cleared(prev, c.id)
        } else {
            prev
        }
    }
}

/// The names of the children the address block covers, in child order.
pub open spec fn assign_names(children: Seq<Device>, addrs: Seq<char>) -> Seq<Seq<char>>
    decreases children.len(),
{
    if children.len() == 0 {
        Seq::empty()
    } else {
        let prev = assign_names(children.drop_last(), addrs);
        let c = children.last();
        if contains_seq(addrs, c.address@) {
            prev.push(c.name@)
        } else {
            prev
        }
    }
}

/// One assignment response applied: listed children detached, the rest
/// kept.
pub open spec fn assign_applied(
    pre: Directory,
    post: Directory,
    dev: Device,
    ts: Seq<Seq<char>>,
    r: Result<ResponseCommand, FrameError>,
) -> bool {
    if ts.len() == 0 {
        &&& post == pre
        &&& match r {
            Ok(resp) => response_is(
                resp,
                MessageMode::ModeReadResponse,
                "Respuesta de asignacion (OK)"@,
                None,
            ),
            Err(_) => false,
        }
    } else {
        let addrs = join_with(ts, Seq::empty());
        let children = child_list(pre.devices@, dev.id, ProfileKind::Other, dev.protocol, false);
        &&& same_but_devices(post, pre)
        &&& post.devices@ == (if children.len() == 0 {
            pre.devices@
        } else {
            assign_fold(pre.devices@, children, addrs)
        })
        &&& match r {
            Ok(resp) => response_is(
                resp,
                MessageMode::ModeReadResponse,
                "Respuesta de asignacion"@,
                Some(
                    if children.len() == 0 {
                        seq![]
                    } else {
                        seq![("No asignados"@, join_with(assign_names(children, addrs), ","@))]
                    },
                ),
            ),
            Err(_) => false,
        }
    }
}

impl Protocol {
    /// Handle an assignment response: each child the unit reports in its
    /// address block is detached from this parent.
    pub fn assign_device_response_function(
        &self,
        device: &Device,
        data: &Vec<&str>,
        dir: &mut Directory,
    ) -> (r: Result<ResponseCommand, FrameError>)
        ensures
            self is MqttNative ==> assign_applied(
                *old(dir),
                *final(dir),
                *device,
                data.deep_view(),
                r,
            ),
            !(self is MqttNative) ==> r == Err::<ResponseCommand, FrameError>(
                FrameError::Unsupported,
            ) && *final(dir) == *old(dir),
    {
        if !matches!(self, Protocol::MqttNative) {
            return Err(FrameError::Unsupported);
        }
        if data.len() == 0 {
            let desc = String::new().concat("Respuesta de asignacion (OK)");
            return Ok((None, MessageMode::ModeReadResponse, desc, None));
        }
        let mac_addresses = join_range(data, 0, data.len(), "");
        proof {
            reveal_strlit("");
            assert(""@ =~= Seq::<char>::empty());
            assert(data.deep_view().subrange(0, data.deep_view().len() as int) =~= data
                .deep_view());
        }
        let mut placeholder: Vec<(String, String)> = Vec::new();
        match device.get_children_devices(dir) {
            Some(children) => {
                let ghost addrs = mac_addresses@;
                let ghost kids = children@;
                let mut not_assigned = String::new();
                let mut n_found: usize = 0;
                let mut i: usize = 0;
                proof {
                    assert(kids.take(0) =~= Seq::<Device>::empty());
                    assert(assign_names(kids.take(0), addrs) =~= Seq::<Seq<char>>::empty());
                }
                while i < children.len()
                    invariant
                        i <= kids.len(),
                        kids == children@,
                        addrs == mac_addresses@,
                        same_but_devices(*dir, *old(dir)),
                        dir.devices@ == assign_fold(old(dir).devices@, kids.take(i as int), addrs),
                        n_found <= i,
                        n_found == assign_names(kids.take(i as int), addrs).len(),
                        not_assigned@ == join_with(assign_names(kids.take(i as int), addrs), ","@),
                    decreases kids.len() - i,
                {
                    proof {
                        assert(kids.take(i as int + 1).drop_last() =~= kids.take(i as int));
                        assert(kids.take(i as int + 1).last() == kids[i as int]);
                    }
                    let d = &children[i];
                    if crate::strutil::str_contains(mac_addresses.as_str(), d.address.as_str()) {
                        if n_found > 0 {
                            proof {
                                reveal_strlit(",");
                                assert(","@ =~= seq![',']);
                            }
                            not_assigned.append(",");
                        } else {
                            proof {
                                let names = assign_names(kids.take(i as int), addrs);
                                assert(names.len() == 0);
                                assert(join_with(names, ","@) =~= Seq::<char>::empty());
                            }
                        }
                        not_assigned.append(d.name.as_str());
                        proof {
                            let names = assign_names(kids.take(i as int), addrs);
                            let names1 = assign_names(kids.take(i as int + 1), addrs);
                            assert(names1 =~= names.push(kids[i as int].name@));
                            if names.len() > 0 {
                                assert(names1.take(names.len() as int) =~= names);
                                crate::strutil::lemma_join_take_step(
                                    names1,
                                    ","@,
                                    names.len() as int,
                                );
                                assert(names1.take(names.len() as int + 1) =~= names1);
                            } else {
                                assert(names1 =~= seq![kids[i as int].name@]);
                                assert(join_with(names1, ","@) == kids[i as int].name@);
                            }
                        }
                        n_found = n_found + 1;
                        d.update_parent_device(dir);
                    }
                    i = i + 1;
                }
                proof {
                    assert(kids.take(kids.len() as int) =~= kids);
                }
                placeholder.push((String::new().concat("No asignados"), not_assigned));
            },
            None => {},
        }
        let desc = String::new().concat("Respuesta de asignacion");
        Ok((None, MessageMode::ModeReadResponse, desc, Some(placeholder)))
    }
}

} // verus!

verus! {

// ---- frame handlers: feed log and its confirmation ----

/// The ids of a child list, in order.
pub open spec fn child_ids(children: Seq<Device>) -> Seq<i32> {
    children.map_values(|c: Device| c.id)
}

/// The hopper transitions of one feed log applied to each feeder in
/// order: a set mask bit reports an empty hopper, a clear one a full
/// hopper.
pub open spec fn feed_fold(
    rows: Seq<crate::model::DeviceStatusRow>,
    ds: Seq<DeviceRecord>,
    hs: Seq<crate::model::DeviceAlarmHistory>,
    vars: Seq<crate::model::VarRecord>,
    children: Seq<Device>,
    mask: i32,
    t: FrameTime,
    now: i64,
) -> (Seq<crate::model::DeviceStatusRow>, Seq<DeviceRecord>, Seq<crate::model::DeviceAlarmHistory>)
    decreases children.len(),
{
    if children.len() == 0 {
        (rows, ds, hs)
    } else {
        let prev = feed_fold(rows, ds, hs, vars, children.drop_last(), mask, t, now);
        let c = children.last();
        let ea = crate::alarm::mask_bit(mask, (children.len() - 1) as u32);
        (
            prev.0.push(
                crate::model::DeviceStatusRow {
                    create_date: now,
                    device_id: c.id,
                    timestamp: t,
                    status: if ea {
                        DeviceStatus::Empty
                    } else {
                        DeviceStatus::Full
                    },
                    retained: !power_on(vars, c.id),
                },
            ),
            hopper_step(prev.1, c.id, snap_empty(c.empty_alarm), ea, now),
            crate::alarm::history_step(prev.2, Some(c.id), AlarmKind::EmptyAlarm, ea, now),
        )
    }
}

/// One hourly feed log applied: a hopper transition per feeder from the
/// empty-feeder mask, then the periodic alarm sweep over those feeders.
pub open spec fn feed_log_applied(
    pre: Directory,
    post: Directory,
    dev: Device,
    ts: Seq<Seq<char>>,
    now: i64,
    r: Result<ResponseCommand, FrameError>,
) -> bool {
    if ts.len() < 12 {
        r == Err::<ResponseCommand, FrameError>(FrameError::ShortFrame) && post == pre
    } else {
        match frame_time_of_tokens(ts, 0) {
            None => r == Err::<ResponseCommand, FrameError>(FrameError::BadTimestamp) && post
                == pre,
            Some(t) => {
                let mask = crate::codec::tok_i32(
                    join_with(ts.subrange(10, 12), Seq::empty()),
                    16,
                ) as i32;
                let children = child_list(
                    pre.devices@,
                    dev.id,
                    ProfileKind::Feeder,
                    dev.protocol,
                    true,
                );
                if children.len() == 0 {
                    r == Err::<ResponseCommand, FrameError>(FrameError::NoChildren) && post == pre
                } else if children.len() > 31 {
                    r == Err::<ResponseCommand, FrameError>(FrameError::TooManyChildren) && post
                        == pre
                } else {
                    let folded = feed_fold(
                        pre.device_status@,
                        pre.devices@,
                        pre.alarm_history@,
                        pre.vars@,
                        children,
                        mask,
                        t,
                        now,
                    );
                    let cleaned = crate::alarm::deactivate_stale(
                        pre.alarms@,
                        child_ids(children),
                        now - 180,
                    );
                    let swept = crate::alarm::clean_fold(
                        folded.1,
                        folded.2,
                        cleaned,
                        child_ids(children),
                        now,
                    );
                    &&& post.device_status@ == folded.0
                    &&& post.devices@ == swept.0
                    &&& post.alarm_history@ == swept.1
                    &&& post.alarms@ == cleaned
                    &&& post.pre_alarms@ == pre.pre_alarms@
                    &&& post.vars == pre.vars
                    &&& post.status_logs == pre.status_logs
                    &&& post.var_logs == pre.var_logs
                    &&& post.hydro_sessions == pre.hydro_sessions
                    &&& post.hydro_lines == pre.hydro_lines
                    &&& match r {
                        Ok(resp) => response_is(
                            resp,
                            MessageMode::ModeLogResponse,
                            "Log acumulado x hora"@,
                            Some(seq![]),
                        ),
                        Err(_) => false,
                    }
                }
            },
        }
    }
}

/// The feeders whose mask bit is set, in order: the ones that confirmed.
pub open spec fn comm_ids(children: Seq<Device>, mask: i32) -> Seq<i32>
    decreases children.len(),
{
    if children.len() == 0 {
        Seq::empty()
    } else {
        let prev = comm_ids(children.drop_last(), mask);
        if crate::alarm::mask_bit(mask, (children.len() - 1) as u32) {
            prev.push(children.last().id)
        } else {
            prev
        }
    }
}

/// Whether every character is a hexadecimal digit and the count is even:
/// what the confirmation mask field must look like.
pub open spec fn hex_mask_wf(s: Seq<char>) -> bool {
    s.len() % 2 == 0 && forall|i: int|
        0 <= i < s.len() ==> crate::nums::digit_value(#[trigger] s[i], 16) is Some
}

/// Whether the string is a well-formed even-length hexadecimal mask.
fn hex_mask_check(s: &str) -> (r: bool)
    ensures
        r == hex_mask_wf(s@),
{
    let len: usize = s.unicode_len();
    if len % 2 != 0 {
        return false;
    }
    let mut i: usize = 0;
    while i < len
        invariant
            i <= len,
            len == s@.len(),
            len % 2 == 0,
            forall|j: int| 0 <= j < i ==> crate::nums::digit_value(#[trigger] s@[j], 16) is Some,
        decreases len - i,
    {
        let c = s.get_char(i);
        if crate::nums::digit_of(c, 16).is_none() {
            return false;
        }
        i = i + 1;
    }
    true
}

/// One feed confirmation applied: the feeders whose response bit is set
/// are stamped as alive.
pub open spec fn feed_confirmation_applied(
    pre: Directory,
    post: Directory,
    dev: Device,
    ts: Seq<Seq<char>>,
    now: i64,
    r: Result<ResponseCommand, FrameError>,
) -> bool {
    if ts.len() < 10 {
        r == Err::<ResponseCommand, FrameError>(FrameError::ShortFrame) && post == pre
    } else {
        match frame_time_of_tokens(ts, 0) {
            None => r == Err::<ResponseCommand, FrameError>(FrameError::BadTimestamp) && post
                == pre,
            Some(t) => {
                let joined = join_with(ts.subrange(8, 10), Seq::empty());
                if !hex_mask_wf(joined) {
                    r == Err::<ResponseCommand, FrameError>(FrameError::BadMask) && post == pre
                } else {
                    let mask = crate::codec::tok_i32(joined, 16) as i32;
                    let children = child_list(
                        pre.devices@,
                        dev.id,
                        ProfileKind::Feeder,
                        dev.protocol,
                        true,
                    );
                    if children.len() == 0 {
                        r == Err::<ResponseCommand, FrameError>(FrameError::NoChildren) && post
                            == pre
                    } else if children.len() > 31 {
                        r == Err::<ResponseCommand, FrameError>(FrameError::TooManyChildren)
                            && post == pre
                    } else {
                        &&& same_but_devices(*(&post), *(&pre))
                        &&& post.devices@ == Directory::with_last_comm(
                            pre.devices@,
                            comm_ids(children, mask),
                            now,
                        )
                        &&& match r {
                            Ok(resp) => response_is(
                                resp,
                                MessageMode::ModeLogResponse,
                                "Log de confirmacion alimentacion"@,
                                Some(seq![]),
                            ),
                            Err(_) => false,
                        }
                    }
                }
            },
        }
    }
}

impl Protocol {
    /// Handle an hourly feed log: one hopper transition per feeder from
    /// the empty mask, then the periodic alarm sweep.
    pub fn feed_log_function(
        &self,
        device: &Device,
        data: &Vec<&str>,
        dir: &mut Directory,
        now: i64,
    ) -> (r: Result<ResponseCommand, FrameError>)
        requires
            now >= 0,
        ensures
            self is MqttNative ==> feed_log_applied(
                *old(dir),
                *final(dir),
                *device,
                data.deep_view(),
                now,
                r,
            ),
            !(self is MqttNative) ==> r == Err::<ResponseCommand, FrameError>(
                FrameError::Unsupported,
            ) && *final(dir) == *old(dir),
    {
        if !matches!(self, Protocol::MqttNative) {
            return Err(FrameError::Unsupported);
        }
        if data.len() < 12 {
            return Err(FrameError::ShortFrame);
        }
        let timestamp = match FrameTime::from_tokens(data, 0) {
            Some(t) => t,
            None => {
                return Err(FrameError::BadTimestamp);
            },
        };
        let joined = join_range(data, 10, 12, "");
        proof {
            reveal_strlit("");
            assert(""@ =~= Seq::<char>::empty());
        }
        let empty_feeders = str_to_int(joined.as_str(), 16);
        let children = match device.get_feeders(dir) {
            Some(c) => c,
            None => {
                return Err(FrameError::NoChildren);
            },
        };
        if children.len() > 31 {
            return Err(FrameError::TooManyChildren);
        }
        let ghost kids = children@;
        let mut devices_vec: Vec<i32> = Vec::new();
        let mut i: usize = 0;
        proof {
            assert(kids.take(0) =~= Seq::<Device>::empty());
            assert(devices_vec@ =~= child_ids(kids.take(0)));
        }
        while i < children.len()
            invariant
                i <= kids.len() <= 31,
                kids == children@,
                now >= 0,
                empty_feeders as int == crate::codec::tok_i32(
                    join_with(data.deep_view().subrange(10, 12), Seq::empty()),
                    16,
                ),
                dir.vars == old(dir).vars,
                dir.status_logs == old(dir).status_logs,
                dir.var_logs == old(dir).var_logs,
                dir.alarms == old(dir).alarms,
                dir.pre_alarms == old(dir).pre_alarms,
                dir.hydro_sessions == old(dir).hydro_sessions,
                dir.hydro_lines == old(dir).hydro_lines,
                (dir.device_status@, dir.devices@, dir.alarm_history@) == feed_fold(
                    old(dir).device_status@,
                    old(dir).devices@,
                    old(dir).alarm_history@,
                    old(dir).vars@,
                    kids.take(i as int),
                    empty_feeders,
                    timestamp,
                    now,
                ),
                devices_vec@ == child_ids(kids.take(i as int)),
            decreases kids.len() - i,
        {
            proof {
                assert(kids.take(i as int + 1).drop_last() =~= kids.take(i as int));
                assert(kids.take(i as int + 1).last() == kids[i as int]);
            }
            let child = &children[i];
            if empty_feeders & (1i32 << (i as u32)) > 0 {
                child.create_device_status(&timestamp, DeviceStatus::Empty, dir, now);
            } else {
                child.create_device_status(&timestamp, DeviceStatus::Full, dir, now);
            }
            let ghost prev_ids = devices_vec@;
            devices_vec.push(child.id);
            proof {
                assert(child_ids(kids.take(i as int + 1)) =~= child_ids(kids.take(i as int)).push(
                    kids[i as int].id,
                ));
                assert(devices_vec@ =~= prev_ids.push(kids[i as int].id));
            }
            i = i + 1;
        }
        proof {
            assert(kids.take(kids.len() as int) =~= kids);
        }
        bulk_clean_alarms(&devices_vec, None, dir, now);
        let desc = String::new().concat("Log acumulado x hora");
        let placeholder: Vec<(String, String)> = Vec::new();
        Ok((None, MessageMode::ModeLogResponse, desc, Some(placeholder)))
    }

    /// Handle a feed confirmation: stamp the feeders whose response bit
    /// is set as alive.
    pub fn feed_log_confirmation_function(
        &self,
        device: &Device,
        data: &Vec<&str>,
        dir: &mut Directory,
        now: i64,
    ) -> (r: Result<ResponseCommand, FrameError>)
        ensures
            self is MqttNative ==> feed_confirmation_applied(
                *old(dir),
                *final(dir),
                *device,
                data.deep_view(),
                now,
                r,
            ),
            !(self is MqttNative) ==> r == Err::<ResponseCommand, FrameError>(
                FrameError::Unsupported,
            ) && *final(dir) == *old(dir),
    {
        if !matches!(self, Protocol::MqttNative) {
            return Err(FrameError::Unsupported);
        }
        if data.len() < 10 {
            return Err(FrameError::ShortFrame);
        }
        if FrameTime::from_tokens(data, 0).is_none() {
            return Err(FrameError::BadTimestamp);
        }
        let joined = join_range(data, 8, 10, "");
        proof {
            reveal_strlit("");
            assert(""@ =~= Seq::<char>::empty());
        }
        if !hex_mask_check(joined.as_str()) {
            return Err(FrameError::BadMask);
        }
        let comm_feeders = str_to_int(joined.as_str(), 16);
        let children = match device.get_feeders(dir) {
            Some(c) => c,
            None => {
                return Err(FrameError::NoChildren);
            },
        };
        if children.len() > 31 {
            return Err(FrameError::TooManyChildren);
        }
        let ghost kids = children@;
        let mut devices_vec: Vec<i32> = Vec::new();
        let mut i: usize = 0;
        proof {
            assert(kids.take(0) =~= Seq::<Device>::empty());
            assert(devices_vec@ =~= comm_ids(kids.take(0), comm_feeders));
        }
        while i < children.len()
            invariant
                i <= kids.len() <= 31,
                kids == children@,
                devices_vec@ == comm_ids(kids.take(i as int), comm_feeders),
            decreases kids.len() - i,
        {
            proof {
                assert(kids.take(i as int + 1).drop_last() =~= kids.take(i as int));
                assert(kids.take(i as int + 1).last() == kids[i as int]);
            }
            let child = &children[i];
            if comm_feeders & (1i32 << (i as u32)) > 0 {
                let ghost prev_ids = devices_vec@;
                devices_vec.push(child.id);
                proof {
                    assert(devices_vec@ =~= prev_ids.push(kids[i as int].id));
                }
            }
            i = i + 1;
        }
        proof {
            assert(kids.take(kids.len() as int) =~= kids);
        }
        crate::model::bulk_update_communication(&devices_vec, dir, now);
        let desc = String::new().concat("Log de confirmacion alimentacion");
        let placeholder: Vec<(String, String)> = Vec::new();
        Ok((None, MessageMode::ModeLogResponse, desc, Some(placeholder)))
    }
}

} // verus!

verus! {

// ---- frame handlers: sound log and device status ----

/// The tokens in `[from, to)`, as a fresh list.
pub fn slice_range<'a>(v: &Vec<&'a str>, from: usize, to: usize) -> (r: Vec<&'a str>)
    requires
        from <= to <= v.len(),
    ensures
        r.deep_view() == v.deep_view().subrange(from as int, to as int),
{
    let mut out: Vec<&'a str> = Vec::new();
    let mut i: usize = from;
    while i < to
        invariant
            from <= i <= to <= v.len(),
            out.deep_view() =~= v.deep_view().subrange(from as int, i as int),
        decreases to - i,
    {
        let ghost prev = out.deep_view();
        out.push(v[i]);
        proof {
            assert(out.deep_view() =~= prev.push(v.deep_view()[i as int]));
            assert(prev.push(v.deep_view()[i as int]) =~= v.deep_view().subrange(
                from as int,
                i as int + 1,
            ));
        }
        i = i + 1;
    }
    out
}

/// One sound log applied.  For a device in hydrophone mode the daily
/// analysis session is resolved or created and one sample line appended;
/// a session that cannot be resolved is noted and skipped, and the frame
/// still validates its timestamp.
pub open spec fn sound_applied(
    pre: Directory,
    post: Directory,
    dev: Device,
    ts: Seq<Seq<char>>,
    now: i64,
    r: Result<ResponseCommand, FrameError>,
) -> bool {
    if ts.len() < 6 {
        r == Err::<ResponseCommand, FrameError>(FrameError::ShortFrame) && post == pre
    } else if vars_with_code(pre.vars@, dev.id, "DDE0"@).len() == 0 {
        r == Err::<ResponseCommand, FrameError>(FrameError::MissingVariable) && post == pre
    } else {
        let hydro = match dev.mode {
            Some(m) => m@ == "hydro"@,
            None => false,
        };
        if !hydro {
            match frame_time_of_tokens(ts, 0) {
                None => r == Err::<ResponseCommand, FrameError>(FrameError::BadTimestamp) && post
                    == pre,
                Some(_) => match r {
                    Ok(resp) => post == pre && response_is(
                        resp,
                        MessageMode::ModeLogResponse,
                        "Log de sonido"@,
                        None,
                    ),
                    Err(_) => false,
                },
            }
        } else {
            let ws = window_start(now as int);
            let j = find_session(pre.hydro_sessions@, dev.id, ws, now as int);
            let pushed = j < 0 && pre.hydro_sessions@.len() < i32::MAX;
            let resolved = j >= 0 || pushed;
            let sid = if j >= 0 {
                pre.hydro_sessions@[j].id
            } else {
                (pre.hydro_sessions@.len() + 1) as i32
            };
            &&& post.hydro_sessions@ == (if pushed {
                pre.hydro_sessions@.push(
                    crate::model::HydroSessionRow {
                        id: sid,
                        device_id: dev.id,
                        create_date: now,
                        farm_id: dev.farm_id,
                        pond_id: dev.pond_id,
                    },
                )
            } else {
                pre.hydro_sessions@
            })
            &&& post.devices == pre.devices
            &&& post.vars == pre.vars
            &&& post.device_status == pre.device_status
            &&& post.status_logs == pre.status_logs
            &&& post.var_logs == pre.var_logs
            &&& post.alarms == pre.alarms
            &&& post.pre_alarms == pre.pre_alarms
            &&& post.alarm_history == pre.alarm_history
            &&& if !resolved {
                &&& post.hydro_lines == pre.hydro_lines
                &&& sound_time_checked(ts, r)
            } else if ts.len() < 12 {
                &&& post.hydro_lines == pre.hydro_lines
                &&& r == Err::<ResponseCommand, FrameError>(FrameError::ShortFrame)
            } else {
                let a = ts[11];
                let b = ts[ts.len() - 3];
                if crate::nums::is_decimal_num(a) && crate::nums::is_decimal_num(b) {
                    &&& post.hydro_lines@.len() == pre.hydro_lines@.len() + 1
                    &&& post.hydro_lines@.take(pre.hydro_lines@.len() as int)
                        == pre.hydro_lines@
                    &&& post.hydro_lines@.last().analysis_id == sid
                    &&& post.hydro_lines@.last().sound_a@ == a
                    &&& post.hydro_lines@.last().sound_b@ == b
                    &&& post.hydro_lines@.last().create_date == now
                    &&& post.hydro_lines@.last().hopper_status@ == "full"@
                    &&& sound_time_checked(ts, r)
                } else {
                    &&& post.hydro_lines == pre.hydro_lines
                    &&& r == Err::<ResponseCommand, FrameError>(
                        FrameError::Value(EngineError::NotNumeric),
                    )
                }
            }
        }
    }
}

/// The closing timestamp check of a sound log: an invalid frame date is
/// the error, a valid one yields the audit response.
pub open spec fn sound_time_checked(ts: Seq<Seq<char>>, r: Result<ResponseCommand, FrameError>) -> bool {
    match frame_time_of_tokens(ts, 0) {
        None => r == Err::<ResponseCommand, FrameError>(FrameError::BadTimestamp),
        Some(_) => match r {
            Ok(resp) => response_is(resp, MessageMode::ModeLogResponse, "Log de sonido"@, None),
            Err(_) => false,
        },
    }
}

impl Protocol {
    /// Handle a sound log: in hydrophone mode, resolve the daily analysis
    /// session and append one sound-sample line.
    pub fn log_sound_function(
        &self,
        device: &Device,
        data: &Vec<&str>,
        dir: &mut Directory,
        now: i64,
    ) -> (r: Result<ResponseCommand, FrameError>)
        requires
            now >= 0,
        ensures
            self is MqttNative ==> sound_applied(
                *old(dir),
                *final(dir),
                *device,
                data.deep_view(),
                now,
                r,
            ),
            !(self is MqttNative) ==> r == Err::<ResponseCommand, FrameError>(
                FrameError::Unsupported,
            ) && *final(dir) == *old(dir),
    {
        if !matches!(self, Protocol::MqttNative) {
            return Err(FrameError::Unsupported);
        }
        if data.len() < 6 {
            return Err(FrameError::ShortFrame);
        }
        if self.var_missing(device, dir) {
            return Err(FrameError::MissingVariable);
        }
        let hydro_mode = match &device.mode {
            Some(m) => str_eq(m.as_str(), "hydro"),
            None => false,
        };
        if hydro_mode {
            let start_date = window_start_tick(now);
            proof {
                assert(crate::ftime::day_offset(now - 18000) >= 0);
            }
            match device.get_or_create_hydro_now(start_date, now, dir) {
                Ok(hydro) => {
                    if data.len() < 12 {
                        return Err(FrameError::ShortFrame);
                    }
                    let sound_a = data[11];
                    let sound_b = data[data.len() - 3];
                    proof {
                        assert(data.deep_view()[11] == data@[11 as int]@);
                        assert(data.deep_view()[data.deep_view().len() - 3] == data@[data@.len()
                            - 3]@);
                    }
                    match hydro.create_lines(sound_a, sound_b, now, dir) {
                        Ok(()) => {},
                        Err(e) => {
                            return Err(FrameError::Value(e));
                        },
                    }
                },
                Err(_) => {},
            }
        }
        if FrameTime::from_tokens(data, 0).is_none() {
            return Err(FrameError::BadTimestamp);
        }
        let desc = String::new().concat("Log de sonido");
        Ok((None, MessageMode::ModeLogResponse, desc, None))
    }

    /// Whether the sound-level variable is missing on the device.
    fn var_missing(&self, device: &Device, dir: &Directory) -> (r: bool)
        ensures
            r == (vars_with_code(dir.vars@, device.id, "DDE0"@).len() == 0),
    {
        device.get_variable("DDE0", dir).is_none()
    }
}

} // verus!

verus! {

// ---- frame handler: child device status ----

/// The string-carrying effects of a child status log: the signal date and
/// battery level on the device row, and the status-log row itself.
pub open spec fn status_device_strings(
    pre: Directory,
    post: Directory,
    child: Device,
    t: FrameTime,
    sig: int,
    now: i64,
    bs1: String,
    bs2: String,
    ps: String,
) -> bool {
    let stored = -sig as i64;
    let alarm = crate::status::signal_alarm_of(stored);
    &&& post.devices@ == Directory::with_signal(
        Directory::with_rssi_battery(pre.devices@, child.id, t, bs1),
        child.id,
        alarm,
        stored,
    )
    &&& post.status_logs@ == pre.status_logs@.push(
        crate::model::StatusLogRow {
            create_date: now,
            device_id: child.id,
            timestamp: LogTime::Frame(t),
            temp: 0,
            signal: stored,
            battery: Some(bs2),
            panel: Some(ps),
            farm_id: child.farm_id,
        },
    )
}

/// The state change of one child status log.
pub open spec fn status_device_effects(
    pre: Directory,
    post: Directory,
    child: Device,
    t: FrameTime,
    sig: int,
    bat: Seq<char>,
    pan: Seq<char>,
    now: i64,
) -> bool {
    let stored = -sig as i64;
    let alarm = crate::status::signal_alarm_of(stored);
    let rms = vars_with_code(pre.vars@, child.id, "4442"@);
    &&& post.vars@.len() == pre.vars@.len()
    &&& (if rms.len() > 0 {
        forall|j: int|
            0 <= j < pre.vars@.len() ==> if pre.vars@[j].id == rms[0].id {
                (#[trigger] post.vars@[j]) == crate::model::VarRecord {
                    value: post.vars@[j].value,
                    write_date: Some(now),
                    ..pre.vars@[j]
                } && post.vars@[j].value@ == dec_str_int(sig)
            } else {
                post.vars@[j] == pre.vars@[j]
            }
    } else {
        post.vars == pre.vars
    })
    &&& exists|bs1: String, bs2: String, ps: String|
        #[trigger] status_device_strings(pre, post, child, t, sig, now, bs1, bs2, ps) && bs1@
            == bat && bs2@ == bat && ps@ == pan
    &&& post.alarm_history@ == crate::alarm::history_step(
        pre.alarm_history@,
        Some(child.id),
        AlarmKind::SignalAlarm,
        alarm,
        now,
    )
    &&& post.device_status == pre.device_status
    &&& post.var_logs == pre.var_logs
    &&& post.alarms == pre.alarms
    &&& post.pre_alarms == pre.pre_alarms
    &&& post.hydro_sessions == pre.hydro_sessions
    &&& post.hydro_lines == pre.hydro_lines
}

/// One child status frame applied: the addressed child's battery and
/// panel variables decoded, its signal variable refreshed, its signal
/// date and battery stamped, and a status-log row written.
pub open spec fn status_device_applied(
    pre: Directory,
    post: Directory,
    dev: Device,
    ts: Seq<Seq<char>>,
    now: i64,
    r: Result<ResponseCommand, FrameError>,
) -> bool {
    if ts.len() < 6 {
        r == Err::<ResponseCommand, FrameError>(FrameError::ShortFrame) && post == pre
    } else {
        match frame_time_of_tokens(ts, 0) {
            None => r == Err::<ResponseCommand, FrameError>(FrameError::BadTimestamp) && post
                == pre,
            Some(t) => {
                if ts.len() < 8 {
                    r == Err::<ResponseCommand, FrameError>(FrameError::ShortFrame) && post == pre
                } else {
                    let children = child_list(
                        pre.devices@,
                        dev.id,
                        ProfileKind::Other,
                        dev.protocol,
                        false,
                    );
                    if children.len() == 0 {
                        post == pre && match r {
                            Ok(resp) => response_is(
                                resp,
                                MessageMode::ModeLogResponse,
                                "Log de Status Dispositivo"@,
                                Some(seq![]),
                            ),
                            Err(_) => false,
                        }
                    } else {
                        let pos = crate::codec::tok_i32(ts[6], 16);
                        let sig = crate::codec::tok_i32(ts[7], 16);
                        match ordinal_child(children, pos) {
                            Err(e) => r == Err::<ResponseCommand, FrameError>(e) && post == pre,
                            Ok(child) => {
                                let bms = vars_with_code(pre.vars@, child.id, "0D8D"@);
                                if bms.len() > 0 && ts.len() < 12 {
                                    r == Err::<ResponseCommand, FrameError>(FrameError::ShortFrame)
                                        && post == pre
                                } else {
                                    let bat_res: Result<Seq<char>, DecodeError> = if bms.len()
                                        > 0 {
                                        Var::decoded(bms[0].format@, ts.subrange(8, 12))
                                    } else {
                                        Ok("0"@)
                                    };
                                    match bat_res {
                                        Err(e) => r == Err::<ResponseCommand, FrameError>(
                                            FrameError::Decode(e),
                                        ) && post == pre,
                                        Ok(bat) => {
                                            if bms.len() > 0 && !crate::nums::is_decimal_num(
                                                bat,
                                            ) {
                                                r == Err::<ResponseCommand, FrameError>(
                                                    FrameError::Value(EngineError::NotNumeric),
                                                ) && post == pre
                                            } else {
                                                status_device_panel(
                                                    pre,
                                                    post,
                                                    child,
                                                    t,
                                                    sig,
                                                    bat,
                                                    ts,
                                                    now,
                                                    r,
                                                )
                                            }
                                        },
                                    }
                                }
                            },
                        }
                    }
                }
            },
        }
    }
}

/// The panel half of a child status frame, then the combined effects.
pub open spec fn status_device_panel(
    pre: Directory,
    post: Directory,
    child: Device,
    t: FrameTime,
    sig: int,
    bat: Seq<char>,
    ts: Seq<Seq<char>>,
    now: i64,
    r: Result<ResponseCommand, FrameError>,
) -> bool {
    let pms = vars_with_code(pre.vars@, child.id, "0D86"@);
    if pms.len() > 0 && ts.len() < 16 {
        r == Err::<ResponseCommand, FrameError>(FrameError::ShortFrame) && post == pre
    } else {
        let pan_res: Result<Seq<char>, DecodeError> = if pms.len() > 0 {
            Var::decoded(pms[0].format@, ts.subrange(12, 16))
        } else {
            Ok("0"@)
        };
        match pan_res {
            Err(e) => r == Err::<ResponseCommand, FrameError>(FrameError::Decode(e)) && post
                == pre,
            Ok(pan) => {
                if pms.len() > 0 && !crate::nums::is_decimal_num(pan) {
                    r == Err::<ResponseCommand, FrameError>(
                        FrameError::Value(EngineError::NotNumeric),
                    ) && post == pre
                } else {
                    &&& status_device_effects(pre, post, child, t, sig, bat, pan, now)
                    &&& match r {
                        Ok(resp) => response_is(
                            resp,
                            MessageMode::ModeLogResponse,
                            "Log de Status Dispositivo"@,
                            Some(
                                seq![
                                    ("Dispositivo"@, child.name@),
                                    ("Senal"@, dec_str_int(sig)),
                                    ("Bateria"@, bat),
                                    ("Panel"@, pan),
                                ],
                            ),
                        ),
                        Err(_) => false,
                    }
                }
            },
        }
    }
}

impl Protocol {
    /// Handle a child status frame.
    pub fn log_status_device_function(
        &self,
        device: &Device,
        data: &Vec<&str>,
        dir: &mut Directory,
        now: i64,
    ) -> (r: Result<ResponseCommand, FrameError>)
        ensures
            self is MqttNative ==> status_device_applied(
                *old(dir),
                *final(dir),
                *device,
                data.deep_view(),
                now,
                r,
            ),
            !(self is MqttNative) ==> r == Err::<ResponseCommand, FrameError>(
                FrameError::Unsupported,
            ) && *final(dir) == *old(dir),
    {
        if !matches!(self, Protocol::MqttNative) {
            return Err(FrameError::Unsupported);
        }
        if data.len() < 6 {
            return Err(FrameError::ShortFrame);
        }
        let timestamp = match FrameTime::from_tokens(data, 0) {
            Some(t) => t,
            None => {
                return Err(FrameError::BadTimestamp);
            },
        };
        if data.len() < 8 {
            return Err(FrameError::ShortFrame);
        }
        let children = match device.get_children_devices(dir) {
            Some(c) => c,
            None => {
                let desc = String::new().concat("Log de Status Dispositivo");
                let placeholder: Vec<(String, String)> = Vec::new();
                return Ok((None, MessageMode::ModeLogResponse, desc, Some(placeholder)));
            },
        };
        let device_position = str_to_int(data[6], 16);
        let signal = str_to_int(data[7], 16);
        proof {
            assert(data.deep_view()[6] == data@[6 as int]@);
            assert(data.deep_view()[7] == data@[7 as int]@);
        }
        let child = match child_at(&children, device_position) {
            Ok(c) => c,
            Err(e) => {
                return Err(e);
            },
        };
        let battery: String = match child.get_variable("0D8D", dir) {
            Some(bv) => {
                if data.len() < 12 {
                    return Err(FrameError::ShortFrame);
                }
                let toks = slice_range(data, 8, 12);
                match bv.decode_tokens(&toks) {
                    Ok(s) => {
                        if !crate::nums::is_decimal_num_exec(s.as_str()) {
                            return Err(FrameError::Value(EngineError::NotNumeric));
                        }
                        s
                    },
                    Err(e) => {
                        return Err(FrameError::Decode(e));
                    },
                }
            },
            None => {
                proof {
                    reveal_strlit("0");
                }
                let z = String::new().concat("0");
                proof {
                    assert(z@ =~= "0"@);
                }
                z
            },
        };
        let panel: String = match child.get_variable("0D86", dir) {
            Some(pv) => {
                if data.len() < 16 {
                    return Err(FrameError::ShortFrame);
                }
                let toks = slice_range(data, 12, 16);
                match pv.decode_tokens(&toks) {
                    Ok(s) => {
                        if !crate::nums::is_decimal_num_exec(s.as_str()) {
                            return Err(FrameError::Value(EngineError::NotNumeric));
                        }
                        s
                    },
                    Err(e) => {
                        return Err(FrameError::Decode(e));
                    },
                }
            },
            None => {
                proof {
                    reveal_strlit("0");
                }
                let z = String::new().concat("0");
                proof {
                    assert(z@ =~= "0"@);
                }
                z
            },
        };
        let mut placeholder: Vec<(String, String)> = Vec::new();
        placeholder.push((String::new().concat("Dispositivo"), child.name.clone()));
        placeholder.push((String::new().concat("Senal"), crate::nums::i32_to_dec(signal)));
        placeholder.push((String::new().concat("Bateria"), battery.clone()));
        placeholder.push((String::new().concat("Panel"), panel.clone()));
        let signal_str = crate::nums::i32_to_dec(signal);
        match child.get_variable("4442", dir) {
            Some(v4) => {
                v4.update(signal_str.as_str(), dir, now);
            },
            None => {},
        }
        let ghost bs1 = battery;
        child.update_rssi_battery_timestamp(dir, &timestamp, battery.clone());
        let ghost bs2 = battery;
        let ghost ps = panel;
        child.insert_status_log(
            LogTime::Frame(timestamp),
            None,
            signal,
            Some(battery),
            Some(panel),
            dir,
            now,
        );
        proof {
            assert(status_device_strings(
                *old(dir),
                *dir,
                *child,
                timestamp,
                signal as int,
                now,
                bs1,
                bs2,
                ps,
            ));
        }
        let desc = String::new().concat("Log de Status Dispositivo");
        Ok((None, MessageMode::ModeLogResponse, desc, Some(placeholder)))
    }
}

} // verus!

verus! {

// ---- frame handler: read response ----

/// The settings reconciliation restated as a relation between states.
pub open spec fn seteo_rel(
    pre: Directory,
    post: Directory,
    dev_id: i32,
    code: Seq<char>,
    value: Seq<char>,
    now: i64,
    ok: bool,
) -> bool {
    if code != "0C03"@ {
        ok && post == pre
    } else {
        let items = multiple_vars_of(pre.vars@, dev_id, code + seq![':']);
        let hexval = crate::nums::parse_or_zero(
            value.filter(|c: char| c != ' '),
            16,
            i64::MIN as int,
            i64::MAX as int,
        ) as i64;
        &&& same_but_vars(post, pre)
        &&& if ok {
            (forall|k: int| 0 <= k < items.len() ==> crate::model::seteo_ok(#[trigger] items[k]))
                && crate::model::var_views(post.vars@) == crate::model::seteo_fold(
                crate::model::var_views(pre.vars@),
                items,
                hexval,
                now,
            )
        } else {
            exists|k: int|
                {
                    &&& 0 <= k < items.len()
                    &&& !crate::model::seteo_ok(#[trigger] items[k])
                    &&& forall|j: int|
                        0 <= j < k ==> crate::model::seteo_ok(#[trigger] items[j])
                    &&& crate::model::var_views(post.vars@) == crate::model::seteo_fold(
                        crate::model::var_views(pre.vars@),
                        items.take(k),
                        hexval,
                        now,
                    )
                }
        }
    }
}

/// Whether the settings reconciliation will go through for this decoded
/// value and device.
pub open spec fn seteo_all_ok(pre: Directory, dev_id: i32, code: Seq<char>) -> bool {
    code != "0C03"@ || forall|k: int|
        0 <= k < multiple_vars_of(pre.vars@, dev_id, code + seq![':']).len()
            ==> crate::model::seteo_ok(#[trigger] multiple_vars_of(pre.vars@, dev_id, code + seq![':'])[k])
}

/// A variable row value rewrite restated as a relation between states.
pub open spec fn varupd_rel(
    pre: Directory,
    post: Directory,
    var_id: i32,
    value: Seq<char>,
    now: i64,
) -> bool {
    &&& same_but_vars(post, pre)
    &&& post.vars@.len() == pre.vars@.len()
    &&& forall|j: int|
        0 <= j < pre.vars@.len() ==> if pre.vars@[j].id == var_id {
            (#[trigger] post.vars@[j]) == crate::model::VarRecord {
                value: post.vars@[j].value,
                write_date: Some(now),
                ..pre.vars@[j]
            } && post.vars@[j].value@ == value
        } else {
            post.vars@[j] == pre.vars@[j]
        }
}

/// The fetch mirror restated as a relation, for a value already known to
/// be numeric.
pub open spec fn fetch_ok_rel(
    pre: Directory,
    post: Directory,
    dev: Device,
    code: Option<Seq<char>>,
    value: Seq<char>,
    now: i64,
) -> bool {
    if code == Some("0D86"@) {
        exists|b: String|
            #![auto]
            b@ == value && crate::status::fetch_applied(pre, post, dev.id, dev.farm_id, b, now)
    } else {
        post == pre
    }
}

/// The view of a variable's code.
pub open spec fn code_view(code: Option<String>) -> Option<Seq<char>> {
    match code {
        Some(c) => Some(c@),
        None => None,
    }
}

/// A read-response step that stopped inside the settings reconciliation.
pub open spec fn read_step_seteo_err(
    pre: Directory,
    post: Directory,
    dev: Device,
    code: Seq<char>,
    val: Seq<char>,
    now: i64,
) -> bool {
    exists|mid1: Directory|
        #[trigger] seteo_rel(pre, mid1, dev.id, code, val, now, false) && post == mid1
}

/// A read-response step that wrote the variable back and then stopped on
/// a value that is not numeric.
pub open spec fn read_step_value_err(
    pre: Directory,
    post: Directory,
    dev: Device,
    code: Seq<char>,
    val: Seq<char>,
    var_id: i32,
    now: i64,
) -> bool {
    exists|mid1: Directory, mid2: Directory|
        seteo_rel(pre, mid1, dev.id, code, val, now, true) && #[trigger] varupd_rel(
            mid1,
            mid2,
            var_id,
            val,
            now,
        ) && post == mid2
}

/// One read response consumed from position `pos` on: each field names a
/// variable by code, is sliced to the variable's size, decoded, checked
/// against the settings bytes, written back and mirrored; an unknown code
/// ends the frame quietly, a structural error ends it with what was
/// already written kept.
pub open spec fn read_rel(
    pre: Directory,
    post: Directory,
    ts: Seq<Seq<char>>,
    pos: int,
    dev: Device,
    now: i64,
    ok: bool,
) -> bool
    decreases ts.len() - pos, 0int,
{
    if pos < 0 {
        false
    } else if pos >= ts.len() {
        ok && post == pre
    } else if pos + 2 > ts.len() {
        !ok && post == pre
    } else {
        let code = join_with(ts.subrange(pos, pos + 2), Seq::empty());
        let ms = vars_with_code(pre.vars@, dev.id, code);
        if ms.len() == 0 {
            ok && post == pre
        } else {
            let v = var_of(ms[0]);
            let sz = v.size as int;
            if sz < 1 || pos + 2 + sz > ts.len() {
                !ok && post == pre
            } else {
                match Var::decoded(v.format@, ts.subrange(pos + 2, pos + 2 + sz)) {
                    Err(_) => !ok && post == pre,
                    Ok(val) => {
                        if !seteo_all_ok(pre, dev.id, code) {
                            !ok && read_step_seteo_err(pre, post, dev, code, val, now)
                        } else if !crate::nums::is_decimal_num(val) {
                            !ok && read_step_value_err(pre, post, dev, code, val, v.id, now)
                        } else {
                            read_step_chain(
                                pre,
                                post,
                                ts,
                                pos + 2 + sz,
                                dev,
                                code,
                                val,
                                v.id,
                                code_view(v.code),
                                now,
                                ok,
                            )
                        }
                    },
                }
            }
        }
    }
}

/// A completed read-response step: the reconciliation, the write-back,
/// the fetch mirror, and the rest of the frame from `pos_next`.
pub open spec fn read_step_chain(
    pre: Directory,
    post: Directory,
    ts: Seq<Seq<char>>,
    pos_next: int,
    dev: Device,
    code: Seq<char>,
    val: Seq<char>,
    var_id: i32,
    var_code: Option<Seq<char>>,
    now: i64,
    ok: bool,
) -> bool
    decreases ts.len() - pos_next, 1int,
{
    exists|mid1: Directory, mid2: Directory, mid3: Directory|
        #![trigger varupd_rel(mid1, mid2, var_id, val, now), fetch_ok_rel(mid2, mid3, dev, var_code, val, now)]
        {
            &&& seteo_rel(pre, mid1, dev.id, code, val, now, true)
            &&& varupd_rel(mid1, mid2, var_id, val, now)
            &&& fetch_ok_rel(mid2, mid3, dev, var_code, val, now)
            &&& read_rel(mid3, post, ts, pos_next, dev, now, ok)
        }
}

impl Protocol {
    /// Consume one read-response frame from `pos` on, collecting display
    /// pairs.
    fn read_response_at(
        &self,
        device: &Device,
        data: &Vec<&str>,
        pos: usize,
        tooltip: &mut Vec<(String, String)>,
        dir: &mut Directory,
        now: i64,
    ) -> (r: Result<(), FrameError>)
        ensures
            read_rel(*old(dir), *final(dir), data.deep_view(), pos as int, *device, now, r is Ok),
        decreases data.len() - pos,
    {
        if pos >= data.len() {
            return Ok(());
        }
        if data.len() - pos < 2 {
            return Err(FrameError::ShortFrame);
        }
        let ghost dv = data.deep_view();
        let ghost codev = join_with(dv.subrange(pos as int, pos as int + 2), Seq::<char>::empty());
        let code = join_range(data, pos, pos + 2, "");
        proof {
            reveal_strlit("");
            assert(""@ =~= Seq::<char>::empty());
            assert(code@ == codev);
        }
        let ghost pre = *dir;
        let var = match device.get_variable(code.as_str(), dir) {
            Some(v) => v,
            None => {
                return Ok(());
            },
        };
        let ghost msv = vars_with_code(pre.vars@, device.id, codev);
        proof {
            assert(var == var_of(msv[0]));
        }
        if var.size < 1 {
            return Err(FrameError::ShortFrame);
        }
        let var_len = var.size as usize;
        if var_len > data.len() - (pos + 2) {
            return Err(FrameError::ShortFrame);
        }
        let toks = slice_range(data, pos + 2, pos + 2 + var_len);
        let decoded = match var.decode_tokens(&toks) {
            Ok(s) => s,
            Err(e) => {
                return Err(FrameError::Decode(e));
            },
        };
        let ghost valv = decoded@;
        proof {
            assert(Var::decoded(var_of(msv[0]).format@, dv.subrange(
                pos as int + 2,
                pos as int + 2 + var_of(msv[0]).size as int,
            )) == Ok::<Seq<char>, DecodeError>(valv));
        }
        match device.verify_bytes_seteo(code.as_str(), decoded.as_str(), dir, now) {
            Ok(()) => {},
            Err(_) => {
                proof {
                    assert(seteo_rel(pre, *dir, device.id, codev, valv, now, false));
                    assert(!seteo_all_ok(pre, device.id, codev));
                    assert(read_step_seteo_err(pre, *dir, *device, codev, valv, now));
                    assert(read_rel(pre, *dir, dv, pos as int, *device, now, false));
                }
                return Err(FrameError::Value(EngineError::BadVarCode));
            },
        }
        let ghost mid1 = *dir;
        proof {
            assert(seteo_rel(pre, mid1, device.id, codev, valv, now, true));
            assert(seteo_all_ok(pre, device.id, codev));
        }
        var.update(decoded.as_str(), dir, now);
        let ghost mid2 = *dir;
        proof {
            assert(varupd_rel(mid1, mid2, var_of(msv[0]).id, valv, now));
        }
        match device.create_logs_from_fetch(&var, &decoded, dir, now) {
            Ok(()) => {},
            Err(e) => {
                proof {
                    assert(!crate::nums::is_decimal_num(valv));
                    assert(read_step_value_err(pre, *dir, *device, codev, valv, var_of(msv[0]).id, now));
                    assert(read_rel(pre, *dir, dv, pos as int, *device, now, false));
                }
                return Err(FrameError::Value(e));
            },
        }
        let ghost mid3 = *dir;
        proof {
            assert(crate::nums::is_decimal_num(valv));
            assert(fetch_ok_rel(mid2, mid3, *device, code_view(var_of(msv[0]).code), valv, now));
        }
        tooltip.push((var.name, decoded));
        let r = self.read_response_at(device, data, pos + 2 + var_len, tooltip, dir, now);
        proof {
            assert(read_rel(
                mid3,
                *dir,
                dv,
                pos as int + 2 + var_of(msv[0]).size as int,
                *device,
                now,
                r is Ok,
            ));
            assert(read_step_chain(
                pre,
                *dir,
                dv,
                pos as int + 2 + var_of(msv[0]).size as int,
                *device,
                codev,
                valv,
                var_of(msv[0]).id,
                code_view(var_of(msv[0]).code),
                now,
                r is Ok,
            ));
            assert(read_rel(pre, *dir, dv, pos as int, *device, now, r is Ok));
        }
        r
    }

    /// Parse a read response: decode and store each reported variable.
    pub fn read_response_function(
        &self,
        device: &Device,
        data: &Vec<&str>,
        dir: &mut Directory,
        now: i64,
    ) -> (r: Result<ResponseCommand, FrameError>)
        ensures
            data.deep_view().len() == 0 ==> r is Err && *final(dir) == *old(dir),
            data.deep_view().len() > 0 ==> ({
                &&& read_rel(
                    *old(dir),
                    *final(dir),
                    data.deep_view(),
                    1,
                    *device,
                    now,
                    r is Ok,
                )
                &&& match r {
                    Ok(resp) => resp.0 is None && resp.1 == MessageMode::ModeReadResponse
                        && resp.2@ == "Respuesta de Lectura"@,
                    Err(_) => true,
                }
            }),
    {
        if data.len() == 0 {
            return Err(FrameError::ShortFrame);
        }
        let mut tooltip: Vec<(String, String)> = Vec::new();
        match self.read_response_at(device, data, 1, &mut tooltip, dir, now) {
            Ok(()) => {},
            Err(e) => {
                return Err(e);
            },
        }
        let desc = String::new().concat("Respuesta de Lectura");
        let placeholder = if tooltip.len() == 0 {
            None
        } else {
            Some(tooltip)
        };
        Ok((None, MessageMode::ModeReadResponse, desc, placeholder))
    }
}

} // verus!

verus! {

// ---- the recovery envelope and the dispatch entry ----

/// The audit response of a recovered frame: state updated, audit skipped.
pub open spec fn recovery_response(r: Result<ResponseCommand, FrameError>) -> bool {
    match r {
        Ok(resp) => response_is(resp, MessageMode::LogRecovery, ""@, None),
        Err(_) => false,
    }
}

/// A recovered frame applied: the embedded sub-frame re-enters the
/// dispatch table and updates state as live traffic would, but the
/// result reports the recovery mode so no audit trail is written.
pub open spec fn recovery_applied(
    pre: Directory,
    post: Directory,
    dev: Device,
    ts: Seq<Seq<char>>,
    now: i64,
    r: Result<ResponseCommand, FrameError>,
) -> bool {
    if ts.len() < 3 {
        r == Err::<ResponseCommand, FrameError>(FrameError::ShortFrame) && post == pre
    } else {
        let rest = ts.skip(3);
        match opcode_of(ts[0]) {
            Op::ReadResponse => if rest.len() == 0 {
                r is Err && post == pre
            } else {
                match r {
                    Ok(_) => recovery_response(r) && read_rel(pre, post, rest, 1, dev, now, true),
                    Err(_) => read_rel(pre, post, rest, 1, dev, now, false),
                }
            },
            Op::FeedLog => match r {
                Ok(_) => recovery_response(r) && exists|ir: ResponseCommand|
                    #[trigger] feed_log_applied(pre, post, dev, rest, now, Ok(ir)),
                Err(e) => feed_log_applied(pre, post, dev, rest, now, Err(e)),
            },
            Op::FeedLogConfirmation => match r {
                Ok(_) => recovery_response(r) && exists|ir: ResponseCommand|
                    #[trigger] feed_confirmation_applied(pre, post, dev, rest, now, Ok(ir)),
                Err(e) => feed_confirmation_applied(pre, post, dev, rest, now, Err(e)),
            },
            Op::AlarmLog => match r {
                Ok(_) => recovery_response(r) && exists|ir: ResponseCommand|
                    #[trigger] alarm_log_applied(pre, post, dev, rest, now, Ok(ir)),
                Err(e) => alarm_log_applied(pre, post, dev, rest, now, Err(e)),
            },
            Op::StatusDevice => match r {
                Ok(_) => recovery_response(r) && exists|ir: ResponseCommand|
                    #[trigger] status_device_applied(pre, post, dev, rest, now, Ok(ir)),
                Err(e) => status_device_applied(pre, post, dev, rest, now, Err(e)),
            },
            Op::StatusUc => match r {
                Ok(_) => recovery_response(r) && exists|ir: ResponseCommand|
                    #[trigger] status_uc_applied(pre, post, dev, rest, now, Ok(ir)),
                Err(e) => status_uc_applied(pre, post, dev, rest, now, Err(e)),
            },
            Op::SoundLog => match r {
                Ok(_) => recovery_response(r) && exists|ir: ResponseCommand|
                    #[trigger] sound_applied(pre, post, dev, rest, now, Ok(ir)),
                Err(e) => sound_applied(pre, post, dev, rest, now, Err(e)),
            },
            Op::DosageHydro => post == pre && match r {
                Ok(_) => recovery_response(r) && exists|ir: ResponseCommand|
                    #[trigger] dosage_applied(pre, dev, rest, Ok(ir)),
                Err(e) => dosage_applied(pre, dev, rest, Err(e)),
            },
            Op::AssignResponse => match r {
                Ok(_) => recovery_response(r) && exists|ir: ResponseCommand|
                    #[trigger] assign_applied(pre, post, dev, rest, Ok(ir)),
                Err(e) => assign_applied(pre, post, dev, rest, Err(e)),
            },
            Op::ReadVarsOther => r == Err::<ResponseCommand, FrameError>(FrameError::Unsupported)
                && post == pre,
            Op::WriteVarsOther => r == Err::<ResponseCommand, FrameError>(FrameError::Unsupported)
                && post == pre,
            Op::AccumulationDay => r == Err::<ResponseCommand, FrameError>(
                FrameError::Unsupported,
            ) && post == pre,
            Op::Rssi => r == Err::<ResponseCommand, FrameError>(FrameError::Unsupported) && post
                == pre,
            Op::SoundX2 => r == Err::<ResponseCommand, FrameError>(FrameError::Unsupported)
                && post == pre,
            Op::SensorDoTemp => r == Err::<ResponseCommand, FrameError>(FrameError::Unsupported)
                && post == pre,
            _ => recovery_response(r) && post == pre,
        }
    }
}

impl Protocol {
    /// Handle a recovery envelope: strip its header and re-dispatch the
    /// embedded frame, reporting the recovery mode.
    pub fn log_recovery_function(
        &self,
        device: &Device,
        data: &Vec<&str>,
        dir: &mut Directory,
        now: i64,
    ) -> (r: Result<ResponseCommand, FrameError>)
        requires
            now >= 0,
        ensures
            self is MqttNative ==> recovery_applied(
                *old(dir),
                *final(dir),
                *device,
                data.deep_view(),
                now,
                r,
            ),
            !(self is MqttNative) ==> r == Err::<ResponseCommand, FrameError>(
                FrameError::Unsupported,
            ) && *final(dir) == *old(dir),
    {
        if !matches!(self, Protocol::MqttNative) {
            return Err(FrameError::Unsupported);
        }
        if data.len() < 3 {
            return Err(FrameError::ShortFrame);
        }
        let command = data[0];
        let real_data = slice_tokens(data, 3);
        proof {
            assert(data.deep_view()[0] == data@[0 as int]@);
        }
        let op = opcode_exec(command);
        match op {
            Op::ReadResponse => {
                match self.read_response_function(device, &real_data, dir, now) {
                    Ok(ir) => {},
                    Err(e) => {
                        return Err(e);
                    },
                }
            },
            Op::FeedLog => {
                match self.feed_log_function(device, &real_data, dir, now) {
                    Ok(ir) => {},
                    Err(e) => {
                        return Err(e);
                    },
                }
            },
            Op::FeedLogConfirmation => {
                match self.feed_log_confirmation_function(device, &real_data, dir, now) {
                    Ok(ir) => {},
                    Err(e) => {
                        return Err(e);
                    },
                }
            },
            Op::AlarmLog => {
                match self.log_alarms_function(device, &real_data, dir, now) {
                    Ok(ir) => {},
                    Err(e) => {
                        return Err(e);
                    },
                }
            },
            Op::StatusDevice => {
                match self.log_status_device_function(device, &real_data, dir, now) {
                    Ok(ir) => {},
                    Err(e) => {
                        return Err(e);
                    },
                }
            },
            Op::StatusUc => {
                match self.log_status_uc_function(device, &real_data, dir, now) {
                    Ok(ir) => {},
                    Err(e) => {
                        return Err(e);
                    },
                }
            },
            Op::SoundLog => {
                match self.log_sound_function(device, &real_data, dir, now) {
                    Ok(ir) => {},
                    Err(e) => {
                        return Err(e);
                    },
                }
            },
            Op::DosageHydro => {
                match self.log_dosage_hydro_function(device, &real_data, dir) {
                    Ok(ir) => {},
                    Err(e) => {
                        return Err(e);
                    },
                }
            },
            Op::AssignResponse => {
                match self.assign_device_response_function(device, &real_data, dir) {
                    Ok(ir) => {},
                    Err(e) => {
                        return Err(e);
                    },
                }
            },
            Op::ReadVarsOther => {
                return Err(FrameError::Unsupported);
            },
            Op::WriteVarsOther => {
                return Err(FrameError::Unsupported);
            },
            Op::AccumulationDay => {
                return Err(FrameError::Unsupported);
            },
            Op::Rssi => {
                return Err(FrameError::Unsupported);
            },
            Op::SoundX2 => {
                return Err(FrameError::Unsupported);
            },
            Op::SensorDoTemp => {
                return Err(FrameError::Unsupported);
            },
            Op::HydrophoneTrouble => {
                let _ignored = self.hydrophone_error_function();
            },
            Op::XbeeTrouble => {
                let _ignored = self.xbee_error_function();
            },
            _ => {
                let _ignored = ack_response_function();
            },
        }
        let empty_desc = String::new();
        proof {
            reveal_strlit("");
            assert(empty_desc@ =~= ""@);
        }
        Ok((None, MessageMode::LogRecovery, empty_desc, None))
    }

    /// Dispatch one frame by its opcode: response and log packets route
    /// to their handlers, anything unmatched acknowledges without state
    /// change.
    pub fn process_packet(
        &self,
        device: &Device,
        data: &Vec<&str>,
        dir: &mut Directory,
        now: i64,
    ) -> (r: Result<ResponseCommand, FrameError>)
        requires
            now >= 0,
        ensures
            dispatch_applied(*old(dir), *final(dir), *self, *device, data.deep_view(), now, r),
    {
        proof {
            reveal(dispatch_applied);
        }
        if data.len() == 0 {
            return Err(FrameError::ShortFrame);
        }
        let command = data[0];
        proof {
            assert(data.deep_view()[0] == data@[0 as int]@);
        }
        let real_data = if data.len() > 3 {
            slice_tokens(data, 3)
        } else {
            slice_tokens(data, 0)
        };
        proof {
            if data@.len() <= 3 {
                assert(data.deep_view().skip(0) =~= data.deep_view());
            }
        }
        let op = opcode_exec(command);
        match op {
            Op::FeedLog => self.feed_log_function(device, &real_data, dir, now),
            Op::AlarmLog => self.log_alarms_function(device, &real_data, dir, now),
            Op::StatusDevice => self.log_status_device_function(device, &real_data, dir, now),
            Op::SoundLog => self.log_sound_function(device, &real_data, dir, now),
            Op::Recovery => {
                let stripped = slice_tokens(data, 1);
                self.log_recovery_function(device, &stripped, dir, now)
            },
            Op::MacAddress => self.mac_address_response_function(device, &real_data, dir),
            Op::Ping => self.ping_function(device, dir),
            _ => Ok(ack_response_function()),
        }
    }
}

/// One frame dispatched: the live table routes seven opcodes; a variant
/// that does not implement an operation refuses it; everything else
/// acknowledges without state change.
#[verifier::opaque]
pub open spec fn dispatch_applied(
    pre: Directory,
    post: Directory,
    proto: Protocol,
    dev: Device,
    ts: Seq<Seq<char>>,
    now: i64,
    r: Result<ResponseCommand, FrameError>,
) -> bool {
    if ts.len() == 0 {
        r == Err::<ResponseCommand, FrameError>(FrameError::ShortFrame) && post == pre
    } else {
        let rest = if ts.len() > 3 {
            ts.skip(3)
        } else {
            ts
        };
        let op = opcode_of(ts[0]);
        if proto is MqttNative {
            match op {
                Op::FeedLog => feed_log_applied(pre, post, dev, rest, now, r),
                Op::AlarmLog => alarm_log_applied(pre, post, dev, rest, now, r),
                Op::StatusDevice => status_device_applied(pre, post, dev, rest, now, r),
                Op::SoundLog => sound_applied(pre, post, dev, rest, now, r),
                Op::Recovery => recovery_applied(pre, post, dev, ts.skip(1), now, r),
                Op::MacAddress => mac_response_applied(pre, post, dev, rest, r),
                Op::Ping => ping_response_applied(pre, post, dev, r),
                _ => post == pre && match r {
                    Ok(resp) => ack_response(resp),
                    Err(_) => false,
                },
            }
        } else {
            match op {
                Op::FeedLog => r == Err::<ResponseCommand, FrameError>(FrameError::Unsupported)
                    && post == pre,
                Op::AlarmLog => r == Err::<ResponseCommand, FrameError>(FrameError::Unsupported)
                    && post == pre,
                Op::StatusDevice => r == Err::<ResponseCommand, FrameError>(
                    FrameError::Unsupported,
                ) && post == pre,
                Op::SoundLog => r == Err::<ResponseCommand, FrameError>(FrameError::Unsupported)
                    && post == pre,
                Op::Recovery => r == Err::<ResponseCommand, FrameError>(FrameError::Unsupported)
                    && post == pre,
                Op::MacAddress => r == Err::<ResponseCommand, FrameError>(
                    FrameError::Unsupported,
                ) && post == pre,
                Op::Ping => r == Err::<ResponseCommand, FrameError>(FrameError::Unsupported)
                    && post == pre,
                _ => post == pre && match r {
                    Ok(resp) => ack_response(resp),
                    Err(_) => false,
                },
            }
        }
    }
}

} // verus!

verus! {

// ---- the ingestion entry ----

/// Why an inbound pair could not be routed at all.
#[derive(Clone, Copy, PartialEq, Eq, Structural, Debug)]
pub enum IngestError {
    /// The topic has too few segments for its family.
    ShortTopic,
    /// The payload is too short to carry the address.
    ShortPayload,
    /// The topic names no known protocol family.
    UnknownFamily,
    /// The frame failed in its handler.
    Frame(FrameError),
}

/// The liveness stamp of one device.
pub open spec fn comm_stamped(pre: Directory, post: Directory, id: i32, now: i64) -> bool {
    &&& same_but_devices(post, pre)
    &&& post.devices@ == Directory::with_last_comm(pre.devices@, seq![id], now)
}

/// One inbound pair processed end to end: the hardware address resolved
/// from the topic or payload, the device looked up, the frame dispatched
/// for its protocol variant, and the device's liveness stamped.
pub open spec fn ingest_applied(
    pre: Directory,
    post: Directory,
    topic: Seq<char>,
    payload: Seq<char>,
    now: i64,
    r: Result<Option<ResponseCommand>, IngestError>,
) -> bool {
    let topics = split_by(topic, '/');
    let toks = split_by(payload, ' ');
    if topics.len() < 2 {
        r == Err::<Option<ResponseCommand>, IngestError>(IngestError::ShortTopic) && post == pre
    } else if topics[1] == "x2"@ {
        if toks.len() < 12 {
            r == Err::<Option<ResponseCommand>, IngestError>(IngestError::ShortPayload) && post
                == pre
        } else {
            resolved_applied(pre, post, join_with(toks.subrange(4, 12), Seq::empty()), toks, now, r)
        }
    } else if topics[1] == "uc"@ {
        if topics.len() < 4 {
            r == Err::<Option<ResponseCommand>, IngestError>(IngestError::ShortTopic) && post
                == pre
        } else {
            resolved_applied(pre, post, topics[3], toks, now, r)
        }
    } else {
        r == Err::<Option<ResponseCommand>, IngestError>(IngestError::UnknownFamily) && post == pre
    }
}

/// The address resolved and the frame dispatched: an unknown address
/// drops the frame; a known device of the native variant dispatches and
/// is stamped alive; any other variant is only stamped alive.
pub open spec fn resolved_applied(
    pre: Directory,
    post: Directory,
    addr: Seq<char>,
    toks: Seq<Seq<char>>,
    now: i64,
    r: Result<Option<ResponseCommand>, IngestError>,
) -> bool {
    let ms = crate::model::devices_with_address(pre.devices@, addr);
    if ms.len() != 1 {
        r == Ok::<Option<ResponseCommand>, IngestError>(None) && post == pre
    } else {
        let dd = crate::model::device_of(ms[0]);
        if dd.protocol@ == "protocol.mqtt"@ {
            match r {
                Ok(Some(resp)) => exists|mid: Directory|
                    #[trigger] dispatch_applied(
                        pre,
                        mid,
                        Protocol::MqttNative,
                        dd,
                        toks,
                        now,
                        Ok(resp),
                    ) && comm_stamped(mid, post, dd.id, now),
                Ok(None) => false,
                Err(IngestError::Frame(e)) => dispatch_applied(
                    pre,
                    post,
                    Protocol::MqttNative,
                    dd,
                    toks,
                    now,
                    Err(e),
                ),
                Err(_) => false,
            }
        } else {
            r == Ok::<Option<ResponseCommand>, IngestError>(None) && comm_stamped(
                pre,
                post,
                dd.id,
                now,
            )
        }
    }
}

/// Process one inbound publish: resolve the device, dispatch the frame,
/// stamp liveness.  A handler failure keeps the writes issued before it
/// and skips the liveness stamp, the way an aborted frame would.
#[verifier::rlimit(100)]
#[verifier::spinoff_prover]
pub fn process_packet(payload: &str, topic: &str, dir: &mut Directory, now: i64) -> (r: Result<
    Option<ResponseCommand>,
    IngestError,
>)
    requires
        now >= 0,
    ensures
        ingest_applied(*old(dir), *final(dir), topic@, payload@, now, r),
{
    let ghost topicsv = split_by(topic@, '/');
    let ghost toksv = split_by(payload@, ' ');
    let topic_sp = split_str(topic, '/');
    let payload_sp = split_str(payload, ' ');
    if topic_sp.len() < 2 {
        return Err(IngestError::ShortTopic);
    }
    let ghost mut addrv: Seq<char> = Seq::empty();
    let address: String = if str_eq(topic_sp[1], "x2") {
        if payload_sp.len() < 12 {
            return Err(IngestError::ShortPayload);
        }
        let a = join_range(&payload_sp, 4, 12, "");
        proof {
            reveal_strlit("");
            assert(""@ =~= Seq::<char>::empty());
            addrv = join_with(toksv.subrange(4, 12), Seq::empty());
            assert(a@ == addrv);
        }
        a
    } else if str_eq(topic_sp[1], "uc") {
        if topic_sp.len() < 4 {
            return Err(IngestError::ShortTopic);
        }
        let a = String::new().concat(topic_sp[3]);
        proof {
            addrv = topicsv[3];
            assert(a@ =~= topic_sp.deep_view()[3]);
            assert(a@ == addrv);
        }
        a
    } else {
        return Err(IngestError::UnknownFamily);
    };
    let ghost pre0 = *dir;
    let ghost mut midg: Directory = *dir;
    let option_device = crate::model::get_device(address, dir);
    let result: Result<Option<ResponseCommand>, IngestError> = match option_device {
        Some(dd) => {
            if str_eq(dd.protocol.as_str(), "protocol.mqtt") {
                match Protocol::MqttNative.process_packet(&dd, &payload_sp, dir, now) {
                    Ok(resp) => {
                        proof {
                            midg = *dir;
                        }
                        dd.update_communication(dir, now);
                        proof {
                            assert(comm_stamped(midg, *dir, dd.id, now));
                        }
                        Ok(Some(resp))
                    },
                    Err(e) => Err(IngestError::Frame(e)),
                }
            } else {
                dd.update_communication(dir, now);
                Ok(None)
            }
        },
        None => Ok(None),
    };
    proof {
        let ms = crate::model::devices_with_address(pre0.devices@, addrv);
        if ms.len() == 1 {
            let dd2 = crate::model::device_of(ms[0]);
            if dd2.protocol@ == "protocol.mqtt"@ {
                match result {
                    Ok(ref o) => {
                        match o {
                            Some(resp) => {
                                assert(dispatch_applied(
                                    pre0,
                                    midg,
                                    Protocol::MqttNative,
                                    dd2,
                                    toksv,
                                    now,
                                    Ok(*resp),
                                ) && comm_stamped(midg, *dir, dd2.id, now));
                            },
                            None => {
                                assert(false);
                            },
                        }
                    },
                    Err(ref e0) => {
                        match e0 {
                            IngestError::Frame(e) => {
                                assert(dispatch_applied(
                                    pre0,
                                    *dir,
                                    Protocol::MqttNative,
                                    dd2,
                                    toksv,
                                    now,
                                    Err(*e),
                                ));
                            },
                            _ => {
                                assert(false);
                            },
                        }
                    },
                }
            } else {
                assert(comm_stamped(pre0, *dir, dd2.id, now));
                assert(result == Ok::<Option<ResponseCommand>, IngestError>(None));
            }
        } else {
            assert(*dir == pre0);
        }
        assert(resolved_applied(pre0, *dir, addrv, toksv, now, result));
        assert(ingest_applied(*old(dir), *dir, topic@, payload@, now, result));
    }
    result
}

} // verus!
