use vstd::prelude::*;

verus! {

use crate::errors::FanError;

/// One raw IPMI request: a network function code, a command code, and a
/// data payload. The transport sends these verbatim and reports only
/// success or failure back.
pub struct IpmiRequest {
    pub netfn: u8,
    pub cmd: u8,
    pub data: Vec<u8>,
}

/// The identification request (Get Device ID), used by the startup probe
/// to confirm the control channel is reachable.
pub open spec fn is_identify_request(r: IpmiRequest) -> bool {
    &&& r.netfn == 0x06
    &&& r.cmd == 0x01
    &&& r.data@ == Seq::<u8>::empty()
}

/// The diagnostic fan-status read, attempted once at startup. Its failure
/// is a warning only, never fatal.
pub open spec fn is_fan_status_request(r: IpmiRequest) -> bool {
    &&& r.netfn == 0x30
    &&& r.cmd == 0x45
    &&& r.data@ == seq![0x00u8]
}

/// The mode-select command that puts the BMC into manual fan control.
pub open spec fn is_manual_mode_request(r: IpmiRequest) -> bool {
    &&& r.netfn == 0x30
    &&& r.cmd == 0x30
    &&& r.data@ == seq![0x01u8, 0x00u8]
}

/// The set-duty command: `0xff` addresses all fan zones, and the last
/// byte carries the duty percentage.
pub open spec fn is_set_duty_request(r: IpmiRequest, duty: u8) -> bool {
    &&& r.netfn == 0x30
    &&& r.cmd == 0x30
    &&& r.data@ == seq![0x02u8, 0xffu8, duty]
}

/// The two requests of the startup probe, in the order they must be
/// issued: identification first, then the advisory fan-status read.
pub fn probe_requests() -> (r: Vec<IpmiRequest>)
    ensures
        r@.len() == 2,
        is_identify_request(r@[0]),
        is_fan_status_request(r@[1]),
{
    let identify = IpmiRequest { netfn: 0x06, cmd: 0x01, data: Vec::new() };
    let mut status_data: Vec<u8> = Vec::new();
    status_data.push(0x00);
    let status = IpmiRequest { netfn: 0x30, cmd: 0x45, data: status_data };
    let mut r: Vec<IpmiRequest> = Vec::new();
    r.push(identify);
    r.push(status);
    proof {
        assert(r@[1].data@ =~= seq![0x00u8]);
        assert(r@[0].data@ =~= Seq::<u8>::empty());
    }
    r
}

/// The two requests that set a fan duty, in the strict order the device
/// expects: mode-select into manual control first, then the duty itself.
pub fn set_fan_requests(duty: u8) -> (r: Vec<IpmiRequest>)
    requires
        duty <= 100,
    ensures
        r@.len() == 2,
        is_manual_mode_request(r@[0]),
        is_set_duty_request(r@[1], duty),
{
    let mut mode_data: Vec<u8> = Vec::new();
    mode_data.push(0x01);
    mode_data.push(0x00);
    let mode = IpmiRequest { netfn: 0x30, cmd: 0x30, data: mode_data };
    let mut duty_data: Vec<u8> = Vec::new();
    duty_data.push(0x02);
    duty_data.push(0xff);
    duty_data.push(duty);
    let set = IpmiRequest { netfn: 0x30, cmd: 0x30, data: duty_data };
    let mut r: Vec<IpmiRequest> = Vec::new();
    r.push(mode);
    r.push(set);
    proof {
        assert(r@[0].data@ =~= seq![0x01u8, 0x00u8]);
        assert(r@[1].data@ =~= seq![0x02u8, 0xffu8, duty]);
    }
    r
}

/// How the startup probe resolves: the identification command decides,
/// and its failure means the BMC is unreachable. The fan-status read is
/// best-effort and plays no part here.
pub fn probe_outcome(identify_ok: bool) -> (r: Result<(), FanError>)
    ensures
        identify_ok ==> r == Ok::<(), FanError>(()),
        !identify_ok ==> r == Err::<(), FanError>(FanError::BmcUnreachable),
{
    if identify_ok {
        Ok(())
    } else {
        Err(FanError::BmcUnreachable)
    }
}

/// How setting a duty resolves: both commands must succeed, and a partial
/// failure (mode-select succeeded, set-duty did not) is still a command
/// failure — the device may be left in an unknown state and the caller
/// must not record the new duty as applied.
pub fn set_fan_outcome(mode_select_ok: bool, set_duty_ok: bool) -> (r: Result<(), FanError>)
    ensures
        mode_select_ok && set_duty_ok ==> r == Ok::<(), FanError>(()),
        !(mode_select_ok && set_duty_ok) ==> r == Err::<(), FanError>(FanError::CommandFailed),
{
    if mode_select_ok && set_duty_ok {
        Ok(())
    } else {
        Err(FanError::CommandFailed)
    }
}

} // verus!
