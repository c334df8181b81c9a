//! How device work ends, and how a session is left.
use crate::audit::CleanupCounts;
use crate::text::{joined, joined3};
use vstd::prelude::*;

verus! {

broadcast use vstd::string::group_string_axioms;

/// How a device operation stands.
#[derive(Clone, Copy, Debug, PartialEq, Eq, Structural)]
pub enum DeviceState {
    Success,
    Pending,
    Failure,
}

/// Refuses an operation that did not succeed; `label` names it.
pub fn wait_success(state: Result<DeviceState, &str>, label: &str) -> (out: Result<(), String>)
    ensures
        match state {
            Err(error) => out is Err && out->Err_0@ == label@ + " failed: "@ + error@,
            Ok(DeviceState::Success) => out is Ok,
            Ok(DeviceState::Pending) => out is Err && out->Err_0@ == label@ + " remained pending"@,
            Ok(DeviceState::Failure) => out is Err && out->Err_0@ == label@ + " reported failure"@,
        },
{
    match state {
        Err(error) => Err(joined3(label, " failed: ", error)),
        Ok(DeviceState::Success) => Ok(()),
        Ok(DeviceState::Pending) => Err(joined(label, " remained pending")),
        Ok(DeviceState::Failure) => Err(joined(label, " reported failure")),
    }
}

/// Refuses an operation that did not succeed, and names the state it is in.
pub fn wait_ok(state: Result<DeviceState, &str>, label: &str) -> (out: Result<(), String>)
    ensures
        match state {
            Err(error) => out is Err && out->Err_0@ == label@ + ": "@ + error@,
            Ok(DeviceState::Success) => out is Ok,
            Ok(DeviceState::Pending) => {
                &&& out is Err
                &&& out->Err_0@ == label@ + ": unexpected state Pending"@
            },
            Ok(DeviceState::Failure) => {
                &&& out is Err
                &&& out->Err_0@ == label@ + ": unexpected state Failure"@
            },
        },
{
    match state {
        Err(error) => Err(joined3(label, ": ", error)),
        Ok(DeviceState::Success) => Ok(()),
        Ok(DeviceState::Pending) => Err(joined(label, ": unexpected state Pending")),
        Ok(DeviceState::Failure) => Err(joined(label, ": unexpected state Failure")),
    }
}

/// Refuses a session that did not release everything, in the words of its run.
pub fn check_released(cleanup: &CleanupCounts, message: &str) -> (out: Result<(), String>)
    ensures
        if cleanup.is_zero() {
            out is Ok
        } else {
            out is Err && out->Err_0@ == message@
        },
{
    if cleanup.terminal_zero() {
        Ok(())
    } else {
        Err(message.to_owned())
    }
}

/// Only success ends a wait well, however its failure is told.
pub proof fn only_success_ends_a_wait(
    state: Result<DeviceState, &str>,
    label: &str,
    success: Result<(), String>,
    ok: Result<(), String>,
)
    requires
        call_ensures(wait_success, (state, label), success),
        call_ensures(wait_ok, (state, label), ok),
    ensures
        success is Ok <==> state matches Ok(DeviceState::Success),
        ok is Ok <==> success is Ok,
{
}

} // verus!
