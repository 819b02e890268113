//! What the device does with a request that the web page posted.
use vstd::prelude::*;
use crate::request::{lookup, parse_unsigned, without_dots, read_request, parse_v, parse_u8};

verus! {

/// The kinds of request that the web server hands on.
#[allow(non_camel_case_types)]
#[derive(Debug, Clone, Copy, PartialEq, Eq, Structural)]
pub enum RequestMethod {
    RESET,
    CHANGE_V,
    CHANGE_T,
}

impl RequestMethod {
    /// Whether the request carries a form body that has to be read.
    pub fn needs_content(&self) -> (b: bool)
        ensures
            b == !(*self is RESET),
    {
        match self {
            RequestMethod::RESET => false,
            _ => true,
        }
    }
}

/// What the store is to do with a request.
#[derive(Debug, Clone, Copy, PartialEq, Eq, Structural)]
pub enum RequestAction {
    /// Drop the stored values.
    Reset,
    /// Take the voltage bounds `vmin` and `vmax` (in tenths of a volt).
    SetVoltage { vmin: u16, vmax: u16 },
    /// Take a new sampling period, in minutes.
    SetTime(u8),
    /// The form could not be read: nothing changes.
    Ignore,
}

/// The action that a request asks for, given its form body.
pub open spec fn request_action(method: RequestMethod, content: Seq<char>) -> RequestAction {
    match method {
        RequestMethod::RESET => RequestAction::Reset,
        RequestMethod::CHANGE_V => {
            let vmin = lookup(content, "vmin"@);
            let vmax = lookup(content, "vmax"@);
            if vmin is Some && vmax is Some
                && parse_unsigned(without_dots(vmin->0), 0xffff) is Some
                && parse_unsigned(without_dots(vmax->0), 0xffff) is Some {
                RequestAction::SetVoltage {
                    vmin: parse_unsigned(without_dots(vmin->0), 0xffff)->0 as u16,
                    vmax: parse_unsigned(without_dots(vmax->0), 0xffff)->0 as u16,
                }
            } else {
                RequestAction::Ignore
            }
        },
        RequestMethod::CHANGE_T => {
            let time = lookup(content, "time"@);
            if time is Some && parse_unsigned(time->0, 0xff) is Some {
                RequestAction::SetTime(parse_unsigned(time->0, 0xff)->0 as u8)
            } else {
                RequestAction::Ignore
            }
        },
    }
}

/// No text reads as a number when it has no digits: an empty field, or a lone `+`.
pub proof fn law_no_digits_no_number(max: nat)
    ensures
        parse_unsigned(Seq::<char>::empty(), max) is None,
        parse_unsigned(seq!['+'], max) is None,
{
    assert(seq!['+'].drop_first() =~= Seq::<char>::empty());
}

/// A new period comes only from a `time` field that reads as a `u8`, and it is the
/// value read; a form without that field, or whose field is empty or does not
/// read, changes nothing.
pub proof fn law_period_only_from_time_field(content: Seq<char>)
    ensures
        match request_action(RequestMethod::CHANGE_T, content) {
            RequestAction::SetTime(t) => lookup(content, "time"@) matches Some(s) && parse_unsigned(
                s,
                0xff,
            ) == Some(t as nat),
            RequestAction::Ignore => !(lookup(content, "time"@) matches Some(s) && parse_unsigned(
                s,
                0xff,
            ) is Some),
            _ => false,
        },
        lookup(content, "time"@) == Some(Seq::<char>::empty()) ==> request_action(
            RequestMethod::CHANGE_T,
            content,
        ) == RequestAction::Ignore,
{
    law_no_digits_no_number(0xff);
}

/// New voltage bounds come only from `vmin` and `vmax` fields that both read (dots
/// dropped) as a `u16`, and they are the values read; otherwise nothing changes.
pub proof fn law_bounds_only_from_voltage_fields(content: Seq<char>)
    ensures
        match request_action(RequestMethod::CHANGE_V, content) {
            RequestAction::SetVoltage { vmin, vmax } => {
                &&& lookup(content, "vmin"@) matches Some(a) && parse_unsigned(without_dots(a), 0xffff)
                    == Some(vmin as nat)
                &&& lookup(content, "vmax"@) matches Some(b) && parse_unsigned(without_dots(b), 0xffff)
                    == Some(vmax as nat)
            },
            RequestAction::Ignore => !({
                &&& lookup(content, "vmin"@) matches Some(a) && parse_unsigned(without_dots(a), 0xffff) is Some
                &&& lookup(content, "vmax"@) matches Some(b) && parse_unsigned(without_dots(b), 0xffff) is Some
            }),
            _ => false,
        },
{
}

/// A reset asks for nothing else, whatever the form holds.
pub proof fn law_reset_ignores_form(content: Seq<char>)
    ensures
        request_action(RequestMethod::RESET, content) == RequestAction::Reset,
{
}

/// Decides what a request asks for: a reset; new voltage bounds read from the
/// `vmin` and `vmax` fields (see `parse_v`); or a new period read from the `time`
/// field as a `u8`. A form that lacks a field or holds a value that does not
/// read gives `Ignore`.
pub fn decide_request(method: RequestMethod, content: &str) -> (action: RequestAction)
    ensures
        action == request_action(method, content@),
{
    match method {
        RequestMethod::RESET => RequestAction::Reset,
        RequestMethod::CHANGE_V => {
            let vmin = match read_request(content, "vmin") {
                Ok(vmin) => vmin,
                _ => return RequestAction::Ignore,
            };
            let vmin = match parse_v(vmin.as_str()) {
                Ok(v) => v,
                _ => return RequestAction::Ignore,
            };
            let vmax = match read_request(content, "vmax") {
                Ok(vmax) => vmax,
                _ => return RequestAction::Ignore,
            };
            let vmax = match parse_v(vmax.as_str()) {
                Ok(v) => v,
                _ => return RequestAction::Ignore,
            };
            RequestAction::SetVoltage { vmin, vmax }
        },
        RequestMethod::CHANGE_T => {
            let time = match read_request(content, "time") {
                Ok(time) => time,
                _ => return RequestAction::Ignore,
            };
            match parse_u8(time.as_str()) {
                Ok(t) => RequestAction::SetTime(t),
                _ => RequestAction::Ignore,
            }
        },
    }
}

} // verus!
