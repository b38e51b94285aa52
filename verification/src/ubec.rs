//! Line protocol of the battery monitor (UBEC): message recognition and the power
//! state machine it drives.
//!
//! Messages are `:`-separated tokens such as `DATA:VOLTAGE:7.40`,
//! `WARNING:LOW_BATTERY_START:6.80:30` or `CMD:SHUTDOWN_SCHEDULED:10`.
//! Decimal voltages are carried as raw tokens; whether they read as numbers is
//! decided by the caller.

use vstd::prelude::*;
use crate::text::{
    bytes_eq, digit_value, digits_value, parse_unsigned, parse_unsigned_spec, split_fields, split_spec,
    trim_spec, trim_whitespace,
};

verus! {

/// Power system state.
#[derive(Debug, Clone, Copy, PartialEq, Eq)]
pub enum PowerState {
    Normal,
    LowBatteryWarning { timeout_seconds: u32 },
    Critical,
    ShuttingDown { remaining_seconds: u32 },
}

impl PowerState {
    /// Whether the power system is in its critical state.
    pub fn is_critical(&self) -> (b: bool)
        ensures
            b == (*self == PowerState::Critical),
    {
        matches!(self, PowerState::Critical)
    }
}

/// A recognised monitor message. Decimal tokens are kept as raw bytes; decimal
/// integer tokens are read as `u32` (`None` when they do not read).
#[derive(Debug, Clone, PartialEq, Eq)]
pub enum UbecMessage {
    /// `START`
    Start,
    /// `DATA:VOLTAGE:v`
    Voltage { voltage: Vec<u8> },
    /// `DATA:CURRENT:c`
    Current { current: Vec<u8> },
    /// `WARNING:LOW_BATTERY_START:v:t`
    LowBatteryStart { voltage: Vec<u8>, timeout: Option<u32> },
    /// `WARNING:LOW_BATTERY_COUNTDOWN:v:r`
    LowBatteryCountdown { voltage: Vec<u8>, remaining: Option<u32> },
    /// `CRITICAL:VOLTAGE_LOW:v:t`
    VoltageLow { voltage: Vec<u8>, threshold: Vec<u8> },
    /// `CRITICAL:LOW_VOLTAGE_TIMEOUT:v`
    LowVoltageTimeout { voltage: Vec<u8> },
    /// `INFO:VOLTAGE_RECOVERED:v`
    VoltageRecovered { voltage: Vec<u8> },
    /// `ERROR:ADC_TIMEOUT:c`
    AdcTimeout { count: Option<u32> },
    /// `CMD:SHUTDOWN_SCHEDULED:d`
    ShutdownScheduled { delay: Option<u32> },
    /// `CMD:SHUTDOWN_COUNTDOWN:r`
    ShutdownCountdown { remaining: Option<u32> },
    /// `CMD:SHUTDOWN_EXECUTED`
    ShutdownExecuted,
    /// Anything else.
    Unknown,
}

/// The keyword `START`.
pub open spec fn kw_start() -> Seq<u8> {
    seq![83u8, 84u8, 65u8, 82u8, 84u8]
}

/// The keyword `DATA`.
pub open spec fn kw_data() -> Seq<u8> {
    seq![68u8, 65u8, 84u8, 65u8]
}

/// The keyword `VOLTAGE`.
pub open spec fn kw_voltage() -> Seq<u8> {
    seq![86u8, 79u8, 76u8, 84u8, 65u8, 71u8, 69u8]
}

/// The keyword `CURRENT`.
pub open spec fn kw_current() -> Seq<u8> {
    seq![67u8, 85u8, 82u8, 82u8, 69u8, 78u8, 84u8]
}

/// The keyword `WARNING`.
pub open spec fn kw_warning() -> Seq<u8> {
    seq![87u8, 65u8, 82u8, 78u8, 73u8, 78u8, 71u8]
}

/// The keyword `LOW_BATTERY_START`.
pub open spec fn kw_low_battery_start() -> Seq<u8> {
    seq![76u8, 79u8, 87u8, 95u8, 66u8, 65u8, 84u8, 84u8, 69u8, 82u8, 89u8, 95u8, 83u8, 84u8, 65u8, 82u8, 84u8]
}

/// The keyword `LOW_BATTERY_COUNTDOWN`.
pub open spec fn kw_low_battery_countdown() -> Seq<u8> {
    seq![76u8, 79u8, 87u8, 95u8, 66u8, 65u8, 84u8, 84u8, 69u8, 82u8, 89u8, 95u8, 67u8, 79u8, 85u8, 78u8, 84u8, 68u8, 79u8, 87u8, 78u8]
}

/// The keyword `CRITICAL`.
pub open spec fn kw_critical() -> Seq<u8> {
    seq![67u8, 82u8, 73u8, 84u8, 73u8, 67u8, 65u8, 76u8]
}

/// The keyword `VOLTAGE_LOW`.
pub open spec fn kw_voltage_low() -> Seq<u8> {
    seq![86u8, 79u8, 76u8, 84u8, 65u8, 71u8, 69u8, 95u8, 76u8, 79u8, 87u8]
}

/// The keyword `LOW_VOLTAGE_TIMEOUT`.
pub open spec fn kw_low_voltage_timeout() -> Seq<u8> {
    seq![76u8, 79u8, 87u8, 95u8, 86u8, 79u8, 76u8, 84u8, 65u8, 71u8, 69u8, 95u8, 84u8, 73u8, 77u8, 69u8, 79u8, 85u8, 84u8]
}

/// The keyword `INFO`.
pub open spec fn kw_info() -> Seq<u8> {
    seq![73u8, 78u8, 70u8, 79u8]
}

/// The keyword `VOLTAGE_RECOVERED`.
pub open spec fn kw_voltage_recovered() -> Seq<u8> {
    seq![86u8, 79u8, 76u8, 84u8, 65u8, 71u8, 69u8, 95u8, 82u8, 69u8, 67u8, 79u8, 86u8, 69u8, 82u8, 69u8, 68u8]
}

/// The keyword `ERROR`.
pub open spec fn kw_error() -> Seq<u8> {
    seq![69u8, 82u8, 82u8, 79u8, 82u8]
}

/// The keyword `ADC_TIMEOUT`.
pub open spec fn kw_adc_timeout() -> Seq<u8> {
    seq![65u8, 68u8, 67u8, 95u8, 84u8, 73u8, 77u8, 69u8, 79u8, 85u8, 84u8]
}

/// The keyword `CMD`.
pub open spec fn kw_cmd() -> Seq<u8> {
    seq![67u8, 77u8, 68u8]
}

/// The keyword `SHUTDOWN_SCHEDULED`.
pub open spec fn kw_shutdown_scheduled() -> Seq<u8> {
    seq![83u8, 72u8, 85u8, 84u8, 68u8, 79u8, 87u8, 78u8, 95u8, 83u8, 67u8, 72u8, 69u8, 68u8, 85u8, 76u8, 69u8, 68u8]
}

/// The keyword `SHUTDOWN_COUNTDOWN`.
pub open spec fn kw_shutdown_countdown() -> Seq<u8> {
    seq![83u8, 72u8, 85u8, 84u8, 68u8, 79u8, 87u8, 78u8, 95u8, 67u8, 79u8, 85u8, 78u8, 84u8, 68u8, 79u8, 87u8, 78u8]
}

/// The keyword `SHUTDOWN_EXECUTED`.
pub open spec fn kw_shutdown_executed() -> Seq<u8> {
    seq![83u8, 72u8, 85u8, 84u8, 68u8, 79u8, 87u8, 78u8, 95u8, 69u8, 88u8, 69u8, 67u8, 85u8, 84u8, 69u8, 68u8]
}

/// The mathematical content of a monitor message: the same variants with raw
/// tokens as byte sequences.
pub enum MessageModel {
    Start,
    Voltage { voltage: Seq<u8> },
    Current { current: Seq<u8> },
    LowBatteryStart { voltage: Seq<u8>, timeout: Option<u32> },
    LowBatteryCountdown { voltage: Seq<u8>, remaining: Option<u32> },
    VoltageLow { voltage: Seq<u8>, threshold: Seq<u8> },
    LowVoltageTimeout { voltage: Seq<u8> },
    VoltageRecovered { voltage: Seq<u8> },
    AdcTimeout { count: Option<u32> },
    ShutdownScheduled { delay: Option<u32> },
    ShutdownCountdown { remaining: Option<u32> },
    ShutdownExecuted,
    Unknown,
}

impl View for UbecMessage {
    type V = MessageModel;

    open spec fn view(&self) -> MessageModel {
        match self {
            UbecMessage::Start => MessageModel::Start,
            UbecMessage::Voltage { voltage } => MessageModel::Voltage { voltage: voltage@ },
            UbecMessage::Current { current } => MessageModel::Current { current: current@ },
            UbecMessage::LowBatteryStart { voltage, timeout } => MessageModel::LowBatteryStart {
                voltage: voltage@,
                timeout: *timeout,
            },
            UbecMessage::LowBatteryCountdown { voltage, remaining } =>
                MessageModel::LowBatteryCountdown { voltage: voltage@, remaining: *remaining },
            UbecMessage::VoltageLow { voltage, threshold } => MessageModel::VoltageLow {
                voltage: voltage@,
                threshold: threshold@,
            },
            UbecMessage::LowVoltageTimeout { voltage } => MessageModel::LowVoltageTimeout {
                voltage: voltage@,
            },
            UbecMessage::VoltageRecovered { voltage } => MessageModel::VoltageRecovered {
                voltage: voltage@,
            },
            UbecMessage::AdcTimeout { count } => MessageModel::AdcTimeout { count: *count },
            UbecMessage::ShutdownScheduled { delay } => MessageModel::ShutdownScheduled {
                delay: *delay,
            },
            UbecMessage::ShutdownCountdown { remaining } => MessageModel::ShutdownCountdown {
                remaining: *remaining,
            },
            UbecMessage::ShutdownExecuted => MessageModel::ShutdownExecuted,
            UbecMessage::Unknown => MessageModel::Unknown,
        }
    }
}

/// A decimal `u32` token as the standard library reads it.
pub open spec fn token_u32(t: Seq<u8>) -> Option<u32> {
    match parse_unsigned_spec(t, 10, 4294967295) {
        Some(v) => Some(v as u32),
        None => None,
    }
}

/// The message denoted by the `:`-separated tokens `t`.
pub open spec fn message_of(t: Seq<Seq<u8>>) -> MessageModel {
    if t.len() == 1 && t[0] == kw_start() {
        MessageModel::Start
    } else if t.len() == 3 && t[0] == kw_data() && t[1] == kw_voltage() {
        MessageModel::Voltage { voltage: t[2] }
    } else if t.len() == 3 && t[0] == kw_data() && t[1] == kw_current() {
        MessageModel::Current { current: t[2] }
    } else if t.len() == 4 && t[0] == kw_warning() && t[1] == kw_low_battery_start() {
        MessageModel::LowBatteryStart { voltage: t[2], timeout: token_u32(t[3]) }
    } else if t.len() == 4 && t[0] == kw_warning() && t[1] == kw_low_battery_countdown() {
        MessageModel::LowBatteryCountdown { voltage: t[2], remaining: token_u32(t[3]) }
    } else if t.len() == 4 && t[0] == kw_critical() && t[1] == kw_voltage_low() {
        MessageModel::VoltageLow { voltage: t[2], threshold: t[3] }
    } else if t.len() == 3 && t[0] == kw_critical() && t[1] == kw_low_voltage_timeout() {
        MessageModel::LowVoltageTimeout { voltage: t[2] }
    } else if t.len() == 3 && t[0] == kw_info() && t[1] == kw_voltage_recovered() {
        MessageModel::VoltageRecovered { voltage: t[2] }
    } else if t.len() == 3 && t[0] == kw_error() && t[1] == kw_adc_timeout() {
        MessageModel::AdcTimeout { count: token_u32(t[2]) }
    } else if t.len() == 3 && t[0] == kw_cmd() && t[1] == kw_shutdown_scheduled() {
        MessageModel::ShutdownScheduled { delay: token_u32(t[2]) }
    } else if t.len() == 3 && t[0] == kw_cmd() && t[1] == kw_shutdown_countdown() {
        MessageModel::ShutdownCountdown { remaining: token_u32(t[2]) }
    } else if t.len() == 2 && t[0] == kw_cmd() && t[1] == kw_shutdown_executed() {
        MessageModel::ShutdownExecuted
    } else {
        MessageModel::Unknown
    }
}


/// The message in a line: the line without surrounding white space (such as
/// the line end `\r\n`), split into `:`-separated tokens matched against the protocol.
pub open spec fn parse_message_spec(msg: Seq<u8>) -> MessageModel {
    message_of(split_spec(trim_spec(msg), 58u8))
}

/// Whether token `t` is the keyword `START`.
fn is_start(t: &Vec<u8>) -> (b: bool)
    ensures
        b == (t@ == kw_start()),
{
    let k: [u8; 5] = [83u8, 84u8, 65u8, 82u8, 84u8];
    assert(k@ =~= kw_start());
    bytes_eq(t.as_slice(), k.as_slice())
}

/// Whether token `t` is the keyword `DATA`.
fn is_data(t: &Vec<u8>) -> (b: bool)
    ensures
        b == (t@ == kw_data()),
{
    let k: [u8; 4] = [68u8, 65u8, 84u8, 65u8];
    assert(k@ =~= kw_data());
    bytes_eq(t.as_slice(), k.as_slice())
}

/// Whether token `t` is the keyword `VOLTAGE`.
fn is_voltage(t: &Vec<u8>) -> (b: bool)
    ensures
        b == (t@ == kw_voltage()),
{
    let k: [u8; 7] = [86u8, 79u8, 76u8, 84u8, 65u8, 71u8, 69u8];
    assert(k@ =~= kw_voltage());
    bytes_eq(t.as_slice(), k.as_slice())
}

/// Whether token `t` is the keyword `CURRENT`.
fn is_current(t: &Vec<u8>) -> (b: bool)
    ensures
        b == (t@ == kw_current()),
{
    let k: [u8; 7] = [67u8, 85u8, 82u8, 82u8, 69u8, 78u8, 84u8];
    assert(k@ =~= kw_current());
    bytes_eq(t.as_slice(), k.as_slice())
}

/// Whether token `t` is the keyword `WARNING`.
fn is_warning(t: &Vec<u8>) -> (b: bool)
    ensures
        b == (t@ == kw_warning()),
{
    let k: [u8; 7] = [87u8, 65u8, 82u8, 78u8, 73u8, 78u8, 71u8];
    assert(k@ =~= kw_warning());
    bytes_eq(t.as_slice(), k.as_slice())
}

/// Whether token `t` is the keyword `LOW_BATTERY_START`.
fn is_low_battery_start(t: &Vec<u8>) -> (b: bool)
    ensures
        b == (t@ == kw_low_battery_start()),
{
    let k: [u8; 17] = [76u8, 79u8, 87u8, 95u8, 66u8, 65u8, 84u8, 84u8, 69u8, 82u8, 89u8, 95u8, 83u8, 84u8, 65u8, 82u8, 84u8];
    assert(k@ =~= kw_low_battery_start());
    bytes_eq(t.as_slice(), k.as_slice())
}

/// Whether token `t` is the keyword `LOW_BATTERY_COUNTDOWN`.
fn is_low_battery_countdown(t: &Vec<u8>) -> (b: bool)
    ensures
        b == (t@ == kw_low_battery_countdown()),
{
    let k: [u8; 21] = [76u8, 79u8, 87u8, 95u8, 66u8, 65u8, 84u8, 84u8, 69u8, 82u8, 89u8, 95u8, 67u8, 79u8, 85u8, 78u8, 84u8, 68u8, 79u8, 87u8, 78u8];
    assert(k@ =~= kw_low_battery_countdown());
    bytes_eq(t.as_slice(), k.as_slice())
}

/// Whether token `t` is the keyword `CRITICAL`.
fn is_critical(t: &Vec<u8>) -> (b: bool)
    ensures
        b == (t@ == kw_critical()),
{
    let k: [u8; 8] = [67u8, 82u8, 73u8, 84u8, 73u8, 67u8, 65u8, 76u8];
    assert(k@ =~= kw_critical());
    bytes_eq(t.as_slice(), k.as_slice())
}

/// Whether token `t` is the keyword `VOLTAGE_LOW`.
fn is_voltage_low(t: &Vec<u8>) -> (b: bool)
    ensures
        b == (t@ == kw_voltage_low()),
{
    let k: [u8; 11] = [86u8, 79u8, 76u8, 84u8, 65u8, 71u8, 69u8, 95u8, 76u8, 79u8, 87u8];
    assert(k@ =~= kw_voltage_low());
    bytes_eq(t.as_slice(), k.as_slice())
}

/// Whether token `t` is the keyword `LOW_VOLTAGE_TIMEOUT`.
fn is_low_voltage_timeout(t: &Vec<u8>) -> (b: bool)
    ensures
        b == (t@ == kw_low_voltage_timeout()),
{
    let k: [u8; 19] = [76u8, 79u8, 87u8, 95u8, 86u8, 79u8, 76u8, 84u8, 65u8, 71u8, 69u8, 95u8, 84u8, 73u8, 77u8, 69u8, 79u8, 85u8, 84u8];
    assert(k@ =~= kw_low_voltage_timeout());
    bytes_eq(t.as_slice(), k.as_slice())
}

/// Whether token `t` is the keyword `INFO`.
fn is_info(t: &Vec<u8>) -> (b: bool)
    ensures
        b == (t@ == kw_info()),
{
    let k: [u8; 4] = [73u8, 78u8, 70u8, 79u8];
    assert(k@ =~= kw_info());
    bytes_eq(t.as_slice(), k.as_slice())
}

/// Whether token `t` is the keyword `VOLTAGE_RECOVERED`.
fn is_voltage_recovered(t: &Vec<u8>) -> (b: bool)
    ensures
        b == (t@ == kw_voltage_recovered()),
{
    let k: [u8; 17] = [86u8, 79u8, 76u8, 84u8, 65u8, 71u8, 69u8, 95u8, 82u8, 69u8, 67u8, 79u8, 86u8, 69u8, 82u8, 69u8, 68u8];
    assert(k@ =~= kw_voltage_recovered());
    bytes_eq(t.as_slice(), k.as_slice())
}

/// Whether token `t` is the keyword `ERROR`.
fn is_error(t: &Vec<u8>) -> (b: bool)
    ensures
        b == (t@ == kw_error()),
{
    let k: [u8; 5] = [69u8, 82u8, 82u8, 79u8, 82u8];
    assert(k@ =~= kw_error());
    bytes_eq(t.as_slice(), k.as_slice())
}

/// Whether token `t` is the keyword `ADC_TIMEOUT`.
fn is_adc_timeout(t: &Vec<u8>) -> (b: bool)
    ensures
        b == (t@ == kw_adc_timeout()),
{
    let k: [u8; 11] = [65u8, 68u8, 67u8, 95u8, 84u8, 73u8, 77u8, 69u8, 79u8, 85u8, 84u8];
    assert(k@ =~= kw_adc_timeout());
    bytes_eq(t.as_slice(), k.as_slice())
}

/// Whether token `t` is the keyword `CMD`.
fn is_cmd(t: &Vec<u8>) -> (b: bool)
    ensures
        b == (t@ == kw_cmd()),
{
    let k: [u8; 3] = [67u8, 77u8, 68u8];
    assert(k@ =~= kw_cmd());
    bytes_eq(t.as_slice(), k.as_slice())
}

/// Whether token `t` is the keyword `SHUTDOWN_SCHEDULED`.
fn is_shutdown_scheduled(t: &Vec<u8>) -> (b: bool)
    ensures
        b == (t@ == kw_shutdown_scheduled()),
{
    let k: [u8; 18] = [83u8, 72u8, 85u8, 84u8, 68u8, 79u8, 87u8, 78u8, 95u8, 83u8, 67u8, 72u8, 69u8, 68u8, 85u8, 76u8, 69u8, 68u8];
    assert(k@ =~= kw_shutdown_scheduled());
    bytes_eq(t.as_slice(), k.as_slice())
}

/// Whether token `t` is the keyword `SHUTDOWN_COUNTDOWN`.
fn is_shutdown_countdown(t: &Vec<u8>) -> (b: bool)
    ensures
        b == (t@ == kw_shutdown_countdown()),
{
    let k: [u8; 18] = [83u8, 72u8, 85u8, 84u8, 68u8, 79u8, 87u8, 78u8, 95u8, 67u8, 79u8, 85u8, 78u8, 84u8, 68u8, 79u8, 87u8, 78u8];
    assert(k@ =~= kw_shutdown_countdown());
    bytes_eq(t.as_slice(), k.as_slice())
}

/// Whether token `t` is the keyword `SHUTDOWN_EXECUTED`.
fn is_shutdown_executed(t: &Vec<u8>) -> (b: bool)
    ensures
        b == (t@ == kw_shutdown_executed()),
{
    let k: [u8; 17] = [83u8, 72u8, 85u8, 84u8, 68u8, 79u8, 87u8, 78u8, 95u8, 69u8, 88u8, 69u8, 67u8, 85u8, 84u8, 69u8, 68u8];
    assert(k@ =~= kw_shutdown_executed());
    bytes_eq(t.as_slice(), k.as_slice())
}

/// Read a decimal `u32` token as the standard library does.
pub fn read_u32(t: &Vec<u8>) -> (r: Option<u32>)
    ensures
        r == token_u32(t@),
{
    match parse_unsigned(t.as_slice(), 10, 4294967295) {
        Some(v) => Some(v as u32),
        None => None,
    }
}

fn token_copy(t: &Vec<u8>) -> (c: Vec<u8>)
    ensures
        c@ == t@,
{
    let mut c: Vec<u8> = Vec::new();
    let mut i: usize = 0;
    while i < t.len()
        invariant
            i <= t@.len(),
            c@ == t@.take(i as int),
        decreases t@.len() - i,
    {
        c.push(t[i]);
        i = i + 1;
        assert(c@ =~= t@.take(i as int));
    }
    assert(t@.take(t@.len() as int) =~= t@);
    c
}

/// Recognise a monitor message in a received line (surrounding white space,
/// such as the line end, is ignored).
pub fn parse_message(msg: &[u8]) -> (m: UbecMessage)
    ensures
        m@ == parse_message_spec(msg@),
{
    let line = trim_whitespace(msg);
    let t = split_fields(line, 58u8);
    let ghost tv = t.deep_view();
    assert(forall|i: int| 0 <= i < t@.len() ==> #[trigger] t@[i]@ == tv[i]);
    let n = t.len();
    if n == 1 && is_start(&t[0]) {
        return UbecMessage::Start;
    }
    if n == 3 && is_data(&t[0]) && is_voltage(&t[1]) {
        return UbecMessage::Voltage { voltage: token_copy(&t[2]) };
    }
    if n == 3 && is_data(&t[0]) && is_current(&t[1]) {
        return UbecMessage::Current { current: token_copy(&t[2]) };
    }
    if n == 4 && is_warning(&t[0]) && is_low_battery_start(&t[1]) {
        return UbecMessage::LowBatteryStart { voltage: token_copy(&t[2]), timeout: read_u32(&t[3]) };
    }
    if n == 4 && is_warning(&t[0]) && is_low_battery_countdown(&t[1]) {
        return UbecMessage::LowBatteryCountdown {
            voltage: token_copy(&t[2]),
            remaining: read_u32(&t[3]),
        };
    }
    if n == 4 && is_critical(&t[0]) && is_voltage_low(&t[1]) {
        return UbecMessage::VoltageLow { voltage: token_copy(&t[2]), threshold: token_copy(&t[3]) };
    }
    if n == 3 && is_critical(&t[0]) && is_low_voltage_timeout(&t[1]) {
        return UbecMessage::LowVoltageTimeout { voltage: token_copy(&t[2]) };
    }
    if n == 3 && is_info(&t[0]) && is_voltage_recovered(&t[1]) {
        return UbecMessage::VoltageRecovered { voltage: token_copy(&t[2]) };
    }
    if n == 3 && is_error(&t[0]) && is_adc_timeout(&t[1]) {
        return UbecMessage::AdcTimeout { count: read_u32(&t[2]) };
    }
    if n == 3 && is_cmd(&t[0]) && is_shutdown_scheduled(&t[1]) {
        return UbecMessage::ShutdownScheduled { delay: read_u32(&t[2]) };
    }
    if n == 3 && is_cmd(&t[0]) && is_shutdown_countdown(&t[1]) {
        return UbecMessage::ShutdownCountdown { remaining: read_u32(&t[2]) };
    }
    if n == 2 && is_cmd(&t[0]) && is_shutdown_executed(&t[1]) {
        return UbecMessage::ShutdownExecuted;
    }
    UbecMessage::Unknown
}

/// The decimal tokens of a message (voltages, currents, thresholds), which the
/// monitor sends as decimal numbers.
pub open spec fn decimal_tokens_spec(m: MessageModel) -> Seq<Seq<u8>> {
    match m {
        MessageModel::Voltage { voltage } => seq![voltage],
        MessageModel::Current { current } => seq![current],
        MessageModel::LowBatteryStart { voltage, .. } => seq![voltage],
        MessageModel::LowBatteryCountdown { voltage, .. } => seq![voltage],
        MessageModel::VoltageLow { voltage, threshold } => seq![voltage, threshold],
        MessageModel::LowVoltageTimeout { voltage } => seq![voltage],
        MessageModel::VoltageRecovered { voltage } => seq![voltage],
        _ => Seq::empty(),
    }
}

/// The decimal tokens of a message (see `decimal_tokens_spec`).
pub fn decimal_tokens(m: &UbecMessage) -> (ts: Vec<Vec<u8>>)
    ensures
        ts.deep_view() == decimal_tokens_spec(m@),
{
    let mut ts: Vec<Vec<u8>> = Vec::new();
    match m {
        UbecMessage::Voltage { voltage: t }
        | UbecMessage::Current { current: t }
        | UbecMessage::LowBatteryStart { voltage: t, .. }
        | UbecMessage::LowBatteryCountdown { voltage: t, .. }
        | UbecMessage::LowVoltageTimeout { voltage: t }
        | UbecMessage::VoltageRecovered { voltage: t } => {
            let c = token_copy(t);
            assert(c.deep_view() =~= t@);
            ts.push(c);
            assert(ts.deep_view() =~= seq![t@]);
        },
        UbecMessage::VoltageLow { voltage, threshold } => {
            let c1 = token_copy(voltage);
            let c2 = token_copy(threshold);
            assert(c1.deep_view() =~= voltage@);
            assert(c2.deep_view() =~= threshold@);
            ts.push(c1);
            ts.push(c2);
            assert(ts.deep_view() =~= seq![voltage@, threshold@]);
        },
        _ => {
            assert(ts.deep_view() =~= Seq::<Seq<u8>>::empty());
        },
    }
    ts
}

/// The power state after a message, given whether every decimal token of the
/// message (`decimal_tokens`) reads as a number (`decimals_ok`). A
/// state-changing message whose tokens do not all read leaves the state as it was.
pub open spec fn power_state_after(state: PowerState, m: MessageModel, decimals_ok: bool) -> PowerState {
    match m {
        MessageModel::LowBatteryStart { timeout, .. } => match timeout {
            Some(t) if decimals_ok => PowerState::LowBatteryWarning { timeout_seconds: t },
            _ => state,
        },
        MessageModel::LowBatteryCountdown { remaining, .. } => match remaining {
            Some(r) if decimals_ok => PowerState::LowBatteryWarning { timeout_seconds: r },
            _ => state,
        },
        MessageModel::VoltageLow { .. } => if decimals_ok {
            PowerState::Critical
        } else {
            state
        },
        MessageModel::LowVoltageTimeout { .. } => if decimals_ok {
            PowerState::Critical
        } else {
            state
        },
        MessageModel::VoltageRecovered { .. } => if decimals_ok {
            PowerState::Normal
        } else {
            state
        },
        MessageModel::AdcTimeout { count } => match count {
            Some(_) => PowerState::Critical,
            None => state,
        },
        MessageModel::ShutdownScheduled { delay } => match delay {
            Some(d) => PowerState::ShuttingDown { remaining_seconds: d },
            None => state,
        },
        MessageModel::ShutdownCountdown { remaining } => match remaining {
            Some(r) => PowerState::ShuttingDown { remaining_seconds: r },
            None => state,
        },
        MessageModel::ShutdownExecuted => PowerState::Critical,
        _ => state,
    }
}

/// What each message does to the power state, whatever the state before it:
/// a low-battery warning with a readable timeout or remaining time starts or
/// updates the warning countdown; a low voltage, a low-voltage timeout or an ADC
/// timeout with readable numbers, and an executed shutdown, make the state
/// critical; a recovered voltage makes it normal again; a scheduled shutdown or
/// its countdown starts or updates the shutdown countdown; the other messages,
/// and those whose numbers do not read, leave the state as it was.
pub proof fn lemma_power_state_effects(state: PowerState, m: MessageModel, decimals_ok: bool)
    ensures
        (decimals_ok ==> (m matches MessageModel::LowBatteryStart { timeout: Some(t), .. }
            ==> power_state_after(state, m, decimals_ok) == (PowerState::LowBatteryWarning { timeout_seconds: t }))),
        (decimals_ok ==> (m matches MessageModel::LowBatteryCountdown { remaining: Some(r), .. }
            ==> power_state_after(state, m, decimals_ok) == (PowerState::LowBatteryWarning { timeout_seconds: r }))),
        ((m is VoltageLow) && decimals_ok
            ==> power_state_after(state, m, decimals_ok) == PowerState::Critical),
        ((m is LowVoltageTimeout) && decimals_ok
            ==> power_state_after(state, m, decimals_ok) == PowerState::Critical),
        ((m is VoltageRecovered) && decimals_ok
            ==> power_state_after(state, m, decimals_ok) == PowerState::Normal),
        (m matches MessageModel::AdcTimeout { count: Some(_) }
            ==> power_state_after(state, m, decimals_ok) == PowerState::Critical),
        (m matches MessageModel::ShutdownScheduled { delay: Some(d) }
            ==> power_state_after(state, m, decimals_ok) == (PowerState::ShuttingDown { remaining_seconds: d })),
        (m matches MessageModel::ShutdownCountdown { remaining: Some(r) }
            ==> power_state_after(state, m, decimals_ok) == (PowerState::ShuttingDown { remaining_seconds: r })),
        ((m is ShutdownExecuted)
            ==> power_state_after(state, m, decimals_ok) == PowerState::Critical),
        ((m is Start) || (m is Voltage) || (m is Current) || (m is Unknown)
            ==> power_state_after(state, m, decimals_ok) == state),
        (!decimals_ok && ((m is LowBatteryStart) || (m is LowBatteryCountdown) || (m is VoltageLow)
            || (m is LowVoltageTimeout) || (m is VoltageRecovered))
            ==> power_state_after(state, m, decimals_ok) == state),
        (m matches MessageModel::LowBatteryStart { timeout: None, .. }
            ==> power_state_after(state, m, decimals_ok) == state),
        (m matches MessageModel::LowBatteryCountdown { remaining: None, .. }
            ==> power_state_after(state, m, decimals_ok) == state),
        (m matches MessageModel::AdcTimeout { count: None }
            ==> power_state_after(state, m, decimals_ok) == state),
        (m matches MessageModel::ShutdownScheduled { delay: None }
            ==> power_state_after(state, m, decimals_ok) == state),
        (m matches MessageModel::ShutdownCountdown { remaining: None }
            ==> power_state_after(state, m, decimals_ok) == state),
{
}

/// The power state after message `m` (see `power_state_after`).
pub fn next_power_state(state: PowerState, m: &UbecMessage, decimals_ok: bool) -> (s: PowerState)
    ensures
        s == power_state_after(state, m@, decimals_ok),
{
    match m {
        UbecMessage::LowBatteryStart { timeout, .. } => match timeout {
            Some(t) => if decimals_ok {
                PowerState::LowBatteryWarning { timeout_seconds: *t }
            } else {
                state
            },
            None => state,
        },
        UbecMessage::LowBatteryCountdown { remaining, .. } => match remaining {
            Some(r) => if decimals_ok {
                PowerState::LowBatteryWarning { timeout_seconds: *r }
            } else {
                state
            },
            None => state,
        },
        UbecMessage::VoltageLow { .. } => if decimals_ok {
            PowerState::Critical
        } else {
            state
        },
        UbecMessage::LowVoltageTimeout { .. } => if decimals_ok {
            PowerState::Critical
        } else {
            state
        },
        UbecMessage::VoltageRecovered { .. } => if decimals_ok {
            PowerState::Normal
        } else {
            state
        },
        UbecMessage::AdcTimeout { count } => match count {
            Some(_) => PowerState::Critical,
            None => state,
        },
        UbecMessage::ShutdownScheduled { delay } => match delay {
            Some(d) => PowerState::ShuttingDown { remaining_seconds: *d },
            None => state,
        },
        UbecMessage::ShutdownCountdown { remaining } => match remaining {
            Some(r) => PowerState::ShuttingDown { remaining_seconds: *r },
            None => state,
        },
        UbecMessage::ShutdownExecuted => PowerState::Critical,
        _ => state,
    }
}

/// The command line that schedules a shutdown after `delay_seconds`: `SHUTDOWN:<delay>` and a newline.
pub open spec fn shutdown_command_spec(delay_seconds: u32) -> Seq<u8> {
    seq![83u8, 72u8, 85u8, 84u8, 68u8, 79u8, 87u8, 78u8, 58u8] + decimal_spec(delay_seconds as nat) + seq![10u8]
}

/// Decimal digits of `n` (no leading zeros; `0` for zero).
pub open spec fn decimal_spec(n: nat) -> Seq<u8>
    decreases n,
{
    if n < 10 {
        seq![(48 + n) as u8]
    } else {
        decimal_spec(n / 10).push((48 + n % 10) as u8)
    }
}

/// Decimal digits of `n`.
pub fn decimal_digits(n: u32) -> (d: Vec<u8>)
    ensures
        d@ == decimal_spec(n as nat),
    decreases n,
{
    if n < 10 {
        let mut v: Vec<u8> = Vec::new();
        v.push(48u8 + n as u8);
        assert(v@ =~= decimal_spec(n as nat));
        v
    } else {
        let mut v = decimal_digits(n / 10);
        v.push(48u8 + (n % 10) as u8);
        v
    }
}

/// The command line that schedules a shutdown after `delay_seconds` seconds.
pub fn shutdown_command(delay_seconds: u32) -> (cmd: Vec<u8>)
    ensures
        cmd@ == shutdown_command_spec(delay_seconds),
{
    let mut cmd: Vec<u8> = Vec::new();
    let head: [u8; 9] = [83u8, 72u8, 85u8, 84u8, 68u8, 79u8, 87u8, 78u8, 58u8];
    cmd.extend_from_slice(head.as_slice());
    let digits = decimal_digits(delay_seconds);
    cmd.extend_from_slice(digits.as_slice());
    cmd.push(10u8);
    assert(cmd@ =~= shutdown_command_spec(delay_seconds));
    cmd
}

/// The command line that switches the servo power on: `ENABLE_SERVOS` and a newline.
pub fn enable_servos_command() -> (cmd: Vec<u8>)
    ensures
        cmd@ == seq![69u8, 78u8, 65u8, 66u8, 76u8, 69u8, 95u8, 83u8, 69u8, 82u8, 86u8, 79u8, 83u8, 10u8],
{
    let bytes: [u8; 14] = [69u8, 78u8, 65u8, 66u8, 76u8, 69u8, 95u8, 83u8, 69u8, 82u8, 86u8, 79u8, 83u8, 10u8];
    let mut cmd: Vec<u8> = Vec::new();
    cmd.extend_from_slice(bytes.as_slice());
    assert(cmd@ =~= seq![69u8, 78u8, 65u8, 66u8, 76u8, 69u8, 95u8, 83u8, 69u8, 82u8, 86u8, 79u8, 83u8, 10u8]);
    cmd
}

/// The command line that switches the servo power off: `DISABLE_SERVOS` and a newline.
pub fn disable_servos_command() -> (cmd: Vec<u8>)
    ensures
        cmd@ == seq![68u8, 73u8, 83u8, 65u8, 66u8, 76u8, 69u8, 95u8, 83u8, 69u8, 82u8, 86u8, 79u8, 83u8, 10u8],
{
    let bytes: [u8; 15] = [68u8, 73u8, 83u8, 65u8, 66u8, 76u8, 69u8, 95u8, 83u8, 69u8, 82u8, 86u8, 79u8, 83u8, 10u8];
    let mut cmd: Vec<u8> = Vec::new();
    cmd.extend_from_slice(bytes.as_slice());
    assert(cmd@ =~= seq![68u8, 73u8, 83u8, 65u8, 66u8, 76u8, 69u8, 95u8, 83u8, 69u8, 82u8, 86u8, 79u8, 83u8, 10u8]);
    cmd
}

/// Reading back the decimal digits of a number gives the number: a shutdown delay
/// written by `shutdown_command` is read by the monitor as the same value.
pub proof fn lemma_decimal_roundtrip(n: nat)
    ensures
        digits_value(decimal_spec(n), 10) == Some(n as int),
        decimal_spec(n).len() > 0,
        n <= 4294967295 ==> parse_unsigned_spec(decimal_spec(n), 10, 4294967295) == Some(n as int),
    decreases n,
{
    if n >= 10 {
        lemma_decimal_roundtrip(n / 10);
        let p = decimal_spec(n / 10);
        let d = decimal_spec(n);
        assert(d.drop_last() =~= p);
        assert(d.last() == (48 + n % 10) as u8);
        assert(digit_value(d.last(), 10) == Some((n % 10) as int));
        assert((n / 10) * 10 + n % 10 == n);
        assert(digits_value(d, 10) == Some((n / 10) * 10 + (n % 10) as int));
    } else {
        let d = decimal_spec(n);
        assert(d.drop_last() =~= Seq::<u8>::empty());
        assert(digit_value(d.last(), 10) == Some(n as int));
        assert(digits_value(d.drop_last(), 10) == Some(0int));
        assert(digits_value(d, 10) == Some(n as int));
    }
    assert(decimal_spec(n)[0] != 43u8) by {
        lemma_decimal_first_digit(n);
    }
}

proof fn lemma_decimal_first_digit(n: nat)
    ensures
        decimal_spec(n).len() > 0,
        48 <= decimal_spec(n)[0] <= 57,
    decreases n,
{
    if n >= 10 {
        lemma_decimal_first_digit(n / 10);
    }
}

} // verus!
