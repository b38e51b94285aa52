//! Orientation sensor (BNO055): the decoding of its registers, and the stand-in
//! sensor used when no hardware is attached.

use vstd::prelude::*;

verus! {

/// Orientation sensor stand-in: always reports a level, fully calibrated sensor.
#[derive(Debug, Clone, Copy, PartialEq, Eq)]
pub struct Bno055Dummy;

/// Calibration level of a fully calibrated sensor.
pub const FULL_CALIBRATION: u8 = 3;

impl Bno055Dummy {
    /// Open the stand-in sensor; the bus and address are ignored.
    pub fn new(_bus: u8, _addr: u16) -> (d: Self)
        ensures
            d == Bno055Dummy,
    {
        Bno055Dummy
    }

    /// Calibration status (system, gyroscope, accelerometer, magnetometer): all full.
    pub fn get_calibration_status(&mut self) -> (s: (u8, u8, u8, u8))
        ensures
            s == (FULL_CALIBRATION, FULL_CALIBRATION, FULL_CALIBRATION, FULL_CALIBRATION),
    {
        (FULL_CALIBRATION, FULL_CALIBRATION, FULL_CALIBRATION, FULL_CALIBRATION)
    }
}

/// Chip identifier reported by a BNO055.
pub const BNO055_ID: u8 = 0xA0;
/// Register holding the chip identifier.
pub const BNO055_CHIP_ID_ADDR: u8 = 0x00;
/// Register selecting the operation mode.
pub const BNO055_OPR_MODE_ADDR: u8 = 0x3D;
/// Register selecting the output units.
pub const BNO055_UNIT_SEL_ADDR: u8 = 0x3B;
/// Register holding the calibration status.
pub const BNO055_CALIB_STAT_ADDR: u8 = 0x35;
/// Register of the system trigger.
pub const BNO055_SYS_TRIGGER_ADDR: u8 = 0x3F;
/// First register of the Euler angles (heading, roll, pitch; low byte first).
pub const BNO055_EULER_H_LSB_ADDR: u8 = 0x1A;
/// First register of the quaternion (w, x, y, z; low byte first).
pub const BNO055_QUATERNION_DATA_W_LSB_ADDR: u8 = 0x20;
/// Operation mode for configuration.
pub const OPERATION_MODE_CONFIG: u8 = 0x00;
/// Operation mode with all nine degrees of freedom fused.
pub const OPERATION_MODE_NDOF: u8 = 0x0C;

/// The calibration levels packed in the status register: system in bits 7-6,
/// gyroscope in bits 5-4, accelerometer in bits 3-2, magnetometer in bits 1-0.
pub open spec fn calibration_fields(val: u8) -> (u8, u8, u8, u8) {
    ((val >> 6u8) & 3u8, (val >> 4u8) & 3u8, (val >> 2u8) & 3u8, val & 3u8)
}

/// Split the calibration status register into (system, gyroscope,
/// accelerometer, magnetometer) levels.
pub fn decode_calibration(val: u8) -> (s: (u8, u8, u8, u8))
    ensures
        s == calibration_fields(val),
        s.0 <= FULL_CALIBRATION,
        s.1 <= FULL_CALIBRATION,
        s.2 <= FULL_CALIBRATION,
        s.3 <= FULL_CALIBRATION,
{
    assert((val >> 6u8) & 3u8 <= 3u8 && (val >> 4u8) & 3u8 <= 3u8 && (val >> 2u8) & 3u8 <= 3u8
        && val & 3u8 <= 3u8) by (bit_vector);
    ((val >> 6) & 0x03, (val >> 4) & 0x03, (val >> 2) & 0x03, val & 0x03)
}

/// The four calibration levels together make up the whole status register.
pub proof fn lemma_calibration_fields_cover_register(val: u8)
    ensures
        ({
            let s = calibration_fields(val);
            s.0 * 64 + s.1 * 16 + s.2 * 4 + s.3 == val
        }),
{
    assert(((val >> 6u8) & 3u8) * 64 + ((val >> 4u8) & 3u8) * 16 + ((val >> 2u8) & 3u8) * 4 + (val & 3u8)
        == val) by (bit_vector);
}

/// The signed 16-bit value of two bytes, low byte first (two's complement).
pub open spec fn le_i16(lo: u8, hi: u8) -> int {
    let u = hi as int * 256 + lo as int;
    if hi < 128 {
        u
    } else {
        u - 65536
    }
}

/// Two bytes, low byte first, read as a signed 16-bit number: the value in
/// -32768..32768 that agrees with `lo + 256 * hi` modulo 65536.
pub proof fn lemma_le_i16_twos_complement(lo: u8, hi: u8)
    ensures
        -32768 <= le_i16(lo, hi) < 32768,
        (le_i16(lo, hi) - (lo + 256 * hi)) % 65536 == 0,
{
}

/// Read a signed little-endian 16-bit register value.
pub fn read_i16_le(lo: u8, hi: u8) -> (v: i16)
    ensures
        v as int == le_i16(lo, hi),
{
    if hi < 128 {
        (hi as i16) * 256 + (lo as i16)
    } else {
        ((hi as i16) - 256) * 256 + (lo as i16)
    }
}

/// Raw Euler angles (heading, roll, pitch) from the six bytes read from
/// `BNO055_EULER_H_LSB_ADDR` on; 16 units make one degree.
pub fn decode_euler(bytes: &[u8]) -> (e: (i16, i16, i16))
    requires
        bytes@.len() >= 6,
    ensures
        e.0 as int == le_i16(bytes@[0], bytes@[1]),
        e.1 as int == le_i16(bytes@[2], bytes@[3]),
        e.2 as int == le_i16(bytes@[4], bytes@[5]),
{
    (read_i16_le(bytes[0], bytes[1]), read_i16_le(bytes[2], bytes[3]), read_i16_le(bytes[4], bytes[5]))
}

/// Raw quaternion (w, x, y, z) from the eight bytes read from
/// `BNO055_QUATERNION_DATA_W_LSB_ADDR` on; 16384 units make one.
pub fn decode_quaternion(bytes: &[u8]) -> (q: (i16, i16, i16, i16))
    requires
        bytes@.len() >= 8,
    ensures
        q.0 as int == le_i16(bytes@[0], bytes@[1]),
        q.1 as int == le_i16(bytes@[2], bytes@[3]),
        q.2 as int == le_i16(bytes@[4], bytes@[5]),
        q.3 as int == le_i16(bytes@[6], bytes@[7]),
{
    (
        read_i16_le(bytes[0], bytes[1]),
        read_i16_le(bytes[2], bytes[3]),
        read_i16_le(bytes[4], bytes[5]),
        read_i16_le(bytes[6], bytes[7]),
    )
}

} // verus!
