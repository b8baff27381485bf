//! Message identifiers, status enumerations and decoded record types.
//!
//! Every enumeration decode is total: a raw code either names a variant or is
//! surfaced explicitly, as an error or as a reserved-code carrier. Physical
//! quantities in the decoded records are kept as the raw integers of the wire
//! fields (after sign extension and raw-domain offsets); the fixed scale
//! factor of each field is documented next to it, so a consumer multiplies
//! once to obtain the engineering unit.

use vstd::prelude::*;

verus! {

/// Identifier of the ESC run-1 message (accelerations and yaw rate).
pub const ID_ESC_RUN1: u32 = 0x141;

/// Identifier of the ESC run-2 message (wheel-speed validities).
pub const ID_ESC_RUN2: u32 = 0x142;

/// Identifier of the EPS run message (steering angle and speed).
pub const ID_EPS_RUN: u32 = 0x221;

/// Identifier of the ABS fault-info message (four wheel speeds).
pub const ID_ABS_FAULT: u32 = 0x310;

/// Identifier of the ABS run-1 message (vehicle speed).
pub const ID_ABS_RUN1: u32 = 0x330;

/// Identifier of the ABS run-2 message (gear).
pub const ID_ABS_RUN2: u32 = 0x210;

/// Identifier of the radar status message.
pub const ID_FRS_STATUS: u32 = 0x80;

/// First identifier of the object part-1 family (16 identifiers wide).
pub const ID_FRS_OBJ_PART1_BASE: u32 = 0x60;

/// First identifier of the object part-2 family (16 identifiers wide).
pub const ID_FRS_OBJ_PART2_BASE: u32 = 0x70;

/// Decode failure for a received frame.
#[derive(Debug, Clone, Copy, PartialEq, Eq, Structural)]
pub enum DecodeError {
    /// The received payload is shorter than the full 8-byte frame.
    ShortPayload,
}

/// A status code that the protocol marks reserved or undefined, carried
/// back to the caller instead of being silently replaced.
#[derive(Debug, Clone, Copy, PartialEq, Eq, Structural)]
pub struct InvalidStatusValueError(pub u8);

/// Radar calibration state, a 3-bit code on the wire.
#[derive(Debug, Clone, Copy, PartialEq, Eq, Structural)]
pub enum CalibrationStatus {
    /// Code 0: unknown (marked invalid by the protocol but named).
    Unknown,
    /// Code 1: calibrated.
    Calibrated,
    /// Code 2: sensor misalignment detected.
    SensorMisalignmentDetected,
    /// Code 3: calibration in progress.
    CalibrationInProgress,
    /// Code 4: uncalibratable.
    Uncalibratable,
}

/// Selected gear, a 2-bit code on the wire.
#[derive(Debug, Clone, Copy, PartialEq, Eq, Structural)]
pub enum VehicleGear {
    /// Code 0: unknown.
    Unknown,
    /// Code 1: reverse.
    Reverse,
    /// Code 2: drive.
    Drive,
    /// Code 3: neutral.
    Neutral,
}

/// Tracked-object motion classification, a 3-bit code on the wire.
/// Codes 5 to 7 are reserved and carried verbatim.
#[derive(Debug, Clone, Copy, PartialEq, Eq, Structural)]
pub enum MotionPattern {
    Unknown,
    StationaryInvalid,
    Stopped,
    Moving,
    CrossingInvalid,
    Reserved(u8),
}

/// Tracked-object class, a 2-bit code on the wire; every code is defined.
#[derive(Debug, Clone, Copy, PartialEq, Eq, Structural)]
pub enum ObjectType {
    Unknown,
    FourWheeler,
    TwoWheelerInvalid,
    PedestrianInvalid,
}

/// The total mapping from a raw code to a calibration status: codes 5 and
/// above are rejected with the offending code.
pub open spec fn calibration_status_of(code: u8) -> Result<
    CalibrationStatus,
    InvalidStatusValueError,
> {
    if code == 0 {
        Ok(CalibrationStatus::Unknown)
    } else if code == 1 {
        Ok(CalibrationStatus::Calibrated)
    } else if code == 2 {
        Ok(CalibrationStatus::SensorMisalignmentDetected)
    } else if code == 3 {
        Ok(CalibrationStatus::CalibrationInProgress)
    } else if code == 4 {
        Ok(CalibrationStatus::Uncalibratable)
    } else {
        Err(InvalidStatusValueError(code))
    }
}

/// The total mapping from a raw code to a gear: codes 4 and above are
/// rejected with the offending code.
pub open spec fn vehicle_gear_of(code: u8) -> Result<VehicleGear, InvalidStatusValueError> {
    if code == 0 {
        Ok(VehicleGear::Unknown)
    } else if code == 1 {
        Ok(VehicleGear::Reverse)
    } else if code == 2 {
        Ok(VehicleGear::Drive)
    } else if code == 3 {
        Ok(VehicleGear::Neutral)
    } else {
        Err(InvalidStatusValueError(code))
    }
}

/// The 2-bit wire code of a gear, the inverse of `vehicle_gear_of` on the
/// defined codes.
pub open spec fn vehicle_gear_code(gear: VehicleGear) -> u8 {
    match gear {
        VehicleGear::Unknown => 0,
        VehicleGear::Reverse => 1,
        VehicleGear::Drive => 2,
        VehicleGear::Neutral => 3,
    }
}

/// The total mapping from a raw code to a motion pattern: reserved codes are
/// carried verbatim, never replaced.
pub open spec fn motion_pattern_of(code: u8) -> MotionPattern {
    if code == 0 {
        MotionPattern::Unknown
    } else if code == 1 {
        MotionPattern::StationaryInvalid
    } else if code == 2 {
        MotionPattern::Stopped
    } else if code == 3 {
        MotionPattern::Moving
    } else if code == 4 {
        MotionPattern::CrossingInvalid
    } else {
        MotionPattern::Reserved(code)
    }
}

/// The total mapping from a raw 2-bit code to an object type.
pub open spec fn object_type_of(code: u8) -> ObjectType {
    if code == 1 {
        ObjectType::FourWheeler
    } else if code == 2 {
        ObjectType::TwoWheelerInvalid
    } else if code == 3 {
        ObjectType::PedestrianInvalid
    } else {
        ObjectType::Unknown
    }
}

impl CalibrationStatus {
    /// Decodes a raw calibration-status code; reserved and undefined codes
    /// (5 and above) yield an error carrying the code.
    pub fn decode(code: u8) -> (r: Result<CalibrationStatus, InvalidStatusValueError>)
        ensures
            r == calibration_status_of(code),
    {
        match code {
            0 => Ok(CalibrationStatus::Unknown),
            1 => Ok(CalibrationStatus::Calibrated),
            2 => Ok(CalibrationStatus::SensorMisalignmentDetected),
            3 => Ok(CalibrationStatus::CalibrationInProgress),
            4 => Ok(CalibrationStatus::Uncalibratable),
            _ => Err(InvalidStatusValueError(code)),
        }
    }
}

impl VehicleGear {
    /// Decodes a raw gear code; codes 4 and above yield an error carrying
    /// the code.
    pub fn decode(code: u8) -> (r: Result<VehicleGear, InvalidStatusValueError>)
        ensures
            r == vehicle_gear_of(code),
    {
        match code {
            0 => Ok(VehicleGear::Unknown),
            1 => Ok(VehicleGear::Reverse),
            2 => Ok(VehicleGear::Drive),
            3 => Ok(VehicleGear::Neutral),
            _ => Err(InvalidStatusValueError(code)),
        }
    }

    /// The 2-bit code this gear is sent as.
    pub fn code(&self) -> (c: u8)
        ensures
            c == vehicle_gear_code(*self),
            c < 4,
    {
        match self {
            VehicleGear::Unknown => 0,
            VehicleGear::Reverse => 1,
            VehicleGear::Drive => 2,
            VehicleGear::Neutral => 3,
        }
    }
}

impl MotionPattern {
    /// Decodes a raw motion-pattern code; this mapping is total, reserved
    /// codes come back as `Reserved`.
    pub fn decode(code: u8) -> (r: MotionPattern)
        ensures
            r == motion_pattern_of(code),
    {
        match code {
            0 => MotionPattern::Unknown,
            1 => MotionPattern::StationaryInvalid,
            2 => MotionPattern::Stopped,
            3 => MotionPattern::Moving,
            4 => MotionPattern::CrossingInvalid,
            _ => MotionPattern::Reserved(code),
        }
    }
}

impl ObjectType {
    /// Decodes a raw 2-bit object-type code; every code names a variant.
    pub fn decode(code: u8) -> (r: ObjectType)
        ensures
            r == object_type_of(code),
    {
        match code {
            1 => ObjectType::FourWheeler,
            2 => ObjectType::TwoWheelerInvalid,
            3 => ObjectType::PedestrianInvalid,
            _ => ObjectType::Unknown,
        }
    }
}

/// Law: every defined gear code decodes back to the gear it encodes.
pub proof fn lemma_gear_code_round_trip(gear: VehicleGear)
    ensures
        vehicle_gear_of(vehicle_gear_code(gear)) == Ok::<VehicleGear, InvalidStatusValueError>(
            gear,
        ),
{
}

/// Decoded radar status message. Scales: latency is `latency_raw` × 2 ms;
/// host speed is `host_speed_raw` × 0.025 m/s (the raw-domain floor offset of
/// −800 is already applied); host yaw rate is `host_yaw_raw` × 0.1 deg/s.
#[derive(Debug, Clone, Copy)]
pub struct FrsStatus {
    /// 6-bit latency field; milliseconds = raw × 2.
    pub latency_raw: u8,
    /// 16-bit timestamp in seconds.
    pub timestamp_s: u16,
    /// Host speed after the −800 raw floor; m/s = raw × 0.025.
    pub host_speed_raw: i16,
    /// Radar blockage flag.
    pub blocked: bool,
    /// Failure flag.
    pub fail_flag: bool,
    /// Measurement-enabled flag.
    pub meas_enabled: bool,
    /// 11-bit signed host yaw rate; deg/s = raw × 0.1.
    pub host_yaw_raw: i16,
    /// Rolling 4-bit sequence number.
    pub alive_counter: u8,
    /// Misalignment field: a defined code names its status, and a reserved
    /// code (5 to 7) is surfaced as the error carrying that code, never
    /// replaced by a default.
    pub misalign_status: Result<CalibrationStatus, InvalidStatusValueError>,
    /// Hardware error flag.
    pub hw_error: bool,
}

/// Decoded object part-1 message (tracking quality and classification).
/// Scales: position standard deviations are raw × 0.1 m; obstacle
/// probability is raw × 3.2258 %; relative-acceleration is raw × 0.15 − 9.6
/// m/s²; velocity standard deviation is raw × 0.05 m/s; existence
/// probability is raw × 1.5873 %.
#[derive(Debug, Clone, Copy)]
pub struct ObjPart1 {
    /// 8-bit object identifier; 0xFF marks an invalid slot.
    pub obj_id: u8,
    /// 7-bit x-position standard deviation; m = raw × 0.1.
    pub x_pos_stdev_raw: u8,
    /// Object-updated flag.
    pub update_flag: bool,
    /// 7-bit y-position standard deviation; m = raw × 0.1.
    pub y_pos_stdev_raw: u8,
    /// Object-valid flag.
    pub valid_flag: bool,
    /// 5-bit obstacle probability; % = raw × 3.2258.
    pub obstacle_prob_raw: u8,
    /// 3-bit motion pattern, decoded totally.
    pub motion_pattern: MotionPattern,
    /// 7-bit signed relative longitudinal acceleration; m/s² = raw × 0.15 − 9.6.
    pub x_acc_rel_raw: i8,
    /// 7-bit relative-velocity standard deviation; m/s = raw × 0.05.
    pub x_vel_rel_stdev_raw: u8,
    /// Rolling 4-bit sequence number.
    pub alive_counter: u8,
    /// 6-bit existence probability; % = raw × 1.5873.
    pub exst_prob_raw: u8,
    /// 8-bit message checksum, not validated here.
    pub checksum: u8,
}

/// Decoded object part-2 message (kinematics). Scales: relative velocities
/// are raw × 0.1 m/s; positions are raw × 0.015625 m.
#[derive(Debug, Clone, Copy)]
pub struct ObjPart2 {
    /// 11-bit signed relative longitudinal velocity; m/s = raw × 0.1.
    pub x_vel_rel_raw: i16,
    /// 13-bit signed lateral position; m = raw × 0.015625.
    pub y_pos_raw: i16,
    /// 2-bit object type, every code defined.
    pub obj_type: ObjectType,
    /// 14-bit unsigned longitudinal position; m = raw × 0.015625.
    pub x_pos_raw: u16,
    /// Rolling 4-bit sequence number.
    pub alive_counter: u8,
    /// Set when the measurement is extrapolated rather than observed.
    pub meas_flag_extrapolated: bool,
    /// 11-bit signed relative lateral velocity; m/s = raw × 0.1.
    pub y_vel_rel_raw: i16,
    /// 8-bit message checksum, not validated here.
    pub checksum: u8,
}

} // verus!
