use lrr_230pro_can_driver::bitpack::{get_bits_m, set_bits_m};
use lrr_230pro_can_driver::radar::{
    dispatch_frame, encode_abs_fault_info, encode_abs_sts_run1, encode_abs_sts_run2,
    encode_eps_sts_run, encode_esc_sts_run1, encode_esc_sts_run2, encode_vehicle_state,
    parse_frs_status, parse_object_part1, parse_object_part2, RadarMessage,
};
use lrr_230pro_can_driver::types::{
    CalibrationStatus, DecodeError, InvalidStatusValueError, MotionPattern, ObjectType,
    VehicleGear, ID_ABS_RUN1, ID_ABS_RUN2, ID_EPS_RUN,
};

#[test]
fn frs_status_zero_frame_boundary() {
    let d = [0u8; 8];
    let st = parse_frs_status(&d).unwrap();
    // raw 0 under scale 0.025 and raw floor -800 is exactly -20 m/s
    assert_eq!(st.host_speed_raw, -800);
    assert_eq!((st.host_speed_raw as f32) * 0.025, -20.0);
    assert_eq!((st.latency_raw as f32) * 2.0, 0.0);
    assert_eq!(st.timestamp_s, 0);
    assert_eq!(st.host_yaw_raw, 0);
    assert!(!st.blocked && !st.fail_flag && !st.meas_enabled && !st.hw_error);
    assert_eq!(st.misalign_status, Ok(CalibrationStatus::Unknown));
}

#[test]
fn obj_part2_zero_frame_boundary() {
    let d = [0u8; 8];
    let p2 = parse_object_part2(&d).unwrap();
    let x_pos_m = (p2.x_pos_raw as f32) * 0.015625;
    assert_eq!(x_pos_m, 0.0);
    assert!(x_pos_m >= 0.0);
    assert_eq!(p2.x_vel_rel_raw, 0);
    assert_eq!(p2.y_pos_raw, 0);
    assert_eq!(p2.obj_type, ObjectType::Unknown);
}

#[test]
fn calibration_status_totality() {
    assert_eq!(
        CalibrationStatus::decode(0x02),
        Ok(CalibrationStatus::SensorMisalignmentDetected)
    );
    assert_eq!(
        CalibrationStatus::decode(0x05),
        Err(InvalidStatusValueError(0x05))
    );
    assert_eq!(CalibrationStatus::decode(0x00), Ok(CalibrationStatus::Unknown));
    assert_eq!(
        CalibrationStatus::decode(0xFF),
        Err(InvalidStatusValueError(0xFF))
    );
}

#[test]
fn vehicle_gear_totality() {
    assert_eq!(VehicleGear::decode(0x02), Ok(VehicleGear::Drive));
    assert_eq!(VehicleGear::decode(0x04), Err(InvalidStatusValueError(0x04)));
    assert_eq!(VehicleGear::decode(0x01), Ok(VehicleGear::Reverse));
}

#[test]
fn motion_pattern_reserved_codes_carried() {
    assert_eq!(MotionPattern::decode(3), MotionPattern::Moving);
    assert_eq!(MotionPattern::decode(4), MotionPattern::CrossingInvalid);
    assert_eq!(MotionPattern::decode(5), MotionPattern::Reserved(5));
    assert_eq!(MotionPattern::decode(7), MotionPattern::Reserved(7));
}

#[test]
fn object_type_all_codes_defined() {
    assert_eq!(ObjectType::decode(0), ObjectType::Unknown);
    assert_eq!(ObjectType::decode(1), ObjectType::FourWheeler);
    assert_eq!(ObjectType::decode(2), ObjectType::TwoWheelerInvalid);
    assert_eq!(ObjectType::decode(3), ObjectType::PedestrianInvalid);
}

#[test]
fn dispatch_indexes_object_families() {
    let d = [0u8; 8];
    match dispatch_frame(0x65, &d).unwrap() {
        Some(RadarMessage::ObjectPart1(idx, _)) => assert_eq!(idx, 5),
        other => panic!("expected an object part-1 message, got {:?}", other),
    }
    match dispatch_frame(0x7F, &d).unwrap() {
        Some(RadarMessage::ObjectPart2(idx, _)) => assert_eq!(idx, 15),
        other => panic!("expected an object part-2 message, got {:?}", other),
    }
    match dispatch_frame(0x80, &d).unwrap() {
        Some(RadarMessage::Status(st)) => assert_eq!(st.host_speed_raw, -800),
        other => panic!("expected the status message, got {:?}", other),
    }
}

#[test]
fn dispatch_ignores_unknown_identifiers() {
    let d = [0u8; 8];
    assert!(dispatch_frame(0x90, &d).unwrap().is_none());
    assert!(dispatch_frame(0x141, &d).unwrap().is_none());
    assert!(dispatch_frame(0x5F, &d).unwrap().is_none());
}

#[test]
fn short_payload_is_a_decode_error() {
    let d = [0u8; 7];
    assert!(matches!(
        dispatch_frame(0x80, &d),
        Err(DecodeError::ShortPayload)
    ));
    assert_eq!(parse_frs_status(&d).unwrap_err(), DecodeError::ShortPayload);
    assert_eq!(parse_object_part1(&d).unwrap_err(), DecodeError::ShortPayload);
    assert_eq!(parse_object_part2(&d).unwrap_err(), DecodeError::ShortPayload);
}

#[test]
fn eps_angle_clamps_at_positive_bound() {
    // physical 900.0 deg at 0.1 deg/count rounds to raw 9000; the encoder
    // must saturate to 7799 (779.9 deg), whose top byte is 0x1E, not keep
    // the unclamped 9000 (0x2328), whose top byte would be 0x23
    let raw = (900.0f32 / 0.1).round() as i64;
    assert_eq!(raw, 9000);
    let f = encode_eps_sts_run(raw, 0, true, false);
    assert_eq!(f.id, ID_EPS_RUN);
    assert_eq!(get_bits_m(&f.payload, 8, 8), 0x1E);
}

#[test]
fn eps_angle_clamps_at_negative_bound() {
    let f = encode_eps_sts_run(-9000, 0, true, false);
    // -7800 as 16-bit two's complement is 0xE188; its top byte survives
    assert_eq!(get_bits_m(&f.payload, 8, 8), 0xE1);
}

#[test]
fn eps_speed_and_flags() {
    let f = encode_eps_sts_run(0, 300, true, false);
    assert_eq!(get_bits_m(&f.payload, 16, 8), 255); // clamped to one byte
    assert_eq!(get_bits_m(&f.payload, 30, 1), 1);
    assert_eq!(get_bits_m(&f.payload, 31, 1), 0);
    let g = encode_eps_sts_run(0, 17, false, true);
    assert_eq!(get_bits_m(&g.payload, 16, 8), 17);
    assert_eq!(get_bits_m(&g.payload, 30, 1), 0);
    assert_eq!(get_bits_m(&g.payload, 31, 1), 1);
}

#[test]
fn esc_run1_fields_and_overlap() {
    let f = encode_esc_sts_run1(100, -100, 1000, true, false, true);
    assert_eq!(f.id, 0x141);
    assert_eq!(get_bits_m(&f.payload, 8, 16), 100);
    assert_eq!(get_bits_m(&f.payload, 24, 16), 0xFF9C); // -100 in 16 bits
    // the validity bits at 48..50 overwrite part of the yaw field (raw 1000)
    assert_eq!(get_bits_m(&f.payload, 40, 8), 1000 / 256);
    assert_eq!(get_bits_m(&f.payload, 48, 1), 1);
    assert_eq!(get_bits_m(&f.payload, 49, 1), 0);
    assert_eq!(get_bits_m(&f.payload, 50, 1), 1);
    assert_eq!(get_bits_m(&f.payload, 51, 5), 1000 % 32);
    assert_eq!(get_bits_m(&f.payload, 0, 8), 0);
    assert_eq!(get_bits_m(&f.payload, 56, 8), 0);
}

#[test]
fn esc_run1_saturates_to_sixteen_bits() {
    let f = encode_esc_sts_run1(40000, -40000, 0, false, false, false);
    assert_eq!(get_bits_m(&f.payload, 8, 16), 0x7FFF);
    assert_eq!(get_bits_m(&f.payload, 24, 16), 0x8000);
}

#[test]
fn esc_run2_packs_four_codes() {
    let f = encode_esc_sts_run2(1, 2, 3, 0);
    assert_eq!(f.id, 0x142);
    assert_eq!(f.payload[0], 0b01_10_11_00);
    assert_eq!(get_bits_m(&f.payload, 8, 56), 0);
    // codes wider than two bits are taken modulo 4 as on the wire
    let g = encode_esc_sts_run2(5, 0, 0, 0);
    assert_eq!(get_bits_m(&g.payload, 0, 2), 1);
}

#[test]
fn abs_fault_info_fields() {
    let f = encode_abs_fault_info(1000, 10000, 0, 1000);
    assert_eq!(f.id, 0x310);
    assert_eq!(get_bits_m(&f.payload, 11, 13), 1000);
    // 10000 exceeds 13 bits and wraps modulo 8192, the known limitation
    assert_eq!(get_bits_m(&f.payload, 27, 13), 10000 % 8192);
    assert_eq!(get_bits_m(&f.payload, 43, 13), 0);
    // the rear-right field at bit 56 has room for its top 8 bits only
    assert_eq!(get_bits_m(&f.payload, 56, 8), 1000 / 32);
    let g = encode_abs_fault_info(-5, 100000, 0, 0);
    assert_eq!(get_bits_m(&g.payload, 11, 13), 0); // saturated below
    assert_eq!(get_bits_m(&g.payload, 27, 13), 65535 % 8192); // saturated above
}

#[test]
fn abs_run1_speed_and_inverted_validity() {
    // 15 m/s is 54 km/h; at 0.05625 km/h per count that rounds to raw 960
    let raw = (15.0f32 * 3.6 / 0.05625).round() as i64;
    assert_eq!(raw, 960);
    let f = encode_abs_sts_run1(raw, true);
    assert_eq!(f.id, ID_ABS_RUN1);
    assert_eq!(get_bits_m(&f.payload, 8, 8), 960 / 32);
    assert_eq!(get_bits_m(&f.payload, 16, 1), 0); // 0 on the wire means valid
    assert_eq!(get_bits_m(&f.payload, 17, 4), 960 % 16);
    let g = encode_abs_sts_run1(raw, false);
    assert_eq!(get_bits_m(&g.payload, 16, 1), 1);
}

#[test]
fn abs_run2_gear_code() {
    let f = encode_abs_sts_run2(VehicleGear::Drive);
    assert_eq!(f.id, ID_ABS_RUN2);
    assert_eq!(f.payload[0], 0b00_10_0000);
    assert_eq!(get_bits_m(&f.payload, 4, 60), 0);
}

#[test]
fn vehicle_state_sends_three_frames() {
    let frames = encode_vehicle_state(960, VehicleGear::Drive);
    assert_eq!(frames.len(), 3);
    assert_eq!(frames[0].id, ID_ABS_RUN1);
    assert_eq!(frames[1].id, ID_EPS_RUN);
    assert_eq!(frames[2].id, ID_ABS_RUN2);
    assert_eq!(get_bits_m(&frames[0].payload, 16, 1), 0);
    assert_eq!(get_bits_m(&frames[2].payload, 2, 2), 2);
}

#[test]
fn frs_status_nonzero_fields() {
    // the status fields overlap on the wire, so each group gets its own payload
    let mut a = vec![0u8; 8];
    set_bits_m(&mut a, 2, 6, 25);
    set_bits_m(&mut a, 18, 16, 1234);
    let st = parse_frs_status(&a).unwrap();
    assert_eq!(st.latency_raw, 25);
    assert_eq!((st.latency_raw as f32) * 2.0, 50.0);
    assert_eq!(st.timestamp_s, 1234);

    let mut b = vec![0u8; 8];
    set_bits_m(&mut b, 38, 12, 800);
    let st = parse_frs_status(&b).unwrap();
    assert_eq!(st.host_speed_raw, 0); // raw 800 is the 0 m/s floor point
    // the blockage and failure flags sit inside the speed field and read
    // bits 2 and 3 of the raw 800 pattern
    assert!(st.blocked && st.fail_flag && !st.meas_enabled);

    let mut c = vec![0u8; 8];
    set_bits_m(&mut c, 43, 11, 0x7FF);
    let st = parse_frs_status(&c).unwrap();
    assert_eq!(st.host_yaw_raw, -1);
    assert_eq!(st.alive_counter, 15); // the alive field sits inside the yaw field

    let mut e = vec![0u8; 8];
    set_bits_m(&mut e, 52, 3, 2);
    let st = parse_frs_status(&e).unwrap();
    assert_eq!(
        st.misalign_status,
        Ok(CalibrationStatus::SensorMisalignmentDetected)
    );
    assert!(!st.hw_error);
}

#[test]
fn frs_status_reserved_misalignment_is_surfaced() {
    // a reserved code is carried to the caller, never replaced by a default
    let mut d = vec![0u8; 8];
    set_bits_m(&mut d, 52, 3, 5);
    let st = parse_frs_status(&d).unwrap();
    assert_eq!(st.misalign_status, Err(InvalidStatusValueError(5)));
    let mut e = vec![0u8; 8];
    set_bits_m(&mut e, 52, 3, 7);
    let st = parse_frs_status(&e).unwrap();
    assert_eq!(st.misalign_status, Err(InvalidStatusValueError(7)));
}

#[test]
fn obj_part1_fields() {
    let mut d = vec![0u8; 8];
    set_bits_m(&mut d, 0, 8, 7);
    set_bits_m(&mut d, 8, 7, 12);
    set_bits_m(&mut d, 15, 1, 1);
    set_bits_m(&mut d, 29, 3, 5);
    set_bits_m(&mut d, 33, 7, 0x40); // -64 raw
    set_bits_m(&mut d, 56, 8, 0xAB);
    let p1 = parse_object_part1(&d).unwrap();
    assert_eq!(p1.obj_id, 7);
    assert_eq!(p1.x_pos_stdev_raw, 12);
    assert!(p1.update_flag);
    assert_eq!(p1.motion_pattern, MotionPattern::Reserved(5));
    assert_eq!(p1.x_acc_rel_raw, -64);
    assert_eq!(p1.checksum, 0xAB);
    // an all-zero acceleration field sits at the -9.6 m/s^2 floor
    let z = parse_object_part1(&[0u8; 8]).unwrap();
    assert_eq!((z.x_acc_rel_raw as f32) * 0.15 - 9.6, -9.6);
}

#[test]
fn obj_part2_fields() {
    // the velocity and position fields overlap on the wire, so each gets
    // its own payload
    let mut a = vec![0u8; 8];
    set_bits_m(&mut a, 13, 11, 0x400); // -1024 raw
    let p2 = parse_object_part2(&a).unwrap();
    assert_eq!(p2.x_vel_rel_raw, -1024);
    assert_eq!(p2.y_pos_raw, 0);

    let mut b = vec![0u8; 8];
    set_bits_m(&mut b, 16, 13, 100);
    let p2 = parse_object_part2(&b).unwrap();
    assert_eq!(p2.y_pos_raw, 100);
    // the tail of the velocity field reads the top bits of that position
    assert_eq!(p2.x_vel_rel_raw, 3);

    let mut c = vec![0u8; 8];
    set_bits_m(&mut c, 32, 2, 1);
    set_bits_m(&mut c, 34, 14, 6400);
    set_bits_m(&mut c, 52, 1, 1);
    let p2 = parse_object_part2(&c).unwrap();
    assert_eq!(p2.obj_type, ObjectType::FourWheeler);
    assert_eq!(p2.x_pos_raw, 6400);
    assert_eq!((p2.x_pos_raw as f32) * 0.015625, 100.0);
    assert!(p2.meas_flag_extrapolated);
}
