//! Codec for the bit-packed CAN payloads of a forward radar sensor.
//!
//! The crate translates between engineering quantities (speeds, angles,
//! object kinematics, status enumerations) and fixed-width bit fields packed
//! into 8-byte frame payloads under Motorola (big-endian, MSB-first) bit
//! numbering. Frame transmission and reception on the physical bus are left
//! to the caller; everything here is a pure function over its arguments.

pub mod bitpack;
pub mod radar;
pub mod types;
