//! Decoder for the byte stream of a sixteen-channel biosignal acquisition
//! board: frame extraction, packet decoding, pairing of half-packets into
//! readings, and the command protocol that configures and drives the board.

pub mod codec;
pub mod packet;
pub mod reading;
pub mod framer;
pub mod pairing;
pub mod decoder;
pub mod wire;
pub mod session;
