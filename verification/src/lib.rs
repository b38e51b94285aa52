//! Verified protocol, map and control logic of a six-legged walking robot.

pub mod crc;
pub mod packet;
pub mod ld19;
pub mod grid;
pub mod text;
pub mod nmea;
pub mod ubec;
pub mod legs;
pub mod gait;
pub mod servo;
pub mod filter;
pub mod assembler;
pub mod tts;
pub mod web;
pub mod imu;
pub mod sim;
