//! Client-side logic of a school timetable service: resolving the command
//! line into a credential, building the requests of a session, judging the
//! replies, and laying the day's appointments out as lines of text.

pub mod text;
pub mod time;
pub mod appointment;
pub mod render;
pub mod config;
pub mod zermelo;
