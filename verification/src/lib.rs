//! Civil time and instants.
//!
//! A date and a time of day are read from text (`parser`) into a civil
//! timestamp (`civil`), which stands on the calendar of the years 0000 to 9999
//! (`calendar`). In a time zone (`zone`) a civil timestamp names one instant,
//! two, or none, and an instant is shown as one date and time, which may lie
//! up to two days beside the calendar (`resolver`). An instant (`instant`) is
//! the one value that is shared: it has one text, with the offset `+00:00`.
//! The state of a picker of date, time and zone puts these together
//! (`picker`).

pub mod calendar;
pub mod civil;
pub mod instant;
pub mod parser;
pub mod picker;
pub mod resolver;
pub mod text;
pub mod zone;
