//! The audio source: which JACK ports can feed it, what its notifications
//! mean for that list, and how it carries samples to the spectrum thread.

pub mod ports;
pub mod ring;
pub mod source;
