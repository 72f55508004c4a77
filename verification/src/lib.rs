//! Mode S / ADS-B reception: from an envelope of samples to aircraft tracks.
//!
//! The stages, in the order in which a block of samples passes them:
//!
//! - [`demod`] turns interleaved I/Q bytes into an envelope, finds preambles
//!   in it and slices the pulse pairs that follow one into the fourteen bytes
//!   of a frame;
//! - [`parity`] computes the 24-bit checksum of a frame, compares it with the
//!   parity that the frame carries and repairs one or two inverted bits;
//!   [`syndrome`] holds the table of the code;
//! - [`receiver`] runs the two over every window of a block and keeps the
//!   frames that the parity accepts;
//! - [`tracker`] reads the downlink format and the address of an accepted
//!   frame and keeps the registry of aircraft;
//! - [`adsb`] reads the payload of an extended squitter, through the bit
//!   cursor of [`bitreader`];
//! - [`cpr`] decodes a pair of position reports into a latitude and a
//!   longitude, as the exact fractions of [`angle`];
//! - [`aircraft`] is the record of one aircraft.
//!
//! Nothing here reads a device, a clock or a file: samples and times come in
//! as arguments, and what is to be published comes back as values.

pub mod adsb;
pub mod aircraft;
pub mod angle;
pub mod bitreader;
pub mod cpr;
pub mod demod;
pub mod parity;
pub mod receiver;
pub mod syndrome;
pub mod tracker;
