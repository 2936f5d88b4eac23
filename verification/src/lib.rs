//! Identifies which serial-capable device is attached to which port of a
//! host, against a configured catalogue of device profiles. A profile
//! describes a device by static attributes (vendor and product identifiers,
//! manufacturer, product and serial-number strings) and/or by an active
//! handshake: a command sent over the serial line whose response is compared
//! against an expected value.
//!
//! The library holds the verified core: the static matcher, the decision
//! logic of the identification handshake, the splitting and bookkeeping of
//! the follow-up actions, and the assignment coordinator that maps ports to
//! profiles while never re-probing a claimed port. All hardware access —
//! opening ports, reading and writing bytes, running processes — stays with
//! the caller, who drives [`scan::ScanState`] step by step.

pub mod device;
pub mod protocol;
pub mod scan;
pub mod text;
