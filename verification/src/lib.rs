//! PadFlow core: the verified logic behind the PadFlow gamepad bridge.
//!
//! * [`buttons`] — the PS button bit layout shared by every module.
//! * [`pad`] — pad families, identifiers and the PS → XInput button logic.
//! * [`report`] — DualShock 4 / DualSense HID input report parsing.
//! * [`output`] — CRC-32 and the lightbar / rumble output reports.
//! * [`text`] — character-sequence helpers used by the string logic.
//! * [`hidhide`] — HidHide device-path normalisation, MULTI_SZ coding and
//!   the blacklist / whitelist state transitions.
//! * [`strmap`] — a string-keyed map that can list its entries.
//! * [`discovery`] — which HID collections are exposed as pads, and how.
//! * [`engine`] — the per-pad profile / snapshot / lightbar registry and
//!   the input loop's telemetry.
//! * [`poll`] — the decisions the input loop takes for every report.
//! * [`commands`] — the validation behind the UI commands, and the tray text.
//! * [`mouse`] — the profile registry of the native mouse driver.

pub mod buttons;
pub mod pad;
pub mod output;
pub mod report;
pub mod text;
pub mod hidhide;
pub mod strmap;
pub mod discovery;
pub mod engine;
pub mod poll;
pub mod commands;
pub mod mouse;
pub mod games;
