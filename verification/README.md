# PadFlow core

PadFlow bridges DualShock 4 / DualSense pads to a virtual Xbox 360 pad
(ViGEmBus), with per-pad stick profiles, lightbar control, gyro and
touchpad mouse, and HidHide device cloaking.

* `src/` — the `padflow` library, verified with Verus: HID report parsing,
  output reports and their CRC-32, button remapping, pad discovery, the
  engine's profile / snapshot / lightbar registry and telemetry, the input
  loop's decisions, HidHide's path and list logic, the game detector and the
  mouse driver's profile registry. Every public function has a contract; the
  laws that relate several functions are public `proof fn`s named `lemma_*`.
* `tests/` — unit and randomised tests of the library.
* `app/` — the desktop application around it: the Tauri shell and commands,
  the input thread with its floating-point stick / trigger / gyro shaping,
  hidapi, ViGEmBus, the Windows registry, and the mouse driver daemon.
