# sayall

The verified core of the SayAll bridge between Xiaomi Bluetooth remotes
(RC001, RC003) and Chromecast Remotes and Windows: button decoding and
merging, Raw Input device selection and binding audits, the keyboard hook's
swallow decisions, the RC003 filter, capture and loopback bridge protocols,
the button-mapping engine front, BLE reconnect supervision, Bluetooth radio
recovery decisions, the audio output worker with its bounded PCM queue, and
the voice-target settings.

- `src/` is the library; every function in it carries a contract that Verus
  proves, and cross-function properties are stated as `law_*` proof functions.
- `tests/` exercises the library on concrete values.
- `app/` holds what the verified core does not: serializable copies of its
  types, the settings and statistics that carry floating-point values, host
  error values, the descriptor file write, and message routing glue.

The Windows platform calls (WinRT Bluetooth, WASAPI, Raw Input, SendInput,
the Windows shell) feed their results into the library's decision functions.
