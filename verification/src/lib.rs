//! Verified core of the SayAll remote-control bridge: button decoding and
//! merging, device selection and binding, gating and recovery decisions, the
//! audio output worker, the mapping engine front and the voice-target
//! settings.
pub mod text;
pub mod raw_input;
pub mod raw_input_listener;
pub mod platform;
pub mod bluetooth_radio;
pub mod ble;
pub mod rc003_filter;
pub mod rc003_user_hid;
pub mod rc003_helper;
pub mod key_gate;
pub mod send_input;
pub mod voice_target;
pub mod rc003_bridge;
pub mod app_launcher;
pub mod audio;
pub mod button_mapping;
pub mod settings;
