//! HP thermal control: the decisions of the tray application and of the
//! privileged service behind it.
//!
//! Everything here computes on plain values. Talking to Windows (the pipe, the
//! registry, WMI, the microphone, the screen) is left to the program around
//! this library, which asks the functions below what to do and reports back
//! what happened.

pub mod app;
pub mod audio;
pub mod bytes;
pub mod calendar;
pub mod calibration;
pub mod calls;
pub mod capability;
pub mod capture;
pub mod consent;
pub mod hwinfo;
pub mod install;
pub mod launch;
pub mod log;
pub mod measure;
pub mod menu;
pub mod meter;
pub mod mode;
pub mod nvml;
pub mod onboarding;
pub mod path;
pub mod pipe;
pub mod protocol;
pub mod service;
pub mod single;
pub mod text;
pub mod tracks;
pub mod tray;
pub mod wav;
pub mod wide;
pub mod win_harden;
pub mod wmi_com;
