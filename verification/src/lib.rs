//! The logic of a battery health monitor: it samples the battery voltage, keeps a
//! record of it, serves it on a web page whose forms change the settings, drives an
//! e-paper panel and checks over-the-air firmware updates.
pub mod battery;
pub mod commands;
pub mod frame;
pub mod network;
pub mod ota;
pub mod panel;
pub mod request;
pub mod storage;
