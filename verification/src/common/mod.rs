pub mod consts;
pub mod data;
pub mod control;
pub mod net_utils;
pub mod stream_worker;
pub mod ui;
