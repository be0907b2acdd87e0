//! Verified core of the roomci QA contract emulator.

pub mod text;
pub mod strmap;
pub mod value;
pub mod json;
pub mod edge;
pub mod device;
pub mod modbus;
pub mod modbus_tcp;
pub mod mqtt;
pub mod ops;
pub mod scenario;
pub mod checks;
pub mod timing;
pub mod domain;
pub mod adapter;
pub mod report;
pub mod serve;
pub mod serve_state;
pub mod cli;
pub mod runtime;
pub mod assertions;
pub mod debug;
pub mod run;
pub mod typed;
pub mod recovery;
pub mod mqtt_contract;
pub mod constraint;
pub mod adapter_contract;
pub mod validate;
pub mod fault;
pub mod mapping;
