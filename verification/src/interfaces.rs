//! The compute parts of the output sinks: column derivation and row filling
//! for the delimited-file sink, the derived timestamp of the
//! line-delimited-JSON sink, the record timestamp of the forward-protocol
//! sink, and the shared-key signature of the signed-HTTP sink. The sinks'
//! actual I/O lives in the driver.

pub mod azure_oms_interface;
pub mod file_interface;
pub mod fluentd_interface;
pub mod graylog_interface;
