pub mod decimal;
pub mod nmea;
pub mod scan;
pub mod sensors;
