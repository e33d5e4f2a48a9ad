//! The barometer.

use crate::util::sensors::{
    register_read, register_write, views, DeviceError, Sensor, Transaction, TransactionView,
};
use vstd::prelude::*;

verus! {

/// The control register: measurement mode and oversampling.
pub const CONTROL: u8 = 0xF4;

/// Normal mode with single oversampling of pressure and temperature.
pub const CONTROL_NORMAL_MODE: u8 = 0x27;

/// The configuration register: standby time and filter.
pub const CONFIG: u8 = 0xF5;

/// The filter setting.
pub const CONFIG_FILTER: u8 = 0x0C;

/// The first of the six measurement registers.
pub const MEASUREMENT: u8 = 0xF7;

/// The number of measurement registers: pressure and temperature, three bytes each.
pub const MEASUREMENT_LEN: usize = 6;

/// One measurement: temperature in degrees Celsius and pressure in hPa, each as a
/// count of hundredths.
#[derive(Debug, Clone, Copy, PartialEq, Eq, Structural)]
pub struct BarometerData {
    pub temperature: i64,
    pub pressure: i64,
}

/// The driver of the barometer.
#[derive(Debug)]
pub struct Barometer {
    address: u8,
}

/// The 20-bit number that three registers hold: the high byte, the middle byte, and the
/// upper four bits of the low byte.
pub open spec fn packed_20_bits(high: u8, middle: u8, low: u8) -> int {
    high as int * 4096 + middle as int * 16 + low as int / 16
}

/// The 20-bit number that three registers hold.
pub fn read_packed_20_bits(high: u8, middle: u8, low: u8) -> (value: i64)
    ensures
        value == packed_20_bits(high, middle, low),
        0 <= value < 0x10_0000,
{
    high as i64 * 4096 + middle as i64 * 16 + low as i64 / 16
}

impl Sensor for Barometer {
    type Data = BarometerData;

    closed spec fn address(&self) -> u8 {
        self.address
    }

    /// Select normal mode with single oversampling, then the filter.
    open spec fn init_writes(&self) -> Seq<TransactionView> {
        seq![
            register_write(self.address(), CONTROL, CONTROL_NORMAL_MODE),
            register_write(self.address(), CONFIG, CONFIG_FILTER),
        ]
    }

    open spec fn measurement_request(&self) -> TransactionView {
        register_read(self.address(), MEASUREMENT, MEASUREMENT_LEN as nat)
    }

    /// A reply of six bytes holds the pressure and then the temperature, each as a
    /// 20-bit count of hundredths.
    open spec fn measurement(&self, reply: Seq<u8>) -> Result<BarometerData, DeviceError> {
        if reply.len() != MEASUREMENT_LEN {
            Err(DeviceError::Decode)
        } else {
            Ok(
                BarometerData {
                    temperature: packed_20_bits(reply[3], reply[4], reply[5]) as i64,
                    pressure: packed_20_bits(reply[0], reply[1], reply[2]) as i64,
                },
            )
        }
    }

    fn new(address: u8) -> (sensor: Self) {
        Barometer { address }
    }

    fn init(&self) -> (writes: Vec<Transaction>) {
        let mut writes: Vec<Transaction> = Vec::new();
        writes.push(Transaction::write_register(self.address, CONTROL, CONTROL_NORMAL_MODE));
        writes.push(Transaction::write_register(self.address, CONFIG, CONFIG_FILTER));
        assert(views(writes@) =~= self.init_writes());
        writes
    }

    fn request(&self) -> (read: Transaction) {
        Transaction::read_registers(self.address, MEASUREMENT, MEASUREMENT_LEN)
    }

    fn get_measurement(&self, reply: &[u8]) -> (data: Result<BarometerData, DeviceError>) {
        if reply.len() != MEASUREMENT_LEN {
            return Err(DeviceError::Decode);
        }
        Ok(
            BarometerData {
                temperature: read_packed_20_bits(reply[3], reply[4], reply[5]),
                pressure: read_packed_20_bits(reply[0], reply[1], reply[2]),
            },
        )
    }
}

} // verus!
