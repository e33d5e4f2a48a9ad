//! The six-axis accelerometer and gyroscope.

use crate::util::decimal::{lemma_round_half_even_bound, magnitude, rescale, rescaled};
use crate::util::sensors::{
    register_read, register_write, views, DeviceError, Sensor, Transaction, TransactionView,
};
use vstd::prelude::*;

verus! {

/// The register that wakes the device when zero is written to it.
pub const POWER_MANAGEMENT: u8 = 0x6B;

/// The register that selects the range of the gyroscope.
pub const GYRO_RANGE: u8 = 0x1B;

/// The register that selects the range of the accelerometer.
pub const ACCEL_RANGE: u8 = 0x1C;

/// The first of the fourteen measurement registers.
pub const MEASUREMENT: u8 = 0x3B;

/// The number of measurement registers: three axes of acceleration, the temperature,
/// three axes of rotation, two bytes each.
pub const MEASUREMENT_LEN: usize = 14;

/// Counts per g at the range of 2 g.
pub const ACCEL_COUNTS_PER_UNIT: u64 = 16384;

/// Counts per degree per second at the range of 250 degrees per second.
pub const GYRO_COUNTS_PER_UNIT: u64 = 131;

/// One measurement: acceleration in g and rotation in degrees per second along three
/// axes, each as a count of hundredths.
#[derive(Debug, Clone, Copy, PartialEq, Eq, Structural)]
pub struct AccelGyroData {
    pub accel_x: i64,
    pub accel_y: i64,
    pub accel_z: i64,
    pub gyro_x: i64,
    pub gyro_y: i64,
    pub gyro_z: i64,
}

/// The driver of the accelerometer and gyroscope.
#[derive(Debug)]
pub struct AccelGyro {
    address: u8,
}

/// The signed 16-bit number that two bytes hold, the high byte first.
pub open spec fn signed_pair(high: u8, low: u8) -> int {
    let unsigned = high as int * 256 + low as int;
    if unsigned >= 32768 {
        unsigned - 65536
    } else {
        unsigned
    }
}

/// Hundredths of a unit for a register count, at `counts_per_unit` counts to the unit.
pub open spec fn hundredths_of(count: int, counts_per_unit: nat) -> int {
    rescaled(count, 100, counts_per_unit)
}

/// The signed 16-bit number that two bytes hold, the high byte first.
pub fn read_signed_pair(high: u8, low: u8) -> (value: i64)
    ensures
        value == signed_pair(high, low),
        -32768 <= value <= 32767,
{
    let unsigned: i64 = high as i64 * 256 + low as i64;
    if unsigned >= 32768 {
        unsigned - 65536
    } else {
        unsigned
    }
}

impl AccelGyro {
    /// The register pair at `offset` of a reply, as hundredths of a unit.
    fn axis(reply: &[u8], offset: usize, counts_per_unit: u64) -> (value: i64)
        requires
            offset + 1 < reply@.len(),
            0 < counts_per_unit,
        ensures
            value == hundredths_of(
                signed_pair(reply@[offset as int], reply@[offset + 1]),
                counts_per_unit as nat,
            ),
            -3276800 <= value <= 3276800,
    {
        let count = read_signed_pair(reply[offset], reply[offset + 1]);
        proof {
            lemma_round_half_even_bound(magnitude(count as int) * 100, counts_per_unit as nat);
        }
        rescale(count, 100, counts_per_unit)
    }
}

impl Sensor for AccelGyro {
    type Data = AccelGyroData;

    closed spec fn address(&self) -> u8 {
        self.address
    }

    /// Wake the device, then select the ranges of 250 degrees per second and of 2 g.
    open spec fn init_writes(&self) -> Seq<TransactionView> {
        seq![
            register_write(self.address(), POWER_MANAGEMENT, 0x00),
            register_write(self.address(), GYRO_RANGE, 0x00),
            register_write(self.address(), ACCEL_RANGE, 0x00),
        ]
    }

    open spec fn measurement_request(&self) -> TransactionView {
        register_read(self.address(), MEASUREMENT, MEASUREMENT_LEN as nat)
    }

    /// A reply of fourteen bytes holds seven register pairs: acceleration along x, y and
    /// z, the temperature, which is not used, and rotation about x, y and z.
    open spec fn measurement(&self, reply: Seq<u8>) -> Result<AccelGyroData, DeviceError> {
        if reply.len() != MEASUREMENT_LEN {
            Err(DeviceError::Decode)
        } else {
            Ok(
                AccelGyroData {
                    accel_x: hundredths_of(signed_pair(reply[0], reply[1]), ACCEL_COUNTS_PER_UNIT as nat) as i64,
                    accel_y: hundredths_of(signed_pair(reply[2], reply[3]), ACCEL_COUNTS_PER_UNIT as nat) as i64,
                    accel_z: hundredths_of(signed_pair(reply[4], reply[5]), ACCEL_COUNTS_PER_UNIT as nat) as i64,
                    gyro_x: hundredths_of(signed_pair(reply[8], reply[9]), GYRO_COUNTS_PER_UNIT as nat) as i64,
                    gyro_y: hundredths_of(signed_pair(reply[10], reply[11]), GYRO_COUNTS_PER_UNIT as nat) as i64,
                    gyro_z: hundredths_of(signed_pair(reply[12], reply[13]), GYRO_COUNTS_PER_UNIT as nat) as i64,
                },
            )
        }
    }

    fn new(address: u8) -> (sensor: Self) {
        AccelGyro { address }
    }

    fn init(&self) -> (writes: Vec<Transaction>) {
        let mut writes: Vec<Transaction> = Vec::new();
        writes.push(Transaction::write_register(self.address, POWER_MANAGEMENT, 0x00));
        writes.push(Transaction::write_register(self.address, GYRO_RANGE, 0x00));
        writes.push(Transaction::write_register(self.address, ACCEL_RANGE, 0x00));
        assert(views(writes@) =~= self.init_writes());
        writes
    }

    fn request(&self) -> (read: Transaction) {
        Transaction::read_registers(self.address, MEASUREMENT, MEASUREMENT_LEN)
    }

    fn get_measurement(&self, reply: &[u8]) -> (data: Result<AccelGyroData, DeviceError>) {
        if reply.len() != MEASUREMENT_LEN {
            return Err(DeviceError::Decode);
        }
        Ok(
            AccelGyroData {
                accel_x: Self::axis(reply, 0, ACCEL_COUNTS_PER_UNIT),
                accel_y: Self::axis(reply, 2, ACCEL_COUNTS_PER_UNIT),
                accel_z: Self::axis(reply, 4, ACCEL_COUNTS_PER_UNIT),
                gyro_x: Self::axis(reply, 8, GYRO_COUNTS_PER_UNIT),
                gyro_y: Self::axis(reply, 10, GYRO_COUNTS_PER_UNIT),
                gyro_z: Self::axis(reply, 12, GYRO_COUNTS_PER_UNIT),
            },
        )
    }
}

} // verus!
