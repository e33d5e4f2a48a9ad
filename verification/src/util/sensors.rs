//! The three sensors on the shared two-wire bus and the manager that sequences them.
//!
//! Nothing here touches the bus. A driver says which exchanges it wants and what a
//! reply means; the manager says in which order they happen and when to give up. The
//! caller performs each exchange, one at a time, and reports how it went.

pub mod accelerometer_gyro;
pub mod barometer;
pub mod gps;

use crate::util::sensors::accelerometer_gyro::mpu9250::{AccelGyro, AccelGyroData};
use crate::util::sensors::barometer::bmp280::{Barometer, BarometerData};
use crate::util::sensors::gps::atgm336h::{Gps, GpsData};
use vstd::prelude::*;

verus! {

/// The bus address of the accelerometer and gyroscope.
pub const ACCEL_GYRO_ADDRESS: u8 = 0x68;

/// The bus address of the barometer.
pub const BAROMETER_ADDRESS: u8 = 0x76;

/// The bus address of the satellite receiver.
pub const GPS_ADDRESS: u8 = 0x42;

/// The bus controller's error code for an exchange that ran out of time.
pub const BUS_TIMEOUT_CODE: i32 = 0x107;

/// Why a device did not deliver.
#[derive(Clone, Copy, Debug, PartialEq, Eq, Structural)]
pub enum DeviceError {
    /// The exchange failed on the bus: no acknowledge, or arbitration was lost.
    Bus,
    /// The exchange did not finish within the bounded wait.
    Timeout,
    /// The bytes that came back are not a valid reading.
    Decode,
}

impl DeviceError {
    /// Classifies a failed exchange by the error code of the bus controller.
    pub fn from_bus_code(code: i32) -> (error: DeviceError)
        ensures
            error == (if code == BUS_TIMEOUT_CODE {
                DeviceError::Timeout
            } else {
                DeviceError::Bus
            }),
    {
        if code == BUS_TIMEOUT_CODE {
            DeviceError::Timeout
        } else {
            DeviceError::Bus
        }
    }
}

/// One exchange with a device: the bytes written to it, then the number of bytes read
/// back from it. A plain write reads nothing back.
#[derive(Debug)]
pub struct Transaction {
    pub address: u8,
    pub write: Vec<u8>,
    pub read_len: usize,
}

/// What a `Transaction` stands for.
pub struct TransactionView {
    pub address: u8,
    pub write: Seq<u8>,
    pub read_len: nat,
}

impl View for Transaction {
    type V = TransactionView;

    open spec fn view(&self) -> TransactionView {
        TransactionView {
            address: self.address,
            write: self.write@,
            read_len: self.read_len as nat,
        }
    }
}

/// The write that sets one register of a device.
pub open spec fn register_write(address: u8, register: u8, value: u8) -> TransactionView {
    TransactionView { address, write: seq![register, value], read_len: 0 }
}

/// The exchange that reads `len` bytes starting at one register of a device.
pub open spec fn register_read(address: u8, register: u8, len: nat) -> TransactionView {
    TransactionView { address, write: seq![register], read_len: len }
}

/// What each of a list of transactions stands for.
pub open spec fn views(list: Seq<Transaction>) -> Seq<TransactionView> {
    Seq::new(list.len(), |i: int| list[i]@)
}

impl Transaction {
    /// The write that sets one register of a device.
    pub fn write_register(address: u8, register: u8, value: u8) -> (t: Transaction)
        ensures
            t@ == register_write(address, register, value),
    {
        let mut write: Vec<u8> = Vec::new();
        write.push(register);
        write.push(value);
        let t = Transaction { address, write, read_len: 0 };
        assert(t@.write =~= seq![register, value]);
        t
    }

    /// The exchange that reads `len` bytes starting at one register of a device.
    pub fn read_registers(address: u8, register: u8, len: usize) -> (t: Transaction)
        ensures
            t@ == register_read(address, register, len as nat),
    {
        let mut write: Vec<u8> = Vec::new();
        write.push(register);
        let t = Transaction { address, write, read_len: len };
        assert(t@.write =~= seq![register]);
        t
    }
}

/// What every sensor driver offers: the writes that configure the device, the exchange
/// that fetches one measurement, and the meaning of the bytes that come back.
pub trait Sensor: Sized {
    /// One measurement of this sensor.
    type Data;

    /// The bus address of the device.
    spec fn address(&self) -> u8;

    /// The configuration writes, in the order in which the device needs them.
    spec fn init_writes(&self) -> Seq<TransactionView>;

    /// The exchange that fetches one measurement.
    spec fn measurement_request(&self) -> TransactionView;

    /// The measurement that a reply holds, or the reason why it holds none.
    spec fn measurement(&self, reply: Seq<u8>) -> Result<Self::Data, DeviceError>;

    /// A driver for the device at `address`.
    fn new(address: u8) -> (sensor: Self)
        ensures
            sensor.address() == address,
    ;

    /// The writes that configure the device. They are the same on every call, so that
    /// configuring a device twice leaves it as configuring it once does.
    fn init(&self) -> (writes: Vec<Transaction>)
        ensures
            views(writes@) == self.init_writes(),
            forall|i: int|
                0 <= i < writes@.len() ==> (#[trigger] writes@[i])@.address == self.address()
                    && writes@[i]@.read_len == 0,
    ;

    /// The exchange that fetches one measurement.
    fn request(&self) -> (read: Transaction)
        ensures
            read@ == self.measurement_request(),
            read@.address == self.address(),
    ;

    /// Decodes the reply to `request`. A reply that is no valid reading is rejected.
    fn get_measurement(&self, reply: &[u8]) -> (data: Result<Self::Data, DeviceError>)
        ensures
            data == self.measurement(reply@),
            data is Err ==> data == Err::<Self::Data, DeviceError>(DeviceError::Decode),
    ;
}

/// The three drivers, and the order in which their devices are configured and read:
/// the accelerometer and gyroscope first, then the barometer, then the satellite
/// receiver.
#[derive(Debug)]
pub struct SensorManager {
    accel_gyro: AccelGyro,
    barometer: Barometer,
    gps: Gps,
}

/// A configuration write that is under way: its place in the sequence of all
/// configuration writes.
#[derive(Debug)]
pub struct InitCursor {
    place: usize,
}

/// What configuring the sensors asks of the caller next.
#[derive(Debug)]
pub enum InitStep {
    /// Perform this write, then continue with its outcome and this cursor.
    Transfer(Transaction, InitCursor),
    /// Every device is configured.
    Ready,
    /// A write failed. Configuration is over, and no further device is touched.
    Failed(DeviceError),
}

/// A measurement read that is under way: the sensor that is being read, and what the
/// sensors before it have measured in this cycle.
#[derive(Debug, Clone, Copy, PartialEq, Eq, Structural)]
pub enum PollCursor {
    Inertial,
    Barometric(AccelGyroData),
    Positional(AccelGyroData, BarometerData),
}

/// What a polling cycle asks of the caller next.
#[derive(Debug)]
pub enum PollStep {
    /// Perform this read, then continue with its outcome and this cursor.
    Transfer(Transaction, PollCursor),
    /// All three sensors have been read: the cycle's measurements.
    Measured(AccelGyroData, BarometerData, GpsData),
    /// A read failed or its reply was rejected. The cycle is over and yields nothing.
    Failed(DeviceError),
}

impl InitCursor {
    /// The place of the write in the sequence of all configuration writes.
    pub closed spec fn place(&self) -> nat {
        self.place as nat
    }
}

impl SensorManager {
    /// The driver of the accelerometer and gyroscope.
    pub closed spec fn accel_gyro(&self) -> AccelGyro {
        self.accel_gyro
    }

    /// The driver of the barometer.
    pub closed spec fn barometer(&self) -> Barometer {
        self.barometer
    }

    /// The driver of the satellite receiver.
    pub closed spec fn gps(&self) -> Gps {
        self.gps
    }

    /// All configuration writes in the order in which they are performed.
    pub open spec fn init_script(&self) -> Seq<TransactionView> {
        self.accel_gyro().init_writes() + self.barometer().init_writes() + self.gps().init_writes()
    }

    /// Whether `step` is what configuration asks for when the writes before `place`
    /// are done: the write at `place`, or nothing more where there is none.
    pub open spec fn is_init_step(&self, step: InitStep, place: nat) -> bool {
        match step {
            InitStep::Transfer(write, cursor) => {
                &&& place < self.init_script().len()
                &&& write@ == self.init_script()[place as int]
                &&& cursor.place() == place
            },
            InitStep::Ready => place >= self.init_script().len(),
            InitStep::Failed(_) => false,
        }
    }

    /// Whether `step` is what a polling cycle asks for when the read under `cursor`
    /// has brought `reply`: a rejected reply ends the cycle, an accepted one leads to
    /// the next sensor or, behind the last, to the measurements.
    pub open spec fn is_poll_step(&self, step: PollStep, cursor: PollCursor, reply: Seq<u8>) -> bool {
        match cursor {
            PollCursor::Inertial => match self.accel_gyro().measurement(reply) {
                Ok(inertial) => {
                    &&& step matches PollStep::Transfer(read, next)
                    &&& read@ == self.barometer().measurement_request()
                    &&& next == PollCursor::Barometric(inertial)
                },
                Err(error) => step == PollStep::Failed(error),
            },
            PollCursor::Barometric(inertial) => match self.barometer().measurement(reply) {
                Ok(barometric) => {
                    &&& step matches PollStep::Transfer(read, next)
                    &&& read@ == self.gps().measurement_request()
                    &&& next == PollCursor::Positional(inertial, barometric)
                },
                Err(error) => step == PollStep::Failed(error),
            },
            PollCursor::Positional(inertial, barometric) => match self.gps().measurement(reply) {
                Ok(positional) => step == PollStep::Measured(inertial, barometric, positional),
                Err(error) => step == PollStep::Failed(error),
            },
        }
    }

    /// The manager of the three sensors at their fixed bus addresses.
    pub fn new() -> (manager: Self)
        ensures
            manager.accel_gyro().address() == ACCEL_GYRO_ADDRESS,
            manager.barometer().address() == BAROMETER_ADDRESS,
            manager.gps().address() == GPS_ADDRESS,
    {
        SensorManager {
            accel_gyro: AccelGyro::new(ACCEL_GYRO_ADDRESS),
            barometer: Barometer::new(BAROMETER_ADDRESS),
            gps: Gps::new(GPS_ADDRESS),
        }
    }

    /// Begins to configure the sensors: asks for the first configuration write.
    pub fn init(&self) -> (step: InitStep)
        ensures
            self.is_init_step(step, 0),
    {
        self.init_step(0)
    }

    /// Continues to configure the sensors with the outcome of the write under
    /// `cursor`. After a write that succeeded comes the next one, after the last one
    /// nothing; a write that failed ends configuration with its error.
    pub fn continue_init(&self, cursor: InitCursor, outcome: Result<Vec<u8>, DeviceError>) -> (step:
        InitStep)
        ensures
            match outcome {
                Ok(_) => self.is_init_step(step, cursor.place() + 1),
                Err(error) => step == InitStep::Failed(error),
            },
    {
        match outcome {
            Ok(_) => {
                if cursor.place < usize::MAX {
                    self.init_step(cursor.place + 1)
                } else {
                    InitStep::Ready
                }
            },
            Err(error) => InitStep::Failed(error),
        }
    }

    /// Begins a polling cycle: asks for the read of the accelerometer and gyroscope.
    pub fn get_measurements(&self) -> (step: PollStep)
        ensures
            step matches PollStep::Transfer(read, cursor) && read@
                == self.accel_gyro().measurement_request() && cursor == PollCursor::Inertial,
    {
        PollStep::Transfer(self.accel_gyro.request(), PollCursor::Inertial)
    }

    /// Continues a polling cycle with the outcome of the read under `cursor`. A read
    /// that failed ends the cycle with its error, and so does a reply that the driver
    /// rejects; no later sensor is read then, and nothing is measured.
    pub fn continue_measurements(
        &self,
        cursor: PollCursor,
        outcome: Result<Vec<u8>, DeviceError>,
    ) -> (step: PollStep)
        ensures
            match outcome {
                Ok(reply) => self.is_poll_step(step, cursor, reply@),
                Err(error) => step == PollStep::Failed(error),
            },
    {
        let reply = match outcome {
            Ok(reply) => reply,
            Err(error) => {
                return PollStep::Failed(error);
            },
        };
        match cursor {
            PollCursor::Inertial => match self.accel_gyro.get_measurement(reply.as_slice()) {
                Ok(inertial) => PollStep::Transfer(
                    self.barometer.request(),
                    PollCursor::Barometric(inertial),
                ),
                Err(error) => PollStep::Failed(error),
            },
            PollCursor::Barometric(inertial) => match self.barometer.get_measurement(
                reply.as_slice(),
            ) {
                Ok(barometric) => PollStep::Transfer(
                    self.gps.request(),
                    PollCursor::Positional(inertial, barometric),
                ),
                Err(error) => PollStep::Failed(error),
            },
            PollCursor::Positional(inertial, barometric) => match self.gps.get_measurement(
                reply.as_slice(),
            ) {
                Ok(positional) => PollStep::Measured(inertial, barometric, positional),
                Err(error) => PollStep::Failed(error),
            },
        }
    }

    /// All configuration writes in the order in which they are performed.
    fn init_transactions(&self) -> (script: Vec<Transaction>)
        ensures
            views(script@) == self.init_script(),
    {
        let mut script = self.accel_gyro.init();
        let mut barometric = self.barometer.init();
        let mut positional = self.gps.init();
        let ghost first = script@;
        let ghost second = barometric@;
        let ghost third = positional@;
        script.append(&mut barometric);
        script.append(&mut positional);
        assert(views(script@) =~= views(first) + views(second) + views(third));
        script
    }

    /// The configuration write at `place`, or the end of configuration.
    fn init_step(&self, place: usize) -> (step: InitStep)
        ensures
            self.is_init_step(step, place as nat),
    {
        let mut script = self.init_transactions();
        if place < script.len() {
            let write = script.remove(place);
            InitStep::Transfer(write, InitCursor { place })
        } else {
            InitStep::Ready
        }
    }
}

} // verus!
