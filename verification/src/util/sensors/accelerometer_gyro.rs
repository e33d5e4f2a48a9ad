pub mod mpu9250;
