pub mod bmp280;
