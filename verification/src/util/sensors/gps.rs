pub mod atgm336h;
