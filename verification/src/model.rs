pub mod manga;
