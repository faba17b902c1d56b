pub mod rendering;
