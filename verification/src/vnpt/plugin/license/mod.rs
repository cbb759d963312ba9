pub mod check;
