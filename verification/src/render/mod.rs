pub mod formats;
