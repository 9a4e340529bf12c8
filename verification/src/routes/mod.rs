pub mod api;
