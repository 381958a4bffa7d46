pub mod api;
pub mod db;
pub mod pings;
