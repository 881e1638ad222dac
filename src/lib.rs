pub mod io_manager;
pub mod model;
pub mod util;
pub mod repository;
pub mod patcher;
