//! Control logic for Acer Predator and Nitro laptops: the wire contract between the
//! application and its privileged helper, what the helper decides before and after it
//! touches the machine, and the policies the application runs on top of it.

pub mod config;
pub mod hardware;
pub mod number;
pub mod order;
pub mod paths;
pub mod privileged;
pub mod protocol;
pub mod text;
pub mod ui;
