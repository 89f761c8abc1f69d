//! Adaptive shaper controller core: one-way-delay baselining, reflector
//! selection and token-bucket rate control, with the delay and rate
//! arithmetic carried out in fixed-point integers and verified.
pub mod baseliner;
pub mod cake;
pub mod config;
pub mod endian;
pub mod error;
pub mod netlink;
pub mod pinger;
pub mod pinger_icmp;
pub mod pinger_icmp_ts;
pub mod ratecontroller;
pub mod reflector_selector;
mod rng;
pub mod time;
pub mod utils;
