//! The verified core of Vocal Magic: the model catalogue, the job records and
//! their life cycle, the file layout, the worker's decisions and the sample
//! arithmetic of source separation.

pub mod apps;
pub mod db;
pub mod events;
pub mod jobs;
pub mod json;
pub mod metallib;
pub mod models;
pub mod paths;
pub mod server;
pub mod storage;
pub mod text;
pub mod worker;
