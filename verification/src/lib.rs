pub mod data_source;
pub mod dataframe;
pub mod error;
pub mod execution;
pub mod logical_plan;
pub mod names;
pub mod optimizer;
pub mod physical_plan;
pub mod query_planner;
pub mod schema;
pub mod sql;
pub mod text;
pub mod utils;
