//! Parameters of a query and the flags that say which of them are given.

pub mod query_flags;
pub mod query_params;
pub mod query_params_builder;
pub mod query_values;

pub use self::query_flags::QueryFlags;
pub use self::query_params::QueryParams;
pub use self::query_params_builder::QueryParamsBuilder;
pub use self::query_values::QueryValues;
