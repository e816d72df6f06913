//! The values that a slot can hold, and the schemas that say which.

pub mod chrono_wrapper;
pub mod data_type;
pub mod native;
pub mod scalar;

pub use crate::types::chrono_wrapper::naive_date_exists;
pub use crate::types::chrono_wrapper::naive_datetime_exists;
pub use crate::types::chrono_wrapper::naive_time_valid;
pub use crate::types::chrono_wrapper::NaiveDateTimeWrapper;
pub use crate::types::chrono_wrapper::NaiveDateWrapper;
pub use crate::types::chrono_wrapper::NaiveTimeWrapper;
pub use crate::types::data_type::clone_type;
pub use crate::types::data_type::type_model;
pub use crate::types::data_type::types_model;
pub use crate::types::data_type::DataType;
pub use crate::types::data_type::TypeModel;
pub use crate::types::native::Decimal;
pub use crate::types::native::IntervalUnit;
pub use crate::types::native::OrderedF32;
pub use crate::types::native::OrderedF64;
pub use crate::types::scalar::clone_datums;
pub use crate::types::scalar::clone_scalar;
pub use crate::types::scalar::datum_model;
pub use crate::types::scalar::datum_wf;
pub use crate::types::scalar::datums_model;
pub use crate::types::scalar::scalar_model;
pub use crate::types::scalar::Datum;
pub use crate::types::scalar::DatumModel;
pub use crate::types::scalar::ListValue;
pub use crate::types::scalar::ScalarImpl;
pub use crate::types::scalar::ScalarModel;
pub use crate::types::scalar::StructValue;
