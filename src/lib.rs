//! A generic REST mapping layer: entity capability descriptors, a primary-key path codec
//! (composite keys included), filter and pagination contracts, and CRUD handlers written
//! once for every entity.

pub mod codec;
pub mod entity;
pub mod error;
pub mod extractors;
pub mod filter;
pub mod middleware;
pub mod model;
pub mod pagination;
pub mod rest;
pub mod rest_model;
pub mod store;
pub mod value;

pub mod comments;
pub mod posts;
pub mod users;
pub mod votes;

pub use error::{Error, Result};
pub use extractors::PrimaryKey;
pub use filter::Filter;
pub use model::{Create, Update};
pub use pagination::{CursorPagination, LimitOffsetPagination, PageNumberPagination};
pub use rest::Rest;
pub use rest_model::RestModel;
