//! Connection management backend for a PostgreSQL desktop IDE: validation of
//! connection input, credential storage behind a trait, the connection
//! service, and schema-exploration models.

pub mod connections;
pub mod credentials;
pub mod error;
pub mod postgres_service;
pub mod schema;
pub mod text;

pub use connections::{ConnectionEnvironment, ConnectionId, ConnectionInput, SavedConnection};
pub use error::AppError;
pub use postgres_service::ConnectionService;
pub use schema::{ColumnInfo, ConstraintInfo, IndexInfo, RelationDetails, RelationInfo, SchemaInfo};
