pub mod api;
pub mod cover;
pub mod laws;
pub mod manga;
pub mod mangadex;
pub mod model;
pub mod protocol;
pub mod query;
pub mod seed;
pub mod table_laws;
pub mod tables;
pub mod text;
