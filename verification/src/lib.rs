//! Client-side access layer for the Trello service: identities of remote
//! objects, the entities keyed by them, the construction of authenticated
//! request URLs, and the client that caches resolved entities.

pub mod authorization;
pub mod client;
pub mod entity;
pub mod error;
pub mod identity;
pub mod random;
pub mod request;
pub mod text;

pub use authorization::Authorization;
pub use client::Client;
pub use entity::{BoardEntity, CardEntity, Entities, EntityKind, ListEntity, MemberEntity};
pub use error::{CacheError, ConfigError, FetchError, NotFound};
pub use identity::Id;
pub use request::build_url;
