//! Internal developer portal (entity graph) commands.
pub mod query_syntax;
pub mod kind_fields;
pub mod entity_query;
pub mod entity_summary;
pub mod assist;
pub mod migrate;
pub mod migrate_v2;
pub mod migrate_v1;
pub mod migrate_docs;
pub mod migrate_flow;
pub mod entities;
pub mod entity_context;
