//! Verified core of the S4U personal file storage service: request
//! parameter handling, storage paths, trash bookkeeping, storage quotas and
//! the replies that the HTTP handlers send.

pub mod accounts;
pub mod clock;
pub mod files;
pub mod folders;
pub mod pathname;
pub mod jwt;
pub mod meta_json;
pub mod paths;
pub mod plan;
pub mod query;
pub mod reply;
pub mod search;
pub mod storage;
pub mod strmap;
pub mod text;
pub mod trash;
pub mod upload;
