//! A usage-ranked cache model for launchable applications and their icons.
//!
//! The verified part of the cache: the record shapes and how older records are
//! upgraded (`record`), how icon files become stored payloads and render
//! handles (`icon`), the order of a stored snapshot (`order`), how a fresh
//! application list is merged with the stored records (`merge`), and what each
//! kind of snapshot write stores and a read shows (`snapshot`).
pub mod icon;
pub mod merge;
pub mod order;
pub mod record;
pub mod snapshot;
