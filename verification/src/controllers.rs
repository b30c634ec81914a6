//! The handlers that make the pages of the site.

pub mod index_controller;
