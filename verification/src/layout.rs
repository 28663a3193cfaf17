//! Builders of the dashboard's markup.

pub mod html;
pub mod table;
pub mod tabs;
