pub mod data_types;
pub mod logic;
pub mod laws;
pub mod basics;
pub mod property_window;
pub mod texture_preview;
pub mod csm_preview;
pub mod hierarchy;
pub mod hierarchy_laws;
pub mod widgets;
pub mod tree_view;
