pub mod outline;
pub mod outline_groups;
pub mod outline_layers;
