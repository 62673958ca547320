pub mod economy;
pub mod environments;
pub mod indicators;
pub mod money;
pub mod traders;
