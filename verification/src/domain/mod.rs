pub mod entities;
pub mod repositories;
pub mod services;
