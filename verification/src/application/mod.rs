//! Use cases of the clipboard manager, over any clipboard repository.



pub mod item_management_service;

pub mod fuzzy_search_service;
pub mod daemon_service;
pub mod monitor_service;
pub mod category_filter_service;
pub mod category_service;
pub mod popup_service;
