pub mod item_view_model;
pub mod popup_state;
pub mod presentation_service;
