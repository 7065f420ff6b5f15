pub mod composer;
pub mod email_view;
pub mod inbox;
pub mod search;
pub mod sidebar;
pub mod status_bar;
