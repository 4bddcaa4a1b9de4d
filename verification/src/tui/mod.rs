pub mod editor;
pub mod progress_bar;
pub mod ui;
pub mod notification_widget;
pub mod loading_widget;
pub mod confirm_widget;
pub mod animator;
pub mod qrcode_widget;
pub mod events;
