pub mod app;
pub mod app_laws;
pub mod cli;
pub mod day;
pub mod display;
pub mod event;
pub mod external_editor;
pub mod fixture;
pub mod inbox;
pub mod keyed;
pub mod live;
pub mod loading;
pub mod navigation;
pub mod ordered;
pub mod pane;
pub mod review_state;
pub mod text;
pub mod terminal;
