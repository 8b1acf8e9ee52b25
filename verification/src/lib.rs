pub mod agent;
pub mod ansi;
pub mod ansi_laws;
pub mod chat;
pub mod chat_laws;
pub mod clean;
pub mod clean_pages;
pub mod command;
pub mod command_laws;
pub mod completion;
pub mod completion_laws;
pub mod completion_menu;
pub mod config_draw;
pub mod config_ui;
pub mod content;
pub mod content_laws;
pub mod dates;
pub mod drawn_laws;
pub mod editor;
pub mod input;
pub mod input_box;
pub mod layout;
pub mod live;
pub mod manager_laws;
pub mod md;
pub mod md_draw_laws;
pub mod md_laws;
pub mod messages;
pub mod meter;
pub mod mode;
pub mod page_laws;
pub mod quick_cfg;
pub mod quick_draw;
pub mod quick_laws;
pub mod run_laws;
pub mod scan;
pub mod screen;
pub mod scroll;
pub mod session_rows;
pub mod sessions_draw;
pub mod sessions_laws;
pub mod sessions_ui;
pub mod settings;
pub mod settings_laws;
pub mod style;
pub mod talk_laws;
pub mod text;
pub mod text_laws;
pub mod tool_args;
pub mod transcript;
pub mod wizard_laws;
