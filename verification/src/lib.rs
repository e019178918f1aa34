pub mod dates;
pub mod text;
pub mod theme;
pub mod slots;
pub mod date_time_picker;
pub mod calendar;
pub mod date_range_picker;
pub mod variants;
pub mod image_data;
pub mod fonts;
pub mod syntax;
pub mod canvas;
pub mod events;
pub mod autocomplete;
pub mod navigation;
pub mod data_table;
pub mod pickers;
pub mod input_otp;
pub mod disclosure;
pub mod theming;
pub mod menus;
pub mod color_text;
pub mod code_block;
pub mod svg;
pub mod glyphs;
