//! Core logic of a Buddhist-era date/time picker: a permissive text codec
//! that turns loosely formatted user input into calendar values and renders
//! them back, pure selectability constraints over calendar cells, a
//! hierarchical navigation cursor (days, months, years), and the working
//! state of an open picker dialog together with its commit protocol.
//!
//! Everything here works on plain calendar values; rendering and I/O live
//! with the caller.

pub mod calendar;
pub mod chars;
pub mod clock;
pub mod constraints;
pub mod cursor;
pub mod iso;
pub mod laws;
pub mod parse;
pub mod render;
pub mod selection;

pub use calendar::datetime_ts;
pub use calendar::minutes_after_midnight;
pub use calendar::weekday_number;
pub use calendar::CalendarDate;
pub use calendar::CalendarInstant;
pub use calendar::ClockTime;
pub use clock::now;
pub use constraints::is_day_forbidden;
pub use constraints::is_instant_forbidden;
pub use constraints::is_month_forbidden;
pub use constraints::is_year_forbidden;
pub use constraints::is_year_group_forbidden;
pub use constraints::DateConstraints;
pub use cursor::create_dialog_title_text;
pub use cursor::month_grid;
pub use cursor::year_group_end;
pub use cursor::year_group_start;
pub use cursor::DialogViewType;
pub use cursor::ViewCursor;
pub use iso::date_8601;
pub use iso::date_pat_from_8601;
pub use iso::date_str_th;
pub use iso::datetime_8601;
pub use iso::datetime_pat_from_8601;
pub use iso::datetime_str_th;
pub use iso::datetime_str_th_relative;
pub use iso::time_8601;
pub use iso::time_pat_from_8601;
pub use iso::time_str_hm;
pub use parse::date_from_pat;
pub use parse::date_from_pat_at;
pub use parse::datetime_from_pat;
pub use parse::datetime_from_pat_at;
pub use parse::time_from_pat;
pub use render::date_pat;
pub use render::date_th;
pub use render::date_th_opt;
pub use render::date_th_opt_relative;
pub use render::date_th_relative;
pub use render::datetime_pat;
pub use render::datetime_th;
pub use render::datetime_th_opt;
pub use render::datetime_th_opt_relative;
pub use render::datetime_th_relative;
pub use render::duration_hm;
pub use render::month_thai;
pub use render::month_thai_full;
pub use render::time_hm;
pub use render::time_hm_opt;
pub use render::time_pat;
pub use render::weekday_thai;
pub use render::JsTime;
pub use selection::input_changed;
pub use selection::ExitOutcome;
pub use selection::Picker;
pub use selection::PickerConfig;
pub use selection::SelectionState;
