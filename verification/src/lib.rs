pub mod action_log;
pub mod common;
pub mod leak;
pub mod text;
pub mod phantom;
pub mod track;
