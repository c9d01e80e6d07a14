//! Pure state of the game tools

pub mod assembler;
pub mod card_editor;
pub mod dbg;
pub mod decompiler;
pub mod file_editor;
pub mod unmsd;
