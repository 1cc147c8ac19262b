//! The formats of office documents.

pub mod docx;
