pub mod card_template;
pub mod text;
pub mod translate;
pub mod vocab_service;
