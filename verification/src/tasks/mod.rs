pub mod factorio;
pub mod scrapper;
pub mod telegram;
