//! The exchanges the library knows, and the manager that combines them.
pub mod manager;
pub mod kraken;
pub mod huobi;
pub mod bittrex;

pub use bittrex::BittrexAdapter;
pub use huobi::HuobiAdapter;
pub use kraken::KrakenAdapter;
pub use manager::ExchangeManager;
