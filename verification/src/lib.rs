pub mod collateral_exchange_rate;
pub mod constants;
pub mod errors;
pub mod ids;
pub mod last_update;
pub mod lending_market;
pub mod math;
pub mod obligation;
pub mod obligation_collateral;
pub mod obligation_liquidity;
pub mod operations;
pub mod pyth;
pub mod rate;
pub mod reserve;
pub mod reserve_collateral;
pub mod reserve_config;
pub mod reserve_fees;
pub mod reserve_liquidity;
