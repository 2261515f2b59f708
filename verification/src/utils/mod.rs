pub mod arith;
pub mod backtest_utils;
pub mod calendar;
pub mod fetch_stock_utils;
pub mod indicator_utils;
pub mod init_data_utils;
pub mod sorting;
