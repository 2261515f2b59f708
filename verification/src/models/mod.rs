pub mod series;
pub mod stock_data;
pub mod stock_model;
