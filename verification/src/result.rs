pub mod sort_orders;
