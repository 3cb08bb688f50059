pub mod decimal;
pub mod report;
pub mod pipeline;
pub mod batch;
pub mod window;
