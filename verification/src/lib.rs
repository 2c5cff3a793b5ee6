pub mod dispatch;
pub mod event;
pub mod http;
pub mod jobs;
pub mod queue;
pub mod schedule;
pub mod scheduler;
pub mod signature;
pub mod text;
