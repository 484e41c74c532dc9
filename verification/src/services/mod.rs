pub mod file_manager;
pub mod download_queue;
pub mod health;
pub mod opml;
pub mod scheduler;
pub mod settings_validator;
pub mod storage;
pub mod tray;
pub mod ytdlp;

pub use health::HealthService;
pub use storage::StorageService;
