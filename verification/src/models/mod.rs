pub mod download;
pub mod health;
pub mod import_export;
pub mod settings;
pub mod subscription;
pub mod video;

pub use download::DownloadRecord;
pub use health::{HealthCheckResult, HealthCheckSummary, HealthStatus};
pub use import_export::{
    ImportCompleteEvent, ImportErrorItem, ImportPreview, ImportPreviewItem, ImportProgressEvent,
    ImportResult, ImportSource, OpmlOutline,
};
pub use settings::{AppSettings, AppState};
pub use subscription::Subscription;
pub use video::ChannelInfo;
