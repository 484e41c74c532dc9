pub mod download;
pub mod health;
pub mod import_export;
pub mod settings;
pub mod subscription;
