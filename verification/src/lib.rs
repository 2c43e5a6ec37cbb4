pub mod columns;
pub mod component;
pub mod export;
pub mod header;
pub mod layout;
pub mod laws;
pub mod message;
pub mod reading;
pub mod record;
pub mod rendered;
pub mod reply;
pub mod run;
pub mod scalar;
pub mod tapback;
pub mod text;
pub mod tree;
pub mod unique;
pub mod variant;
pub mod who;
