pub mod discovery;
pub mod downloads;
pub mod implementation;
pub mod installation;
pub mod interpreter;
pub mod key;
pub mod normalize;
pub mod ordering;
pub mod platform;
pub mod registry;
pub mod scan;
pub mod text;
pub mod version;
pub mod virtualenv;
