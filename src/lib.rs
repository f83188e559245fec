pub mod attention;
pub mod dialogue;
pub mod galadriel;
pub mod message;
pub mod prompt;
pub mod schedule;
pub mod text;
pub mod thread;
