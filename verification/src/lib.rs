//! The decisions behind the iLegalLearn desktop shell: which addresses stay in
//! the window, how a Google sign-in is run, and how a downloaded PDF is checked
//! and named.
pub mod address;
pub mod callback;
pub mod destination;
pub mod json;
pub mod navigation;
pub mod pdf;
pub mod report;
pub mod session;
pub mod sign_in;
pub mod text;
pub mod token;
