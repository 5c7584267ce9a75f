pub mod blockconfig;
pub mod blocktype;
pub mod credential;
pub mod reconcile;
pub mod resolve;
pub mod supervisor;
