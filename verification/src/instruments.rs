pub mod acme;
pub mod acts_as_control;
pub mod madrid;
