pub mod reference;
pub mod reference_safe;
pub mod reference_shared_edit;
