//! What the parts of the library promise about each other, and of all inputs.
pub mod text_laws;
pub mod plan_laws;
pub mod mm_laws;
pub mod button_plan_laws;
pub mod calendar_laws;
pub mod campusdual_laws;
pub mod scheduler_laws;
pub mod handler_laws;
pub mod time_laws;
pub mod button_handler_laws;
pub mod button_scheduler_laws;
pub mod view_laws;
pub mod promise_laws;
