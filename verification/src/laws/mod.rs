//! What holds of the library as a whole: of the operations, whatever they are answered, of what is
//! looked up for them, and of what the functions hand back.
pub mod agent;
pub mod cleanup;
pub mod course;
pub mod course_cleanup;
pub mod course_eip;
pub mod course_legacy;
pub mod detach;
pub mod egress;
pub mod eip;
pub mod legacy;
pub mod lookup;
pub mod node;
pub mod pod;
pub mod release;
pub mod replies;
pub mod results;
pub mod settings;
pub mod tags;
pub mod tasks;
