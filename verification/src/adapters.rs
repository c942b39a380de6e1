//! Repairs of the event stream: what the parser hands out is put in the
//! order and the form that the formatter relies on.
pub mod loose_list;
pub mod sequential_blocks;
