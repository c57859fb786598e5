//! A runtime string formatter: templates known only at run time are
//! interpolated with a sequence of positional and named arguments.

pub mod arg;
pub mod builder;
pub mod engine;
pub mod error;
pub mod laws;
pub mod punctuated;
pub mod render;
pub mod syntax;
pub mod template;
pub mod value;

pub use arg::{Arg, IntoArgs, Key};
pub use error::Error;
pub use value::{Kind, Value};
