use vstd::prelude::*;

pub mod store;
pub mod builder;

pub use self::store::{CmdStore, OptStore, PosStore, SecStore};
pub use self::builder::{CmdMut, CmdOptMut, CmdPosMut, Generator, SectionMut};

verus! {

/// Something that writes the help of a program, laid out as
///
/// ```text
/// usage
///
/// header
///
/// section1
/// cmd1
/// cmd2
///
/// footer
/// ```
pub trait HelpGenerator {
    fn new_section(&mut self, section: &str, help: &str);

    fn add_cmd(&mut self, section: &str, cmd: &str);

    fn rem_cmd(&mut self, section: &str, cmd: &str);

    fn set_usage(&mut self, help: &str);

    fn set_footer(&mut self, help: &str);

    fn set_header(&mut self, help: &str);

    fn generate_cmd_help(&self, cmd: &str) -> &str;

    fn generate(&self) -> &str;
}

} // verus!
