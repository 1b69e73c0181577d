//! Line-editing engine of an interactive shell: an edit buffer driven by raw
//! terminal input, history scrollback, filename completion and the
//! controller that ties them together. Around it, the shell's own rules:
//! command lines with redirections and pipes, variables, builtins and
//! aliases, and the colour markup of prompts.
use vstd::prelude::*;

pub mod builtins;
pub mod command;
pub mod prompt;
pub mod read_line;
pub mod shell;
pub mod utils;
pub mod widget;

verus! {

/// A pair of terminal coordinates or sizes, in character cells.
#[derive(Clone, Copy, Debug, PartialEq, Eq, Default)]
pub struct Vec2 {
    pub x: u32,
    pub y: u32,
}

impl Vec2 {
    pub fn new(x: u32, y: u32) -> (r: Vec2)
        ensures
            r.x == x,
            r.y == y,
    {
        Vec2 { x, y }
    }
}

} // verus!
