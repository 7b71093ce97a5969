//! The instructions carried over from a source image.
//!
//! Each field holds one already-rendered instruction line; `to_dockerfile`
//! joins the present ones, in a fixed order, into one description. Reading
//! these lines out of a container image is the driver's work.

use vstd::prelude::*;
use crate::paths::{join_with, joined_with, views_of};

verus! {

/// The instruction lines read from a source image, each already rendered.
#[derive(Debug)]
pub struct ContainerConfigurations {
    /// WORKDIR instruction
    pub workdir: Option<String>,
    /// CMD instruction
    pub command: Option<String>,
    /// ENTRYPOINT instruction
    pub entry_point: Option<String>,
    /// HEALTHCHECK instruction
    pub health_check: Option<String>,
    /// USER instruction
    pub user: Option<String>,
    /// ENV instruction
    pub env: Option<String>,
}

/// The line an optional instruction contributes: itself, or nothing.
pub open spec fn maybe_line(o: Option<String>) -> Seq<Seq<char>> {
    match o {
        Option::Some(s) => seq![s@],
        Option::None => Seq::empty(),
    }
}

/// Lines joined by single newlines, no trailing newline.
pub open spec fn joined_lines(lines: Seq<Seq<char>>) -> Seq<char> {
    joined_with(lines, "\n"@)
}

impl Default for ContainerConfigurations {
    /// No instructions at all.
    fn default() -> (r: Self)
        ensures
            r.workdir is None,
            r.command is None,
            r.entry_point is None,
            r.health_check is None,
            r.user is None,
            r.env is None,
    {
        ContainerConfigurations {
            workdir: Option::None,
            command: Option::None,
            entry_point: Option::None,
            health_check: Option::None,
            user: Option::None,
            env: Option::None,
        }
    }
}

impl ContainerConfigurations {
    /// The lines of the rendered description, in order: working directory,
    /// command, entry point, user, environment, health check.
    pub open spec fn lines(self) -> Seq<Seq<char>> {
        maybe_line(self.workdir) + maybe_line(self.command) + maybe_line(self.entry_point)
            + maybe_line(self.user) + maybe_line(self.env) + maybe_line(self.health_check)
    }

    /// Renders the present instructions, one per line.
    pub fn to_dockerfile(&self) -> (r: String)
        ensures
            r@ == joined_lines(self.lines()),
    {
        let mut present: Vec<String> = Vec::new();
        match &self.workdir {
            Option::Some(s) => present.push(s.clone()),
            Option::None => {},
        }
        match &self.command {
            Option::Some(s) => present.push(s.clone()),
            Option::None => {},
        }
        match &self.entry_point {
            Option::Some(s) => present.push(s.clone()),
            Option::None => {},
        }
        match &self.user {
            Option::Some(s) => present.push(s.clone()),
            Option::None => {},
        }
        match &self.env {
            Option::Some(s) => present.push(s.clone()),
            Option::None => {},
        }
        match &self.health_check {
            Option::Some(s) => present.push(s.clone()),
            Option::None => {},
        }
        proof {
            assert(views_of(present@) =~= self.lines());
        }
        join_with(&present, "\n")
    }
}

} // verus!
