//! Top-level canonical EDA project: a schematic, a PCB, or both.

use vstd::prelude::*;

use super::{pcb::Pcb, schematic::Schematic};

verus! {

#[derive(Clone, Debug)]
pub struct EdaProject {
    pub name: String,
    pub schematic: Option<Schematic>,
    pub pcb: Option<Pcb>,
}

impl EdaProject {
    /// A project with the given name and neither a schematic nor a PCB.
    pub fn empty(name: &str) -> (project: EdaProject)
        ensures
            project.name@ == name@,
            project.schematic is None,
            project.pcb is None,
    {
        EdaProject { name: String::from_str(name), schematic: None, pcb: None }
    }
}

} // verus!
