//! The report of a demo run: which steps completed, how many ticks ran,
//! and the errors met.

use vstd::prelude::*;

use crate::text::{str_equal, string_from};

verus! {

/// The steps a demo run must complete, in order.
pub open spec fn expected_steps() -> Seq<Seq<char>> {
    seq![
        "plugin_registry"@,
        "init"@,
        "simulation"@,
        "factions"@,
        "save_load"@,
        "editor_hooks"@,
        "shutdown"@,
    ]
}

/// The texts of a list of strings.
pub open spec fn step_names(v: Seq<String>) -> Seq<Seq<char>> {
    v.map_values(|s: String| s@)
}

/// A structured report produced by a demo run.
#[derive(Debug, Clone)]
pub struct DemoReport {
    pub steps: Vec<String>,
    pub tick_count: u64,
    pub errors: Vec<String>,
}

impl DemoReport {
    /// An empty report.
    pub fn new() -> (r: Self)
        ensures
            r.steps@.len() == 0,
            r.tick_count == 0,
            r.errors@.len() == 0,
    {
        DemoReport { steps: Vec::new(), tick_count: 0, errors: Vec::new() }
    }

    /// Record that the step `name` completed.
    pub fn step_completed(&mut self, name: &str)
        ensures
            step_names(final(self).steps@) == step_names(old(self).steps@).push(name@),
            final(self).tick_count == old(self).tick_count,
            final(self).errors == old(self).errors,
    {
        let ghost before = self.steps@;
        self.steps.push(string_from(name));
        proof {
            assert(step_names(self.steps@) =~= step_names(before).push(name@));
        }
    }

    fn has_step(&self, name: &str) -> (b: bool)
        ensures
            b == step_names(self.steps@).contains(name@),
    {
        let mut i: usize = 0;
        while i < self.steps.len()
            invariant
                i <= self.steps@.len(),
                forall|k: int| 0 <= k < i ==> self.steps@[k]@ != name@,
            decreases self.steps@.len() - i,
        {
            if str_equal(self.steps[i].as_str(), name) {
                proof {
                    assert(step_names(self.steps@)[i as int] == name@);
                }
                return true;
            }
            i = i + 1;
        }
        proof {
            if step_names(self.steps@).contains(name@) {
                let w = choose|w: int| 0 <= w < step_names(self.steps@).len() && step_names(self.steps@)[w] == name@;
                assert(self.steps@[w]@ == name@);
            }
        }
        false
    }

    /// Returns true if all expected demo steps completed.
    pub fn is_success(&self) -> (b: bool)
        ensures
            b == forall|k: int| 0 <= k < 7 ==> step_names(self.steps@).contains(#[trigger] expected_steps()[k]),
    {
        let ok = self.has_step("plugin_registry") && self.has_step("init") && self.has_step("simulation")
            && self.has_step("factions") && self.has_step("save_load") && self.has_step("editor_hooks")
            && self.has_step("shutdown");
        proof {
            let names = step_names(self.steps@);
            let ex = expected_steps();
            if ok {
                assert forall|k: int| 0 <= k < 7 implies names.contains(#[trigger] ex[k]) by {
                    assert(ex[0] == "plugin_registry"@);
                    assert(ex[1] == "init"@);
                    assert(ex[2] == "simulation"@);
                    assert(ex[3] == "factions"@);
                    assert(ex[4] == "save_load"@);
                    assert(ex[5] == "editor_hooks"@);
                    assert(ex[6] == "shutdown"@);
                }
            } else {
                assert(!(names.contains(ex[0]) && names.contains(ex[1]) && names.contains(ex[2])
                    && names.contains(ex[3]) && names.contains(ex[4]) && names.contains(ex[5])
                    && names.contains(ex[6])));
            }
        }
        ok
    }
}

impl Default for DemoReport {
    fn default() -> (r: Self)
        ensures
            r.steps@.len() == 0,
            r.tick_count == 0,
            r.errors@.len() == 0,
    {
        Self::new()
    }
}

} // verus!
