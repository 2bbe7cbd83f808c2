//! Command-line arguments of the client and the devices they select.
use vstd::prelude::*;
use crate::schema::DeviceListEntry;

verus! {

/// What the client is asked to do.
#[derive(Clone, Copy, Debug, PartialEq, Eq, Structural)]
pub enum CliCommand {
    /// List GPUs
    ListGpus,
    /// Show GPU info
    Info,
}

/// Arguments of the client.
#[derive(Clone, Debug)]
pub struct CliArgs {
    pub gpu_id: Option<String>,
    pub subcommand: CliCommand,
}

impl CliArgs {
    /// The devices to act on: the one given on the command line, or else
    /// every device of `listed`, in its order.
    pub fn gpu_ids(&self, listed: &Vec<DeviceListEntry>) -> (r: Vec<String>)
        ensures
            self.gpu_id matches Some(id) ==> r@.len() == 1 && r@[0]@ == id@,
            self.gpu_id is None ==> r@.len() == listed@.len()
                && forall|i: int| 0 <= i < r@.len() ==> #[trigger] r@[i]@ == listed@[i].id@,
    {
        match &self.gpu_id {
            Some(id) => {
                let mut r: Vec<String> = Vec::new();
                r.push(id.clone());
                r
            },
            None => {
                let mut r: Vec<String> = Vec::new();
                let mut i: usize = 0;
                while i < listed.len()
                    invariant
                        i <= listed@.len(),
                        r@.len() == i,
                        forall|t: int| 0 <= t < i ==> #[trigger] r@[t]@ == listed@[t].id@,
                    decreases listed@.len() - i,
                {
                    r.push(listed[i].id.clone());
                    i = i + 1;
                }
                r
            },
        }
    }
}

} // verus!
