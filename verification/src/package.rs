//! How the driver presents itself to the platform that hosts it.

use vstd::prelude::*;
use vstd::string::*;

verus! {

/// The driver's entry in the platform's catalogue.
pub struct Package {}

impl Package {
    /// The package on the heap, as the platform keeps its producers.
    pub fn boxed(self) -> (boxed: Box<Self>)
        ensures
            *boxed == self,
    {
        Box::new(self)
    }

    /// The maker of the instrument.
    pub fn manufacturer(&self) -> (name: String)
        ensures
            name@ == "hantek"@,
    {
        "hantek".to_owned()
    }

    /// The model of the instrument.
    pub fn model(&self) -> (name: String)
        ensures
            name@ == "DSO2C10"@,
    {
        "DSO2C10".to_owned()
    }

    /// What kind of instrument this is.
    pub fn description(&self) -> (text: String)
        ensures
            text@ == "Oscilloscope"@,
    {
        "Oscilloscope".to_owned()
    }

    /// The name under which the driver looks for instruments.
    pub fn name(&self) -> (name: String)
        ensures
            name@ == "hantek"@,
    {
        "hantek".to_owned()
    }
}

impl Default for Package {
    fn default() -> (package: Self)
        ensures
            package == (Package {  }),
    {
        Package {  }
    }
}

} // verus!
