use vstd::prelude::*;

verus! {

/// A component that can be told whether to report what it does.
pub trait Logging {
    spec fn spec_logging(&self) -> bool;

    fn enable_logging(&mut self)
        ensures
            final(self).spec_logging(),
    ;

    fn disable_logging(&mut self)
        ensures
            !final(self).spec_logging(),
    ;

    fn logging_enabled(&self) -> (r: bool)
        ensures
            r == self.spec_logging(),
    ;
}

} // verus!
