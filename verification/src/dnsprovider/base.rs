//! What every DNS record has.

use vstd::prelude::*;

verus! {

pub trait BaseRecord {
    spec fn spec_hostname(&self) -> Seq<char>;

    spec fn spec_domain(&self) -> Seq<char>;

    spec fn spec_record_type(&self) -> Seq<char>;

    spec fn spec_record_value(&self) -> Seq<char>;

    fn hostname(&self) -> (r: &str)
        ensures
            r@ == self.spec_hostname(),
    ;

    fn domain(&self) -> (r: &str)
        ensures
            r@ == self.spec_domain(),
    ;

    fn record_type(&self) -> (r: &str)
        ensures
            r@ == self.spec_record_type(),
    ;

    fn record_value(&self) -> (r: &str)
        ensures
            r@ == self.spec_record_value(),
    ;
}

} // verus!
