//! Incremental construction of a single query.
use vstd::prelude::*;

use crate::binder::query::{Bindings, IrSingleQuery, IrSingleQueryPart};

verus! {

/// Builds the parts of a single query. There is always a current (last) part.
pub struct IrSingleQueryBuilder {
    parts: Vec<IrSingleQueryPart>,
}

impl IrSingleQueryBuilder {
    /// The parts built so far, first to last.
    pub closed spec fn parts(&self) -> Seq<IrSingleQueryPart> {
        self.parts@
    }

    /// A builder always holds at least one part.
    pub closed spec fn wf(&self) -> bool {
        self.parts@.len() >= 1
    }

    /// A builder with one part that binds nothing.
    pub fn new() -> (r: IrSingleQueryBuilder)
        ensures
            r.wf(),
            r.parts().len() == 1,
            r.parts()[0].input_bindings@ == Seq::<String>::empty(),
            r.parts()[0].projection is None,
    {
        let mut parts: Vec<IrSingleQueryPart> = Vec::new();
        parts.push(IrSingleQueryPart::new(Vec::new()));
        IrSingleQueryBuilder { parts }
    }

    /// Starts a new part that sees `input_binding`.
    pub fn new_tail(&mut self, input_binding: Bindings)
        ensures
            final(self).parts() == old(self).parts().push(IrSingleQueryPart { input_bindings: input_binding, projection: None }),
            old(self).wf() ==> final(self).wf(),
    {
        self.parts.push(IrSingleQueryPart::new(input_binding));
    }

    /// The current (last) part; `None` only for a builder without parts, which `new` never makes.
    pub fn tail_mut(&mut self) -> (r: Option<&mut IrSingleQueryPart>)
        ensures
            old(self).wf() ==> r is Some,
            match r {
                Some(p) => {
                    &&& old(self).parts().len() >= 1
                    &&& *p == old(self).parts().last()
                    &&& final(self).parts() == old(self).parts().update(old(self).parts().len() - 1, *final(p))
                },
                None => old(self).parts().len() == 0 && final(self).parts() == old(self).parts(),
            },
            final(self).wf() == old(self).wf(),
    {
        let n = self.parts.len();
        if n == 0 {
            None
        } else {
            Some(&mut self.parts[n - 1])
        }
    }

    pub fn build(self) -> (r: IrSingleQuery)
        ensures
            r.parts@ == self.parts(),
    {
        IrSingleQuery { parts: self.parts }
    }
}

} // verus!
