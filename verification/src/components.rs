//! Energy components: what a building uses or produces of each carrier, for
//! each end use, step by step over the period of the computation.

use vstd::prelude::*;
use crate::fixed::ints;
use crate::meta::{
    Meta, MetaEntry, meta_copy, meta_entries, meta_get, meta_update, meta_updated, meta_value,
};
use crate::types::{CSubtype, CType, Carrier, Service};

verus! {

/// Energy of one carrier used or produced for one end use, as a series of
/// quantities, one for each step of the period.
#[derive(Debug, PartialEq, Eq)]
pub struct Component {
    /// The carrier.
    pub carrier: Carrier,
    /// Used or produced.
    pub ctype: CType,
    /// The kind of use or of production.
    pub csubtype: CSubtype,
    /// The end use.
    pub service: Service,
    /// The quantities, one for each step of the period.
    pub values: Vec<i64>,
    /// A free comment.
    pub comment: String,
}

/// What a component holds.
pub struct ComponentRow {
    /// The carrier.
    pub carrier: Carrier,
    /// Used or produced.
    pub ctype: CType,
    /// The kind of use or of production.
    pub csubtype: CSubtype,
    /// The end use.
    pub service: Service,
    /// The quantities, one for each step of the period.
    pub values: Seq<int>,
    /// A free comment.
    pub comment: Seq<char>,
}

impl View for Component {
    type V = ComponentRow;

    open spec fn view(&self) -> ComponentRow {
        ComponentRow {
            carrier: self.carrier,
            ctype: self.ctype,
            csubtype: self.csubtype,
            service: self.service,
            values: ints(self.values@),
            comment: self.comment@,
        }
    }
}

/// A copy of a stored series.
pub fn copy_values(values: &Vec<i64>) -> (r: Vec<i64>)
    ensures
        r@ == values@,
{
    let mut out: Vec<i64> = Vec::new();
    let n: usize = values.len();
    let mut i: usize = 0;
    while i < n
        invariant
            i <= n,
            n == values.len(),
            out.len() == i,
            forall|j: int| 0 <= j < i ==> #[trigger] out[j] == values[j],
        decreases n - i,
    {
        out.push(values[i]);
        i = i + 1;
    }
    assert(out@ =~= values@);
    out
}

impl Clone for Component {
    fn clone(&self) -> (r: Component)
        ensures
            r@ == self@,
    {
        Component {
            carrier: self.carrier,
            ctype: self.ctype,
            csubtype: self.csubtype,
            service: self.service,
            values: copy_values(&self.values),
            comment: self.comment.clone(),
        }
    }
}

/// What a list of components holds.
pub open spec fn component_rows(v: Seq<Component>) -> Seq<ComponentRow> {
    Seq::new(v.len(), |i: int| v[i]@)
}

/// A list of components with its metadata. Components keep the order in
/// which they were added.
#[derive(Debug, PartialEq, Eq)]
pub struct Components {
    /// The metadata.
    pub cmeta: Vec<Meta>,
    /// The components.
    pub cdata: Vec<Component>,
}

/// What a list of components with its metadata holds.
pub struct ComponentsView {
    /// The metadata.
    pub cmeta: Seq<MetaEntry>,
    /// The components.
    pub cdata: Seq<ComponentRow>,
}

impl View for Components {
    type V = ComponentsView;

    open spec fn view(&self) -> ComponentsView {
        ComponentsView { cmeta: meta_entries(self.cmeta@), cdata: component_rows(self.cdata@) }
    }
}

impl Clone for Components {
    fn clone(&self) -> (r: Components)
        ensures
            r@ == self@,
    {
        let mut cdata: Vec<Component> = Vec::new();
        let n: usize = self.cdata.len();
        let mut i: usize = 0;
        while i < n
            invariant
                i <= n,
                n == self.cdata.len(),
                cdata.len() == i,
                forall|j: int| 0 <= j < i ==> (#[trigger] cdata[j])@ == self.cdata[j]@,
            decreases n - i,
        {
            cdata.push(self.cdata[i].clone());
            i = i + 1;
        }
        assert(component_rows(cdata@) =~= component_rows(self.cdata@));
        Components { cmeta: meta_copy(&self.cmeta), cdata }
    }
}

impl Components {
    /// The value of the first metadata entry with the given key.
    pub fn get_meta(&self, key: &str) -> (r: Option<String>)
        ensures
            match r {
                Some(v) => meta_value(self@.cmeta, key@) == Some(v@),
                None => meta_value(self@.cmeta, key@) == None::<Seq<char>>,
            },
    {
        meta_get(&self.cmeta, key)
    }

    /// Gives a metadata key a value: the first entry of the key takes the
    /// value, or a new entry is added at the end where the key has none.
    /// The components stay as they are.
    pub fn update_meta(&mut self, key: &str, value: &str)
        ensures
            final(self)@.cmeta == meta_updated(old(self)@.cmeta, key@, value@),
            final(self)@.cdata == old(self)@.cdata,
    {
        meta_update(&mut self.cmeta, key, value);
    }
}

} // verus!
