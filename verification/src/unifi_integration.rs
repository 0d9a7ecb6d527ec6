//! The integration API's site records and their mapping into the canonical
//! site shape: the internal reference becomes the site name and the display
//! name becomes the description.

use crate::unifi::Site;
use vstd::prelude::*;

verus! {

/// The paginated envelope of the integration API.
#[derive(Debug, Clone)]
pub struct IntegrationResponse<T> {
    pub offset: u32,
    pub limit: u32,
    pub count: u32,
    pub total_count: u32,
    pub data: Vec<T>,
}

/// A site record as the integration API shapes it.
#[derive(Debug, Clone)]
pub struct IntegrationSite {
    pub id: String,
    pub internal_reference: String,
    pub name: String,
}

impl IntegrationSite {
    /// Maps this record into the canonical site shape; the two
    /// controller-internal attributes do not exist on this API and stay
    /// absent.
    pub fn to_site(&self) -> (r: Site)
        ensures
            r._id@ == self.id@,
            r.name@ == self.internal_reference@,
            r.desc@ == self.name@,
            r.attr_hidden_id is None,
            r.attr_no_delete is None,
    {
        Site {
            _id: self.id.clone(),
            name: self.internal_reference.clone(),
            desc: self.name.clone(),
            attr_hidden_id: None,
            attr_no_delete: None,
        }
    }
}

/// Maps a fetched page of integration site records into canonical sites,
/// keeping order and length.
pub fn to_sites(items: &Vec<IntegrationSite>) -> (r: Vec<Site>)
    ensures
        r@.len() == items@.len(),
        forall|i: int|
            0 <= i < items@.len() ==> {
                &&& (#[trigger] r@[i])._id@ == items@[i].id@
                &&& r@[i].name@ == items@[i].internal_reference@
                &&& r@[i].desc@ == items@[i].name@
                &&& r@[i].attr_hidden_id is None
                &&& r@[i].attr_no_delete is None
            },
{
    let mut out: Vec<Site> = Vec::new();
    let mut i: usize = 0;
    while i < items.len()
        invariant
            i <= items.len(),
            out@.len() == i,
            forall|j: int|
                0 <= j < i ==> {
                    &&& (#[trigger] out@[j])._id@ == items@[j].id@
                    &&& out@[j].name@ == items@[j].internal_reference@
                    &&& out@[j].desc@ == items@[j].name@
                    &&& out@[j].attr_hidden_id is None
                    &&& out@[j].attr_no_delete is None
                },
        decreases items.len() - i,
    {
        let site = items[i].to_site();
        out.push(site);
        i += 1;
    }
    out
}

} // verus!
