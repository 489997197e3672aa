//! The container facade: the name, named resources and root object tree of
//! one loaded container, as plain values handed over by the parser. All
//! operations are read-only; looking the same thing up twice gives the same
//! answer.

use vstd::prelude::*;

use crate::value::{seq_models, val_model, TypedValue, ValModel};

verus! {

/// One named resource of the container: a sibling byte stream textures may
/// point into.
pub struct Resource {
    pub name: String,
    pub data: Vec<u8>,
}

/// The mathematical shadow of one resource.
pub struct ResourceModel {
    pub name: Seq<char>,
    pub data: Seq<u8>,
}

/// The shadow of one resource.
pub open spec fn resource_model(r: Resource) -> ResourceModel {
    ResourceModel { name: r.name@, data: r.data@ }
}

/// The shadows of a resource list.
pub open spec fn resource_models(rs: Seq<Resource>) -> Seq<ResourceModel> {
    Seq::new(rs.len(), |i: int| resource_model(rs[i]))
}

/// Bytes of the first resource of the given name, if any.
pub open spec fn lookup_resource(rs: Seq<ResourceModel>, name: Seq<char>) -> Option<Seq<u8>>
    decreases rs.len(),
{
    if rs.len() == 0 {
        None
    } else if rs[0].name == name {
        Some(rs[0].data)
    } else {
        lookup_resource(rs.skip(1), name)
    }
}

/// A loaded container: its own name, the main asset's name and object tree,
/// and its named resources.
pub struct UnityFs {
    pub name: String,
    pub asset_name: String,
    pub objects: Vec<TypedValue>,
    pub resources: Vec<Resource>,
}

/// The mathematical shadow of a loaded container.
pub struct ContainerModel {
    pub name: Seq<char>,
    pub asset_name: Seq<char>,
    pub objects: Seq<ValModel>,
    pub resources: Seq<ResourceModel>,
}

/// The shadow of one container.
pub open spec fn container_model(fs: UnityFs) -> ContainerModel {
    ContainerModel {
        name: fs.name@,
        asset_name: fs.asset_name@,
        objects: seq_models(fs.objects@),
        resources: resource_models(fs.resources@),
    }
}

impl UnityFs {
    /// Takes ownership of the parsed pieces of one container.
    pub fn load(
        name: String,
        asset_name: String,
        objects: Vec<TypedValue>,
        resources: Vec<Resource>,
    ) -> (r: UnityFs)
        ensures
            container_model(r) == (ContainerModel {
                name: name@,
                asset_name: asset_name@,
                objects: seq_models(objects@),
                resources: resource_models(resources@),
            }),
    {
        UnityFs { name, asset_name, objects, resources }
    }

    /// The container's own name, as the streaming grammar compares it.
    pub fn container_name(&self) -> (r: &String)
        ensures
            r@ == container_model(*self).name,
    {
        &self.name
    }

    /// Bytes of the named resource: lookup by exact name, no normalization.
    pub fn resource<'a>(&'a self, name: &String) -> (r: Option<&'a Vec<u8>>)
        ensures
            (match r {
                Some(data) => lookup_resource(container_model(*self).resources, name@) == Some(
                    data@,
                ),
                None => lookup_resource(container_model(*self).resources, name@) is None,
            }),
    {
        let ghost rm = resource_models(self.resources@);
        let mut i: usize = 0;
        proof {
            assert(rm.skip(0) =~= rm);
        }
        while i < self.resources.len()
            invariant
                i <= self.resources.len(),
                rm == resource_models(self.resources@),
                rm.len() == self.resources@.len(),
                lookup_resource(rm, name@) == lookup_resource(rm.skip(i as int), name@),
            decreases self.resources.len() - i,
        {
            proof {
                assert(rm.skip(i as int)[0] == rm[i as int]);
            }
            if self.resources[i].name == *name {
                return Some(&self.resources[i].data);
            }
            proof {
                assert(rm.skip(i as int).skip(1) =~= rm.skip(i as int + 1));
            }
            i = i + 1;
        }
        None
    }
}

} // verus!
