//! What a `CREATE CONSTRAINT` or `DROP CONSTRAINT` statement does before and after it touches the
//! data: the check against the constraints that exist, and the catalog entry it registers.
use vstd::prelude::*;

use crate::catalog::{ConstraintCatalogEntry, ConstraintKind, EntityKind, LabelId, PropertyKeyId};
use crate::database::error::Error;

verus! {

/// `CREATE CONSTRAINT name [IF NOT EXISTS]`, given whether a constraint of that name exists:
/// `Ok(true)` to go on and create it, `Ok(false)` when there is nothing to do.
pub fn create_constraint_precheck(name: &str, exists: bool, if_not_exists: bool) -> (r: Result<bool, Error>)
    ensures
        !exists ==> r == Ok::<bool, Error>(true),
        exists && if_not_exists ==> r == Ok::<bool, Error>(false),
        exists && !if_not_exists ==> (r matches Err(Error::ConstraintAlreadyExists(n)) && n@ == name@),
{
    if !exists {
        Ok(true)
    } else if if_not_exists {
        Ok(false)
    } else {
        Err(Error::ConstraintAlreadyExists(name.to_owned()))
    }
}

/// `DROP CONSTRAINT name [IF EXISTS]`, given whether a constraint of that name exists:
/// `Ok(true)` to go on and drop it, `Ok(false)` when there is nothing to do.
pub fn drop_constraint_precheck(name: &str, exists: bool, if_exists: bool) -> (r: Result<bool, Error>)
    ensures
        exists ==> r == Ok::<bool, Error>(true),
        !exists && if_exists ==> r == Ok::<bool, Error>(false),
        !exists && !if_exists ==> (r matches Err(Error::ConstraintNotFound(n)) && n@ == name@),
{
    if exists {
        Ok(true)
    } else if if_exists {
        Ok(false)
    } else {
        Err(Error::ConstraintNotFound(name.to_owned()))
    }
}

/// The catalog entry of a new constraint; the transaction names the backing index of `Unique`
/// and `NodeKey` constraints when it commits.
pub fn constraint_entry(
    name: &str,
    entity_kind: EntityKind,
    label_id: LabelId,
    constraint_kind: ConstraintKind,
    property_key_ids: Vec<PropertyKeyId>,
) -> (r: ConstraintCatalogEntry)
    ensures
        r.name@ == name@,
        r.entity_kind == entity_kind,
        r.label_or_rel_id == label_id,
        r.constraint_kind == constraint_kind,
        r.property_key_ids == property_key_ids,
        r.backing_index is None,
{
    ConstraintCatalogEntry {
        name: name.to_owned(),
        entity_kind,
        label_or_rel_id: label_id,
        constraint_kind,
        property_key_ids,
        backing_index: None,
    }
}

} // verus!
