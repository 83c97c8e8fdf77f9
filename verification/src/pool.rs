//! The entity pool: a stable-handle slot store backed by `obj_pool`.
//!
//! The pool's contents are modeled as a map from slot index to entity.  The
//! placement engine burns slot 0 with a sentinel right at construction, so
//! every handle it ever hands out is nonzero and grid cells can use 0 for
//! "empty".

use vstd::prelude::*;

use crate::tilemap::Entity;
use obj_pool::ObjPool;

verus! {

/// The pool type instantiated at the library's entity.
pub type EntityPool = ObjPool<Entity>;

#[verifier::external_type_specification]
#[verifier::external_body]
#[verifier::reject_recursive_types(T)]
pub struct ExObjPool<T>(ObjPool<T>);

/// What the pool stores: the entity at each occupied slot index.
pub uninterp spec fn pool_contents(p: EntityPool) -> Map<u32, Entity>;

/// Relies on `obj_pool::ObjPool::new` followed by the pool's first `insert`:
/// a fresh pool stores its first object in slot 0, as `obj_id_to_index`
/// reports it.
#[verifier::external_body]
pub(crate) fn pool_new_with(e: Entity) -> (pool: EntityPool)
    ensures
        pool_contents(pool) == map![0u32 => e],
{
    let mut p = ObjPool::new();
    p.insert(e);
    p
}

/// Relies on `obj_pool::ObjPool::insert` (with `obj_id_to_index`): the
/// object is stored in a slot that was vacant, and the slot's index is
/// returned.  The index bound holds because at most `u32::MAX - 1` slots
/// exist once the occupied count stays below that.
#[verifier::external_body]
pub(crate) fn pool_insert(p: &mut EntityPool, e: Entity) -> (idx: u32)
    requires
        pool_contents(*old(p)).dom().finite(),
        pool_contents(*old(p)).len() < 0xFFFF_FFFFu32,
    ensures
        !pool_contents(*old(p)).dom().contains(idx),
        idx < 0xFFFF_FFFFu32,
        pool_contents(*final(p)) == pool_contents(*old(p)).insert(idx, e),
{
    let id = p.insert(e);
    p.obj_id_to_index(id)
}

/// Relies on `obj_pool::ObjPool::get` (with `index_to_obj_id`): yields the
/// object stored at the index, or nothing for a vacant or out-of-range one.
#[verifier::external_body]
pub(crate) fn pool_get<'a>(p: &'a EntityPool, idx: u32) -> (r: Option<&'a Entity>)
    requires
        idx < 0xFFFF_FFFFu32,
    ensures
        match r {
            Some(e) => pool_contents(*p).dom().contains(idx) && *e == pool_contents(*p)[idx],
            None => !pool_contents(*p).dom().contains(idx),
        },
{
    p.get(p.index_to_obj_id(idx))
}

} // verus!
