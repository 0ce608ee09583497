//! A builder that gathers what an insertion needs and commits it in one call.

use vstd::prelude::*;
use std::marker::PhantomData;
use crate::handle::RefCompHandle;
use crate::insert::{FromWorldFactory, InsertCommand, InsertStep};
use crate::registry::registered;
use crate::server::RefCompServer;

verus! {

/// Gathers the owner, the factory and the edit of an insertion of a resource
/// of type `T`. Nothing happens before `build` or `build_world`.
pub struct RefCompBuilder<T, F, E> {
    entity: u64,
    type_id: String,
    insert_fn: F,
    edit_fn: Option<E>,
    marker: PhantomData<T>,
}

/// Builders that start from an owner and a factory.
pub trait RefCompBuilderExt<F>: Sized {
    /// A builder for the resource tagged `type_id` on owner `entity`, with
    /// `insert_fn` to construct it.
    fn new(entity: u64, type_id: String, insert_fn: F) -> Self;
}

impl<T, F, E> RefCompBuilder<T, F, E> {
    /// The command that the builder stands for.
    pub closed spec fn command(&self) -> InsertCommand<F, E> {
        InsertCommand { entity: self.entity, insert_fn: self.insert_fn, edit_fn: self.edit_fn }
    }

    /// The tag of the resource type.
    pub closed spec fn tag(&self) -> Seq<char> {
        self.type_id@
    }

    /// A builder for the resource tagged `type_id` on owner `entity`, with
    /// `insert_fn` to construct it and no edit.
    pub fn new(entity: u64, type_id: String, insert_fn: F) -> (builder: Self)
        ensures
            builder.tag() == type_id@,
            builder.command() == (InsertCommand { entity, insert_fn, edit_fn: None::<E> }),
    {
        RefCompBuilder { entity, type_id, insert_fn, edit_fn: None, marker: PhantomData }
    }

    /// The owner that the resource is for.
    pub fn entity(&self) -> (entity: u64)
        ensures
            entity == self.command().entity,
    {
        self.entity
    }

    /// The tag of the resource type.
    pub fn type_id(&self) -> (type_id: &String)
        ensures
            type_id@ == self.tag(),
    {
        &self.type_id
    }

    /// The same builder, with `edit_fn` to edit a resource that exists.
    pub fn with_edit_fn(self, edit_fn: E) -> (builder: Self)
        ensures
            builder.tag() == self.tag(),
            builder.command() == (InsertCommand {
                entity: self.command().entity,
                insert_fn: self.command().insert_fn,
                edit_fn: Some(edit_fn),
            }),
    {
        RefCompBuilder {
            entity: self.entity,
            type_id: self.type_id,
            insert_fn: self.insert_fn,
            edit_fn: Some(edit_fn),
            marker: PhantomData,
        }
    }

    /// The same builder, with `insert_fn` to construct the resource in place
    /// of the factory it had.
    pub fn with_insert_fn<G>(self, insert_fn: G) -> (builder: RefCompBuilder<T, G, E>)
        ensures
            builder.tag() == self.tag(),
            builder.command() == (InsertCommand {
                entity: self.command().entity,
                insert_fn,
                edit_fn: self.command().edit_fn,
            }),
    {
        RefCompBuilder {
            entity: self.entity,
            type_id: self.type_id,
            insert_fn,
            edit_fn: self.edit_fn,
            marker: PhantomData,
        }
    }
}

impl<T, F: Copy, E: Copy> RefCompBuilder<T, F, E> {
    /// Commits the insertion for a host that carries it out later: registers
    /// `delete` for the type with `server`, the first time the type is seen,
    /// and returns a strong handle with the command to queue.
    pub fn build<D>(&self, server: &mut RefCompServer<D>, delete: D) -> (out: (
        RefCompHandle<T>,
        InsertCommand<F, E>,
    ))
        requires
            old(server).wf(),
        ensures
            final(server).wf(),
            final(server).counts() == old(server).counts(),
            final(server).spawners() == registered(old(server).spawners(), self.tag(), delete),
            out.0.key() == (self.command().entity, self.tag()),
            out.0.counted(),
            out.0.drop_sends() == out.0.dropped().sends(),
            out.1 == self.command(),
    {
        server.insert_ref_comp(
            self.entity,
            self.type_id.clone(),
            delete,
            self.insert_fn,
            self.edit_fn,
        )
    }

    /// Commits the insertion for a caller that has exclusive access to the
    /// host and tells in `present` whether the owner has the resource
    /// already: registers `delete` for the type with `server`, the first time
    /// the type is seen, and returns a strong handle with what the caller has
    /// to do.
    pub fn build_world<D>(&self, server: &mut RefCompServer<D>, delete: D, present: bool) -> (out: (
        RefCompHandle<T>,
        InsertStep<F, E>,
    ))
        requires
            old(server).wf(),
        ensures
            final(server).wf(),
            final(server).counts() == old(server).counts(),
            final(server).spawners() == registered(old(server).spawners(), self.tag(), delete),
            out.0.key() == (self.command().entity, self.tag()),
            out.0.counted(),
            out.0.drop_sends() == out.0.dropped().sends(),
            out.1 == self.command().step(present),
    {
        server.inner_insert_ref_comp(
            present,
            self.entity,
            self.type_id.clone(),
            delete,
            self.insert_fn,
            self.edit_fn,
        )
    }
}

impl<T, E> RefCompBuilder<T, FromWorldFactory, E> {
    /// A builder for a resource that the host constructs from its own state.
    pub fn new_fw(entity: u64, type_id: String) -> (builder: Self)
        ensures
            builder.tag() == type_id@,
            builder.command() == (InsertCommand {
                entity,
                insert_fn: FromWorldFactory,
                edit_fn: None::<E>,
            }),
    {
        RefCompBuilder {
            entity,
            type_id,
            insert_fn: FromWorldFactory,
            edit_fn: None,
            marker: PhantomData,
        }
    }
}

impl<T, F, E> RefCompBuilderExt<F> for RefCompBuilder<T, F, E> {
    fn new(entity: u64, type_id: String, insert_fn: F) -> (builder: Self)
        ensures
            builder.tag() == type_id@,
            builder.command() == (InsertCommand { entity, insert_fn, edit_fn: None::<E> }),
    {
        RefCompBuilder { entity, type_id, insert_fn, edit_fn: None, marker: PhantomData }
    }
}

} // verus!
