//! The typed facade over remote spaces and indexes: thin wrappers that
//! resolve names through the schema cache, build the body a command calls
//! for, and route it through the connection's submission path. Each call
//! returns the correlation id of the request it placed on the wire; the
//! response reaches the caller when the driver feeds the matching frame
//! back into the connection.

use vstd::prelude::*;
use crate::value::{ValModel, Tuple};
use crate::conn::{Conn, Options, submit_transition};
use crate::protocol::{
    Command, spec_command_code, spec_iterator_code, IteratorType, UpdateOp, ops_models,
    build_select_body, build_store_body, build_delete_body, build_update_body, build_upsert_body,
    build_schema_space_body, build_schema_index_body,
};
use crate::schema::{lookup_space_in, lookup_index_in};
use crate::Error;

verus! {

/// The outcome of a name resolution: a synchronous cache hit, or the
/// correlation id of the single fetch that the miss put on the wire —
/// once its answer is stored, the same lookup hits without a round trip.
pub enum Lookup<T> {
    Found(T),
    Fetching(u64),
}

/// A space on the remote peer, named by its numeric id.
pub struct RemoteSpace {
    pub space_id: u32,
}

/// An index of a remote space; id 0 is the primary key.
pub struct RemoteIndex {
    pub space_id: u32,
    pub index_id: u32,
}

pub open spec fn spec_select_body(
    space_id: u32,
    index_id: u32,
    iterator: IteratorType,
    key: Seq<ValModel>,
) -> ValModel {
    ValModel::Array(
        seq![
            ValModel::Uint(space_id as u64),
            ValModel::Uint(index_id as u64),
            ValModel::Uint(spec_iterator_code(iterator)),
            ValModel::Array(key),
        ],
    )
}

impl RemoteIndex {
    pub fn new(space_id: u32, index_id: u32) -> (r: RemoteIndex)
        ensures
            r.space_id == space_id,
            r.index_id == index_id,
    {
        RemoteIndex { space_id, index_id }
    }

    /// A point lookup by key: a select under the equality iterator.
    pub fn get(&self, conn: &mut Conn, key: Tuple, options: &Options, now: u64) -> (r: Result<
        u64,
        Error,
    >)
        requires
            old(conn)@.mux.wf(),
            old(conn)@.mux.next_sync < u64::MAX,
            options.timeout is Some ==> now + options.timeout->0 <= u64::MAX,
        ensures
            submit_transition(
                old(conn)@,
                final(conn)@,
                r,
                spec_command_code(Command::Select),
                spec_select_body(self.space_id, self.index_id, IteratorType::Eq, key@),
                *options,
                now,
            ),
    {
        let body = build_select_body(self.space_id, self.index_id, IteratorType::Eq, key);
        conn.submit(Command::Select, &body, options, now)
    }

    /// A range scan under the given iterator classification.
    pub fn select(
        &self,
        conn: &mut Conn,
        iterator_type: IteratorType,
        key: Tuple,
        options: &Options,
        now: u64,
    ) -> (r: Result<u64, Error>)
        requires
            old(conn)@.mux.wf(),
            old(conn)@.mux.next_sync < u64::MAX,
            options.timeout is Some ==> now + options.timeout->0 <= u64::MAX,
        ensures
            submit_transition(
                old(conn)@,
                final(conn)@,
                r,
                spec_command_code(Command::Select),
                spec_select_body(self.space_id, self.index_id, iterator_type, key@),
                *options,
                now,
            ),
    {
        let body = build_select_body(self.space_id, self.index_id, iterator_type, key);
        conn.submit(Command::Select, &body, options, now)
    }

    /// Applies an ordered run of update operations to the row under `key`.
    pub fn update(
        &self,
        conn: &mut Conn,
        key: Tuple,
        ops: Vec<UpdateOp>,
        options: &Options,
        now: u64,
    ) -> (r: Result<u64, Error>)
        requires
            old(conn)@.mux.wf(),
            old(conn)@.mux.next_sync < u64::MAX,
            options.timeout is Some ==> now + options.timeout->0 <= u64::MAX,
        ensures
            submit_transition(
                old(conn)@,
                final(conn)@,
                r,
                spec_command_code(Command::Update),
                ValModel::Array(
                    seq![
                        ValModel::Uint(self.space_id as u64),
                        ValModel::Uint(self.index_id as u64),
                        ValModel::Array(key@),
                        ValModel::Array(ops_models(ops@)),
                    ],
                ),
                *options,
                now,
            ),
    {
        let body = build_update_body(self.space_id, self.index_id, key, ops);
        conn.submit(Command::Update, &body, options, now)
    }

    /// Updates the row matching `tuple`, or inserts `tuple` when none does.
    pub fn upsert(
        &self,
        conn: &mut Conn,
        tuple: Tuple,
        ops: Vec<UpdateOp>,
        options: &Options,
        now: u64,
    ) -> (r: Result<u64, Error>)
        requires
            old(conn)@.mux.wf(),
            old(conn)@.mux.next_sync < u64::MAX,
            options.timeout is Some ==> now + options.timeout->0 <= u64::MAX,
        ensures
            submit_transition(
                old(conn)@,
                final(conn)@,
                r,
                spec_command_code(Command::Upsert),
                ValModel::Array(
                    seq![
                        ValModel::Uint(self.space_id as u64),
                        ValModel::Uint(self.index_id as u64),
                        ValModel::Array(tuple@),
                        ValModel::Array(ops_models(ops@)),
                    ],
                ),
                *options,
                now,
            ),
    {
        let body = build_upsert_body(self.space_id, self.index_id, tuple, ops);
        conn.submit(Command::Upsert, &body, options, now)
    }

    /// Removes the row under `key`.
    pub fn delete(&self, conn: &mut Conn, key: Tuple, options: &Options, now: u64) -> (r: Result<
        u64,
        Error,
    >)
        requires
            old(conn)@.mux.wf(),
            old(conn)@.mux.next_sync < u64::MAX,
            options.timeout is Some ==> now + options.timeout->0 <= u64::MAX,
        ensures
            submit_transition(
                old(conn)@,
                final(conn)@,
                r,
                spec_command_code(Command::Delete),
                ValModel::Array(
                    seq![
                        ValModel::Uint(self.space_id as u64),
                        ValModel::Uint(self.index_id as u64),
                        ValModel::Array(key@),
                    ],
                ),
                *options,
                now,
            ),
    {
        let body = build_delete_body(self.space_id, self.index_id, key);
        conn.submit(Command::Delete, &body, options, now)
    }
}

impl RemoteSpace {
    pub fn new(space_id: u32) -> (r: RemoteSpace)
        ensures
            r.space_id == space_id,
    {
        RemoteSpace { space_id }
    }

    /// The index with id 0.
    pub fn primary_key(&self) -> (r: RemoteIndex)
        ensures
            r.space_id == self.space_id,
            r.index_id == 0,
    {
        RemoteIndex::new(self.space_id, 0)
    }

    /// Finds an index of this space by name. A cached id answers without a
    /// round trip; a miss places exactly one resolution request on the wire
    /// and reports its correlation id.
    pub fn index(&self, conn: &mut Conn, name: Vec<u8>, options: &Options, now: u64) -> (r: Result<
        Lookup<RemoteIndex>,
        Error,
    >)
        requires
            old(conn)@.mux.wf(),
            old(conn)@.mux.next_sync < u64::MAX,
            options.timeout is Some ==> now + options.timeout->0 <= u64::MAX,
        ensures
            match r {
                Ok(Lookup::Found(idx)) => lookup_index_in(
                    old(conn)@.schema.indexes,
                    self.space_id,
                    name@,
                ) == Some(idx.index_id) && idx.space_id == self.space_id && final(conn)@ == old(
                    conn,
                )@,
                Ok(Lookup::Fetching(sync)) => lookup_index_in(
                    old(conn)@.schema.indexes,
                    self.space_id,
                    name@,
                ) is None && submit_transition(
                    old(conn)@,
                    final(conn)@,
                    Ok(sync),
                    spec_command_code(Command::SchemaIndex),
                    ValModel::Array(
                        seq![ValModel::Uint(self.space_id as u64), ValModel::Str(name@)],
                    ),
                    *options,
                    now,
                ),
                Err(e) => lookup_index_in(old(conn)@.schema.indexes, self.space_id, name@)
                    is None && submit_transition(
                    old(conn)@,
                    final(conn)@,
                    Err(e),
                    spec_command_code(Command::SchemaIndex),
                    ValModel::Array(
                        seq![ValModel::Uint(self.space_id as u64), ValModel::Str(name@)],
                    ),
                    *options,
                    now,
                ),
            },
    {
        match conn.schema.lookup_index(self.space_id, &name) {
            Some(index_id) => Ok(Lookup::Found(RemoteIndex::new(self.space_id, index_id))),
            None => {
                let body = build_schema_index_body(self.space_id, name);
                match conn.submit(Command::SchemaIndex, &body, options, now) {
                    Ok(sync) => Ok(Lookup::Fetching(sync)),
                    Err(e) => Err(e),
                }
            }
        }
    }

    /// A point lookup through the primary key.
    pub fn get(&self, conn: &mut Conn, key: Tuple, options: &Options, now: u64) -> (r: Result<
        u64,
        Error,
    >)
        requires
            old(conn)@.mux.wf(),
            old(conn)@.mux.next_sync < u64::MAX,
            options.timeout is Some ==> now + options.timeout->0 <= u64::MAX,
        ensures
            submit_transition(
                old(conn)@,
                final(conn)@,
                r,
                spec_command_code(Command::Select),
                spec_select_body(self.space_id, 0, IteratorType::Eq, key@),
                *options,
                now,
            ),
    {
        self.primary_key().get(conn, key, options, now)
    }

    /// A range scan through the primary key.
    pub fn select(
        &self,
        conn: &mut Conn,
        iterator_type: IteratorType,
        key: Tuple,
        options: &Options,
        now: u64,
    ) -> (r: Result<u64, Error>)
        requires
            old(conn)@.mux.wf(),
            old(conn)@.mux.next_sync < u64::MAX,
            options.timeout is Some ==> now + options.timeout->0 <= u64::MAX,
        ensures
            submit_transition(
                old(conn)@,
                final(conn)@,
                r,
                spec_command_code(Command::Select),
                spec_select_body(self.space_id, 0, iterator_type, key@),
                *options,
                now,
            ),
    {
        self.primary_key().select(conn, iterator_type, key, options, now)
    }

    /// Stores a new tuple; a duplicate primary key is the server's error.
    pub fn insert(&self, conn: &mut Conn, value: Tuple, options: &Options, now: u64) -> (r: Result<
        u64,
        Error,
    >)
        requires
            old(conn)@.mux.wf(),
            old(conn)@.mux.next_sync < u64::MAX,
            options.timeout is Some ==> now + options.timeout->0 <= u64::MAX,
        ensures
            submit_transition(
                old(conn)@,
                final(conn)@,
                r,
                spec_command_code(Command::Insert),
                ValModel::Array(
                    seq![ValModel::Uint(self.space_id as u64), ValModel::Array(value@)],
                ),
                *options,
                now,
            ),
    {
        let body = build_store_body(self.space_id, value);
        conn.submit(Command::Insert, &body, options, now)
    }

    /// Stores a tuple, displacing any row with the same primary key.
    pub fn replace(&self, conn: &mut Conn, value: Tuple, options: &Options, now: u64) -> (r:
        Result<u64, Error>)
        requires
            old(conn)@.mux.wf(),
            old(conn)@.mux.next_sync < u64::MAX,
            options.timeout is Some ==> now + options.timeout->0 <= u64::MAX,
        ensures
            submit_transition(
                old(conn)@,
                final(conn)@,
                r,
                spec_command_code(Command::Replace),
                ValModel::Array(
                    seq![ValModel::Uint(self.space_id as u64), ValModel::Array(value@)],
                ),
                *options,
                now,
            ),
    {
        let body = build_store_body(self.space_id, value);
        conn.submit(Command::Replace, &body, options, now)
    }

    /// Applies update operations through the primary key.
    pub fn update(
        &self,
        conn: &mut Conn,
        key: Tuple,
        ops: Vec<UpdateOp>,
        options: &Options,
        now: u64,
    ) -> (r: Result<u64, Error>)
        requires
            old(conn)@.mux.wf(),
            old(conn)@.mux.next_sync < u64::MAX,
            options.timeout is Some ==> now + options.timeout->0 <= u64::MAX,
        ensures
            submit_transition(
                old(conn)@,
                final(conn)@,
                r,
                spec_command_code(Command::Update),
                ValModel::Array(
                    seq![
                        ValModel::Uint(self.space_id as u64),
                        ValModel::Uint(0),
                        ValModel::Array(key@),
                        ValModel::Array(ops_models(ops@)),
                    ],
                ),
                *options,
                now,
            ),
    {
        self.primary_key().update(conn, key, ops, options, now)
    }

    /// Upserts through the primary key.
    pub fn upsert(
        &self,
        conn: &mut Conn,
        value: Tuple,
        ops: Vec<UpdateOp>,
        options: &Options,
        now: u64,
    ) -> (r: Result<u64, Error>)
        requires
            old(conn)@.mux.wf(),
            old(conn)@.mux.next_sync < u64::MAX,
            options.timeout is Some ==> now + options.timeout->0 <= u64::MAX,
        ensures
            submit_transition(
                old(conn)@,
                final(conn)@,
                r,
                spec_command_code(Command::Upsert),
                ValModel::Array(
                    seq![
                        ValModel::Uint(self.space_id as u64),
                        ValModel::Uint(0),
                        ValModel::Array(value@),
                        ValModel::Array(ops_models(ops@)),
                    ],
                ),
                *options,
                now,
            ),
    {
        self.primary_key().upsert(conn, value, ops, options, now)
    }

    /// Removes through the primary key.
    pub fn delete(&self, conn: &mut Conn, key: Tuple, options: &Options, now: u64) -> (r: Result<
        u64,
        Error,
    >)
        requires
            old(conn)@.mux.wf(),
            old(conn)@.mux.next_sync < u64::MAX,
            options.timeout is Some ==> now + options.timeout->0 <= u64::MAX,
        ensures
            submit_transition(
                old(conn)@,
                final(conn)@,
                r,
                spec_command_code(Command::Delete),
                ValModel::Array(
                    seq![
                        ValModel::Uint(self.space_id as u64),
                        ValModel::Uint(0),
                        ValModel::Array(key@),
                    ],
                ),
                *options,
                now,
            ),
    {
        self.primary_key().delete(conn, key, options, now)
    }
}

impl Conn {
    /// Finds a space by name: a cached id answers synchronously, a miss
    /// places exactly one resolution request on the wire.
    pub fn space(&mut self, name: Vec<u8>, options: &Options, now: u64) -> (r: Result<
        Lookup<RemoteSpace>,
        Error,
    >)
        requires
            old(self)@.mux.wf(),
            old(self)@.mux.next_sync < u64::MAX,
            options.timeout is Some ==> now + options.timeout->0 <= u64::MAX,
        ensures
            match r {
                Ok(Lookup::Found(sp)) => lookup_space_in(old(self)@.schema.spaces, name@) == Some(
                    sp.space_id,
                ) && final(self)@ == old(self)@,
                Ok(Lookup::Fetching(sync)) => lookup_space_in(old(self)@.schema.spaces, name@)
                    is None && submit_transition(
                    old(self)@,
                    final(self)@,
                    Ok(sync),
                    spec_command_code(Command::SchemaSpace),
                    ValModel::Array(seq![ValModel::Str(name@)]),
                    *options,
                    now,
                ),
                Err(e) => lookup_space_in(old(self)@.schema.spaces, name@) is None
                    && submit_transition(
                    old(self)@,
                    final(self)@,
                    Err(e),
                    spec_command_code(Command::SchemaSpace),
                    ValModel::Array(seq![ValModel::Str(name@)]),
                    *options,
                    now,
                ),
            },
    {
        match self.schema.lookup_space(&name) {
            Some(space_id) => Ok(Lookup::Found(RemoteSpace::new(space_id))),
            None => {
                let body = build_schema_space_body(name);
                match self.submit(Command::SchemaSpace, &body, options, now) {
                    Ok(sync) => Ok(Lookup::Fetching(sync)),
                    Err(e) => Err(e),
                }
            }
        }
    }
}

} // verus!
