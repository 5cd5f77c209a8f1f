//! The encoder: from the data model to runtime values.
//!
//! A `Serializer` turns one value of the data model into one runtime value.
//! Scalars are converted at once. For a sequence, a map or an enum variant
//! with fields it hands out a builder that owns a fresh table, takes the
//! elements one by one, each already converted, and gives the table up at
//! `end`.
//!
//! An enum variant is written in one of four ways. A unit variant is the
//! string of its name. Every other variant is a table with one entry, under
//! the variant's name: the inner value of a newtype variant, the sequence
//! table of a tuple variant, the map table of a struct variant.
//!
//! Storing nil in a table stores nothing. So an element, a field or an inner
//! value that converts to nil leaves no entry behind, and the contracts below
//! say so through `put`.
//!
//! A value can be stored only in a table of the runtime it lives in, and the
//! runtime takes neither nil nor a float that is not a number as a key. The
//! builders ask for both where they take a value from their caller.

use crate::error::{is_runtime_failure, lift, Error};
use crate::lua::{
    at_home, from_bool, from_i64, from_str, from_table, from_u64, is_key, is_string,
    is_table, key_of, kind_of, lua_home, new_table, nil, number_of_u64, put, table_entries,
    table_home, table_is_covered, table_is_plain, table_set, FreshTable, Key, Kind,
};
use vstd::prelude::*;

verus! {

/// Converts scalars and starts the builders.
pub struct Serializer<'lua> {
    lua: &'lua mlua::Lua,
}

/// Builds the table of a sequence, a tuple or a tuple struct: the elements
/// under 1, 2, ... in the order in which they come.
pub struct SeqSerializer<'lua> {
    lua: &'lua mlua::Lua,
    table: FreshTable<'lua>,
    index: usize,
}

/// Builds the table of a tuple variant: the fields as in a sequence, and at
/// the end a second table that holds the first under the variant's name.
pub struct TupleVariantSerializer<'lua> {
    lua: &'lua mlua::Lua,
    table: FreshTable<'lua>,
    index: usize,
    name: String,
}

/// Builds the table of a map or a struct: each value under its key.
pub struct MapSerializer<'lua> {
    lua: &'lua mlua::Lua,
    table: FreshTable<'lua>,
    key: Option<mlua::Value<'lua>>,
}

/// Builds the table of a struct variant: the fields as in a struct, and at
/// the end a second table that holds the first under the variant's name.
pub struct StructVariantSerializer<'lua> {
    lua: &'lua mlua::Lua,
    table: FreshTable<'lua>,
    name: String,
}

/// No entries.
pub open spec fn no_entries<'lua>() -> Map<Key<'lua>, mlua::Value<'lua>> {
    Map::empty()
}

/// The key that the element at the place `index` goes under: the integer
/// `index`, or, for a place that no integer of the runtime can hold, the
/// float nearest to it.
pub open spec fn index_key<'lua>(index: usize) -> Key<'lua> {
    if index <= i64::MAX {
        Key::Index(index as int)
    } else {
        Key::Float(number_of_u64(index as u64))
    }
}

/// True when `table` is a table that a builder may fill: it lives in the
/// runtime `home` and has no metatable.
pub open spec fn is_fresh(table: mlua::Table<'_>, home: int) -> bool {
    &&& table_is_plain(table)
    &&& table_home(table) == home
}

/// True when `value` is the table of a variant with fields: a table without
/// metatable whose one entry is under `name` and is the table `fields`.
pub open spec fn is_variant_of<'lua>(
    value: mlua::Value<'lua>,
    name: Seq<char>,
    fields: mlua::Table<'lua>,
) -> bool {
    &&& kind_of(value) matches Kind::Table(table)
    &&& table_is_plain(table)
    &&& table_is_covered(table)
    &&& table_entries(table).dom() =~= set![Key::Name(name)]
    &&& kind_of(table_entries(table)[Key::Name(name)]) == Kind::Table(fields)
}

/// True when `value` is the table of a sequence of bytes: a table without
/// metatable that holds, under 1, 2, ... and under no other key, the bytes
/// as integers.
pub open spec fn is_bytes_table(value: mlua::Value<'_>, bytes: Seq<u8>) -> bool {
    &&& kind_of(value) matches Kind::Table(table)
    &&& table_is_plain(table)
    &&& table_is_covered(table)
    &&& forall|key: Key<'_>|
        table_entries(table).contains_key(key) <==> (key matches Key::Index(i) && 1 <= i
            <= bytes.len())
    &&& forall|i: int|
        0 <= i < bytes.len() ==> kind_of(#[trigger] table_entries(table)[Key::Index(i + 1)])
            == Kind::Integer(bytes[i] as i64)
}

/// Calls `char::to_string`, which gives the string of that one character.
#[verifier::external_body]
fn char_to_string(v: char) -> (text: String)
    ensures
        text@ == seq![v],
{
    v.to_string()
}

/// Stores `value` in `table` under the integer `index`.
fn set_index<'lua>(
    lua: &'lua mlua::Lua,
    table: &mut FreshTable<'lua>,
    index: usize,
    value: mlua::Value<'lua>,
) -> (r: Result<(), Error>)
    requires
        is_fresh(old(table).handle(), lua_home(*lua)),
        at_home(value, lua_home(*lua)),
    ensures
        is_fresh(final(table).handle(), lua_home(*lua)),
        table_is_covered(old(table).handle()) ==> table_is_covered(final(table).handle()),
        r is Ok ==> table_entries(final(table).handle()) == put(
            table_entries(old(table).handle()),
            index_key(index),
            value,
        ),
        r matches Err(error) ==> is_runtime_failure(error),
{
    let key = lift(from_u64(lua, index as u64))?;
    lift(table_set(table, key, value))
}

/// Stores `value` in `table` under the string `name`.
fn set_name<'lua>(
    lua: &'lua mlua::Lua,
    table: &mut FreshTable<'lua>,
    name: &str,
    value: mlua::Value<'lua>,
) -> (r: Result<(), Error>)
    requires
        is_fresh(old(table).handle(), lua_home(*lua)),
        at_home(value, lua_home(*lua)),
    ensures
        is_fresh(final(table).handle(), lua_home(*lua)),
        table_is_covered(old(table).handle()) ==> table_is_covered(final(table).handle()),
        r is Ok ==> table_entries(final(table).handle()) == put(
            table_entries(old(table).handle()),
            Key::Name(name@),
            value,
        ),
        r matches Err(error) ==> is_runtime_failure(error),
{
    let key = lift(from_str(lua, name))?;
    lift(table_set(table, key, value))
}

/// A new table that holds `fields` under `name` and nothing else.
fn wrap_variant<'lua>(lua: &'lua mlua::Lua, name: &str, fields: FreshTable<'lua>) -> (r: Result<
    mlua::Value<'lua>,
    Error,
>)
    requires
        table_home(fields.handle()) == lua_home(*lua),
    ensures
        r matches Ok(value) ==> is_variant_of(value, name@, fields.handle()) && at_home(
            value,
            lua_home(*lua),
        ),
        r matches Err(error) ==> is_runtime_failure(error),
{
    let mut map = lift(new_table(lua))?;
    set_name(lua, &mut map, name, from_table(fields))?;
    Ok(from_table(map))
}

impl<'lua> Serializer<'lua> {
    /// The runtime in which the values are made.
    pub closed spec fn home(self) -> int {
        lua_home(*self.lua)
    }

    /// A serializer that makes its values in `lua`.
    pub fn new(lua: &'lua mlua::Lua) -> (serializer: Self)
        ensures
            serializer.home() == lua_home(*lua),
    {
        Serializer { lua }
    }

    pub fn serialize_bool(self, v: bool) -> (r: Result<mlua::Value<'lua>, Error>)
        ensures
            r is Ok,
            kind_of(r->Ok_0) == Kind::Boolean(v),
            at_home(r->Ok_0, self.home()),
    {
        lift(from_bool(self.lua, v))
    }

    pub fn serialize_i8(self, v: i8) -> (r: Result<mlua::Value<'lua>, Error>)
        ensures
            r is Ok,
            kind_of(r->Ok_0) == Kind::Integer(v as i64),
            at_home(r->Ok_0, self.home()),
    {
        lift(from_i64(self.lua, v as i64))
    }

    pub fn serialize_i16(self, v: i16) -> (r: Result<mlua::Value<'lua>, Error>)
        ensures
            r is Ok,
            kind_of(r->Ok_0) == Kind::Integer(v as i64),
            at_home(r->Ok_0, self.home()),
    {
        lift(from_i64(self.lua, v as i64))
    }

    pub fn serialize_i32(self, v: i32) -> (r: Result<mlua::Value<'lua>, Error>)
        ensures
            r is Ok,
            kind_of(r->Ok_0) == Kind::Integer(v as i64),
            at_home(r->Ok_0, self.home()),
    {
        lift(from_i64(self.lua, v as i64))
    }

    pub fn serialize_i64(self, v: i64) -> (r: Result<mlua::Value<'lua>, Error>)
        ensures
            r is Ok,
            kind_of(r->Ok_0) == Kind::Integer(v),
            at_home(r->Ok_0, self.home()),
    {
        lift(from_i64(self.lua, v))
    }

    pub fn serialize_u8(self, v: u8) -> (r: Result<mlua::Value<'lua>, Error>)
        ensures
            r is Ok,
            kind_of(r->Ok_0) == Kind::Integer(v as i64),
            at_home(r->Ok_0, self.home()),
    {
        lift(from_u64(self.lua, v as u64))
    }

    pub fn serialize_u16(self, v: u16) -> (r: Result<mlua::Value<'lua>, Error>)
        ensures
            r is Ok,
            kind_of(r->Ok_0) == Kind::Integer(v as i64),
            at_home(r->Ok_0, self.home()),
    {
        lift(from_u64(self.lua, v as u64))
    }

    pub fn serialize_u32(self, v: u32) -> (r: Result<mlua::Value<'lua>, Error>)
        ensures
            r is Ok,
            kind_of(r->Ok_0) == Kind::Integer(v as i64),
            at_home(r->Ok_0, self.home()),
    {
        lift(from_u64(self.lua, v as u64))
    }

    /// A `u64` that the runtime's integer can hold stays an integer. A larger
    /// one becomes the nearest float.
    pub fn serialize_u64(self, v: u64) -> (r: Result<mlua::Value<'lua>, Error>)
        ensures
            r is Ok,
            v <= i64::MAX ==> kind_of(r->Ok_0) == Kind::Integer(v as i64),
            v > i64::MAX ==> kind_of(r->Ok_0) == Kind::Number(number_of_u64(v)),
            is_key(kind_of(r->Ok_0)),
            at_home(r->Ok_0, self.home()),
    {
        lift(from_u64(self.lua, v))
    }

    /// A character becomes the string that holds it alone.
    pub fn serialize_char(self, v: char) -> (r: Result<mlua::Value<'lua>, Error>)
        ensures
            r matches Ok(value) ==> is_string(value, seq![v]) && at_home(value, self.home()),
            r matches Err(error) ==> is_runtime_failure(error),
    {
        let text = char_to_string(v);
        lift(from_str(self.lua, text.as_str()))
    }

    pub fn serialize_str(self, v: &str) -> (r: Result<mlua::Value<'lua>, Error>)
        ensures
            r matches Ok(value) ==> is_string(value, v@) && at_home(value, self.home()),
            r matches Err(error) ==> is_runtime_failure(error),
    {
        lift(from_str(self.lua, v))
    }

    /// Bytes become a sequence of integers, one for each byte.
    pub fn serialize_bytes(self, v: &[u8]) -> (r: Result<mlua::Value<'lua>, Error>)
        requires
            v@.len() < usize::MAX,
        ensures
            r matches Ok(value) ==> at_home(value, self.home()) && (v@.len() <= i64::MAX
                ==> is_bytes_table(value, v@)),
            r matches Err(error) ==> is_runtime_failure(error),
    {
        let lua = self.lua;
        let mut seq = self.serialize_seq(Some(v.len()))?;
        let mut i: usize = 0;
        while i < v.len()
            invariant
                i <= v@.len() < usize::MAX,
                seq.index() == i + 1,
                seq.wf(),
                seq.home() == lua_home(*lua),
                v@.len() <= i64::MAX ==> table_is_covered(seq.table()),
                v@.len() <= i64::MAX ==> forall|key: Key<'_>|
                    table_entries(seq.table()).contains_key(key) <==> (key matches Key::Index(j)
                        && 1 <= j <= i),
                v@.len() <= i64::MAX ==> forall|j: int|
                    0 <= j < i ==> kind_of(#[trigger] table_entries(seq.table())[Key::Index(j + 1)])
                        == Kind::Integer(v@[j] as i64),
            decreases v@.len() - i,
        {
            let byte = Serializer { lua }.serialize_u8(v[i])?;
            seq.serialize_element(byte)?;
            i += 1;
        }
        seq.end()
    }

    /// An absent value is nil.
    pub fn serialize_none(self) -> (r: Result<mlua::Value<'lua>, Error>)
        ensures
            r is Ok,
            kind_of(r->Ok_0) is Nil,
            at_home(r->Ok_0, self.home()),
    {
        Ok(nil())
    }

    /// A present value is written as it is, with nothing around it: `value`
    /// is the inner value, already converted. A present value whose inner
    /// value is nil is therefore nil as well, like an absent one.
    pub fn serialize_some(self, value: mlua::Value<'lua>) -> (r: Result<mlua::Value<'lua>, Error>)
        ensures
            r == Ok::<mlua::Value<'lua>, Error>(value),
    {
        Ok(value)
    }

    pub fn serialize_unit(self) -> (r: Result<mlua::Value<'lua>, Error>)
        ensures
            r is Ok,
            kind_of(r->Ok_0) is Nil,
            at_home(r->Ok_0, self.home()),
    {
        Ok(nil())
    }

    pub fn serialize_unit_struct(self, _name: &'static str) -> (r: Result<mlua::Value<'lua>, Error>)
        ensures
            r is Ok,
            kind_of(r->Ok_0) is Nil,
            at_home(r->Ok_0, self.home()),
    {
        self.serialize_unit()
    }

    /// A unit variant is the string of its name.
    pub fn serialize_unit_variant(
        self,
        _name: &'static str,
        _variant_index: u32,
        variant: &'static str,
    ) -> (r: Result<mlua::Value<'lua>, Error>)
        ensures
            r matches Ok(value) ==> is_string(value, variant@) && at_home(value, self.home()),
            r matches Err(error) ==> is_runtime_failure(error),
    {
        self.serialize_str(variant)
    }

    /// A newtype struct is its inner value: `value`, already converted.
    pub fn serialize_newtype_struct(self, _name: &'static str, value: mlua::Value<'lua>) -> (r:
        Result<mlua::Value<'lua>, Error>)
        ensures
            r == Ok::<mlua::Value<'lua>, Error>(value),
    {
        Ok(value)
    }

    /// A newtype variant is a table that holds the inner value, already
    /// converted, under the variant's name.
    pub fn serialize_newtype_variant(
        self,
        _name: &'static str,
        _variant_index: u32,
        variant: &'static str,
        value: mlua::Value<'lua>,
    ) -> (r: Result<mlua::Value<'lua>, Error>)
        requires
            at_home(value, self.home()),
        ensures
            r matches Ok(table) ==> {
                &&& is_table(table, put(no_entries(), Key::Name(variant@), value))
                &&& at_home(table, self.home())
            },
            r matches Err(error) ==> is_runtime_failure(error),
    {
        let mut table = lift(new_table(self.lua))?;
        set_name(self.lua, &mut table, variant, value)?;
        Ok(from_table(table))
    }

    /// A sequence starts as an empty table, with 1 as the first index. The
    /// length is not written down.
    pub fn serialize_seq(self, _len: Option<usize>) -> (r: Result<SeqSerializer<'lua>, Error>)
        ensures
            r matches Ok(seq) ==> {
                &&& seq.wf()
                &&& table_is_covered(seq.table())
                &&& seq.home() == self.home()
                &&& seq.index() == 1
                &&& table_entries(seq.table()) == no_entries()
            },
            r matches Err(error) ==> is_runtime_failure(error),
    {
        let table = lift(new_table(self.lua))?;
        Ok(SeqSerializer { lua: self.lua, table, index: 1 })
    }

    /// A tuple is a sequence.
    pub fn serialize_tuple(self, len: usize) -> (r: Result<SeqSerializer<'lua>, Error>)
        ensures
            r matches Ok(seq) ==> {
                &&& seq.wf()
                &&& table_is_covered(seq.table())
                &&& seq.home() == self.home()
                &&& seq.index() == 1
                &&& table_entries(seq.table()) == no_entries()
            },
            r matches Err(error) ==> is_runtime_failure(error),
    {
        self.serialize_seq(Some(len))
    }

    /// A tuple struct is a sequence.
    pub fn serialize_tuple_struct(self, _name: &'static str, len: usize) -> (r: Result<
        SeqSerializer<'lua>,
        Error,
    >)
        ensures
            r matches Ok(seq) ==> {
                &&& seq.wf()
                &&& table_is_covered(seq.table())
                &&& seq.home() == self.home()
                &&& seq.index() == 1
                &&& table_entries(seq.table()) == no_entries()
            },
            r matches Err(error) ==> is_runtime_failure(error),
    {
        self.serialize_seq(Some(len))
    }

    /// A tuple variant starts as a sequence does, and keeps the variant's
    /// name for the end.
    pub fn serialize_tuple_variant(
        self,
        _name: &'static str,
        _variant_index: u32,
        variant: &'static str,
        _len: usize,
    ) -> (r: Result<TupleVariantSerializer<'lua>, Error>)
        ensures
            r matches Ok(fields) ==> {
                &&& fields.wf()
                &&& table_is_covered(fields.table())
                &&& fields.home() == self.home()
                &&& fields.index() == 1
                &&& fields.name() == variant@
                &&& table_entries(fields.table()) == no_entries()
            },
            r matches Err(error) ==> is_runtime_failure(error),
    {
        let table = lift(new_table(self.lua))?;
        Ok(TupleVariantSerializer { lua: self.lua, table, index: 1, name: variant.to_owned() })
    }

    /// A map starts as an empty table, with no key waiting for its value.
    pub fn serialize_map(self, _len: Option<usize>) -> (r: Result<MapSerializer<'lua>, Error>)
        ensures
            r matches Ok(map) ==> {
                &&& map.wf()
                &&& table_is_covered(map.table())
                &&& map.home() == self.home()
                &&& map.key() is None
                &&& table_entries(map.table()) == no_entries()
            },
            r matches Err(error) ==> is_runtime_failure(error),
    {
        let table = lift(new_table(self.lua))?;
        Ok(MapSerializer { lua: self.lua, table, key: None })
    }

    /// A struct is a map from the names of its fields.
    pub fn serialize_struct(self, _name: &'static str, len: usize) -> (r: Result<
        MapSerializer<'lua>,
        Error,
    >)
        ensures
            r matches Ok(map) ==> {
                &&& map.wf()
                &&& table_is_covered(map.table())
                &&& map.home() == self.home()
                &&& map.key() is None
                &&& table_entries(map.table()) == no_entries()
            },
            r matches Err(error) ==> is_runtime_failure(error),
    {
        self.serialize_map(Some(len))
    }

    /// A struct variant starts as a struct does, and keeps the variant's
    /// name for the end.
    pub fn serialize_struct_variant(
        self,
        _name: &'static str,
        _variant_index: u32,
        variant: &'static str,
        _len: usize,
    ) -> (r: Result<StructVariantSerializer<'lua>, Error>)
        ensures
            r matches Ok(fields) ==> {
                &&& fields.wf()
                &&& table_is_covered(fields.table())
                &&& fields.home() == self.home()
                &&& fields.name() == variant@
                &&& table_entries(fields.table()) == no_entries()
            },
            r matches Err(error) ==> is_runtime_failure(error),
    {
        let table = lift(new_table(self.lua))?;
        Ok(StructVariantSerializer { lua: self.lua, table, name: variant.to_owned() })
    }
}

impl<'lua> SeqSerializer<'lua> {
    /// The runtime of the builder.
    pub closed spec fn home(self) -> int {
        lua_home(*self.lua)
    }

    /// The table under construction.
    pub closed spec fn table(self) -> mlua::Table<'lua> {
        self.table.handle()
    }

    /// The key that the next element goes under.
    pub closed spec fn index(self) -> usize {
        self.index
    }

    /// The index that the next element goes under.
    pub fn next_index(&self) -> (index: usize)
        ensures
            index == self.index(),
    {
        self.index
    }

    /// The table is the builder's own: see `is_fresh`.
    pub open spec fn wf(self) -> bool {
        is_fresh(self.table(), self.home())
    }

    /// Stores `value`, an element already converted, under the next index.
    pub fn serialize_element(&mut self, value: mlua::Value<'lua>) -> (r: Result<(), Error>)
        requires
            old(self).wf(),
            old(self).index() < usize::MAX,
            at_home(value, old(self).home()),
        ensures
            final(self).wf(),
            table_is_covered(old(self).table()) ==> table_is_covered(final(self).table()),
            final(self).home() == old(self).home(),
            r is Ok ==> final(self).index() == old(self).index() + 1,
            r is Err ==> final(self).index() == old(self).index(),
            r is Ok ==> table_entries(final(self).table()) == put(
                table_entries(old(self).table()),
                index_key(old(self).index()),
                value,
            ),
            r matches Err(error) ==> is_runtime_failure(error),
    {
        set_index(self.lua, &mut self.table, self.index, value)?;
        self.index += 1;
        Ok(())
    }

    /// Gives up the table as a value.
    pub fn end(self) -> (r: Result<mlua::Value<'lua>, Error>)
        requires
            self.wf(),
        ensures
            r is Ok,
            kind_of(r->Ok_0) == Kind::Table(self.table()),
            at_home(r->Ok_0, self.home()),
    {
        Ok(from_table(self.table))
    }

    /// A field of a tuple struct is an element of a sequence.
    pub fn serialize_field(&mut self, value: mlua::Value<'lua>) -> (r: Result<(), Error>)
        requires
            old(self).wf(),
            old(self).index() < usize::MAX,
            at_home(value, old(self).home()),
        ensures
            final(self).wf(),
            table_is_covered(old(self).table()) ==> table_is_covered(final(self).table()),
            final(self).home() == old(self).home(),
            r is Ok ==> final(self).index() == old(self).index() + 1,
            r is Err ==> final(self).index() == old(self).index(),
            r is Ok ==> table_entries(final(self).table()) == put(
                table_entries(old(self).table()),
                index_key(old(self).index()),
                value,
            ),
            r matches Err(error) ==> is_runtime_failure(error),
    {
        self.serialize_element(value)
    }
}

impl<'lua> TupleVariantSerializer<'lua> {
    /// The runtime of the builder.
    pub closed spec fn home(self) -> int {
        lua_home(*self.lua)
    }

    /// The table of the fields.
    pub closed spec fn table(self) -> mlua::Table<'lua> {
        self.table.handle()
    }

    /// The key that the next field goes under.
    pub closed spec fn index(self) -> usize {
        self.index
    }

    /// The index that the next field goes under.
    pub fn next_index(&self) -> (index: usize)
        ensures
            index == self.index(),
    {
        self.index
    }

    /// The variant's name.
    pub closed spec fn name(self) -> Seq<char> {
        self.name@
    }

    /// The table is the builder's own: see `is_fresh`.
    pub open spec fn wf(self) -> bool {
        is_fresh(self.table(), self.home())
    }

    /// Stores `value`, a field already converted, under the next index.
    pub fn serialize_field(&mut self, value: mlua::Value<'lua>) -> (r: Result<(), Error>)
        requires
            old(self).wf(),
            old(self).index() < usize::MAX,
            at_home(value, old(self).home()),
        ensures
            final(self).wf(),
            table_is_covered(old(self).table()) ==> table_is_covered(final(self).table()),
            final(self).home() == old(self).home(),
            final(self).name() == old(self).name(),
            r is Ok ==> final(self).index() == old(self).index() + 1,
            r is Err ==> final(self).index() == old(self).index(),
            r is Ok ==> table_entries(final(self).table()) == put(
                table_entries(old(self).table()),
                index_key(old(self).index()),
                value,
            ),
            r matches Err(error) ==> is_runtime_failure(error),
    {
        set_index(self.lua, &mut self.table, self.index, value)?;
        self.index += 1;
        Ok(())
    }

    /// Puts the table of the fields under the variant's name in a new table
    /// and gives that one up.
    pub fn end(self) -> (r: Result<mlua::Value<'lua>, Error>)
        requires
            self.wf(),
        ensures
            r matches Ok(value) ==> is_variant_of(value, self.name(), self.table()) && at_home(
                value,
                self.home(),
            ),
            r matches Err(error) ==> is_runtime_failure(error),
    {
        wrap_variant(self.lua, self.name.as_str(), self.table)
    }
}

impl<'lua> MapSerializer<'lua> {
    /// The runtime of the builder.
    pub closed spec fn home(self) -> int {
        lua_home(*self.lua)
    }

    /// The table under construction.
    pub closed spec fn table(self) -> mlua::Table<'lua> {
        self.table.handle()
    }

    /// The key that waits for its value, if one does.
    pub closed spec fn key(self) -> Option<mlua::Value<'lua>> {
        self.key
    }

    /// Tells whether a key waits for its value.
    pub fn key_waits(&self) -> (waits: bool)
        ensures
            waits == self.key() is Some,
    {
        self.key.is_some()
    }

    /// The table is the builder's own: see `is_fresh`.
    pub open spec fn wf(self) -> bool {
        is_fresh(self.table(), self.home())
    }

    /// Keeps `key`, already converted, for the value that follows. A key
    /// that was waiting is dropped.
    pub fn serialize_key(&mut self, key: mlua::Value<'lua>) -> (r: Result<(), Error>)
        ensures
            r is Ok,
            final(self).key() == Some(key),
            final(self).table() == old(self).table(),
            final(self).home() == old(self).home(),
    {
        self.key = Some(key);
        Ok(())
    }

    /// Stores `value`, already converted, under the key that waits, which
    /// is then used up. The key may be any value that the runtime takes for
    /// one: `key_of` says where the runtime files the value.
    pub fn serialize_value(&mut self, value: mlua::Value<'lua>) -> (r: Result<(), Error>)
        requires
            old(self).wf(),
            old(self).key() matches Some(key) && is_key(kind_of(key)) && at_home(
                key,
                old(self).home(),
            ),
            at_home(value, old(self).home()),
        ensures
            final(self).wf(),
            table_is_covered(old(self).table()) && key_of(old(self).key()->Some_0)
                is Some ==> table_is_covered(final(self).table()),
            final(self).home() == old(self).home(),
            final(self).key() is None,
            r is Ok ==> (key_of(old(self).key()->Some_0) matches Some(k)
                ==> table_entries(final(self).table()) == put(
                table_entries(old(self).table()),
                k,
                value,
            )),
            r matches Err(error) ==> is_runtime_failure(error),
    {
        let key = self.key.take().unwrap();
        lift(table_set(&mut self.table, key, value))
    }

    /// Stores `value` under `key`, both already converted. The key may be
    /// any value that the runtime takes for one. A key that waits for its
    /// value goes on waiting.
    pub fn serialize_entry(&mut self, key: mlua::Value<'lua>, value: mlua::Value<'lua>) -> (r:
        Result<(), Error>)
        requires
            old(self).wf(),
            is_key(kind_of(key)),
            at_home(key, old(self).home()),
            at_home(value, old(self).home()),
        ensures
            final(self).wf(),
            table_is_covered(old(self).table()) && key_of(key) is Some
                ==> table_is_covered(final(self).table()),
            final(self).home() == old(self).home(),
            final(self).key() == old(self).key(),
            r is Ok ==> (key_of(key) matches Some(k) ==> table_entries(
                final(self).table(),
            ) == put(table_entries(old(self).table()), k, value)),
            r matches Err(error) ==> is_runtime_failure(error),
    {
        lift(table_set(&mut self.table, key, value))
    }

    /// Gives up the table as a value.
    pub fn end(self) -> (r: Result<mlua::Value<'lua>, Error>)
        requires
            self.wf(),
        ensures
            r is Ok,
            kind_of(r->Ok_0) == Kind::Table(self.table()),
            at_home(r->Ok_0, self.home()),
    {
        Ok(from_table(self.table))
    }

    /// Stores `value`, a field of a struct already converted, under the
    /// field's name.
    pub fn serialize_field(&mut self, key: &'static str, value: mlua::Value<'lua>) -> (r: Result<
        (),
        Error,
    >)
        requires
            old(self).wf(),
            at_home(value, old(self).home()),
        ensures
            final(self).wf(),
            table_is_covered(old(self).table()) ==> table_is_covered(final(self).table()),
            final(self).home() == old(self).home(),
            final(self).key() == old(self).key(),
            r is Ok ==> table_entries(final(self).table()) == put(
                table_entries(old(self).table()),
                Key::Name(key@),
                value,
            ),
            r matches Err(error) ==> is_runtime_failure(error),
    {
        let key = Serializer { lua: self.lua }.serialize_str(key)?;
        self.serialize_entry(key, value)
    }
}

impl<'lua> StructVariantSerializer<'lua> {
    /// The runtime of the builder.
    pub closed spec fn home(self) -> int {
        lua_home(*self.lua)
    }

    /// The table of the fields.
    pub closed spec fn table(self) -> mlua::Table<'lua> {
        self.table.handle()
    }

    /// The variant's name.
    pub closed spec fn name(self) -> Seq<char> {
        self.name@
    }

    /// The table is the builder's own: see `is_fresh`.
    pub open spec fn wf(self) -> bool {
        is_fresh(self.table(), self.home())
    }

    /// Stores `value`, a field already converted, under the field's name.
    pub fn serialize_field(&mut self, key: &'static str, value: mlua::Value<'lua>) -> (r: Result<
        (),
        Error,
    >)
        requires
            old(self).wf(),
            at_home(value, old(self).home()),
        ensures
            final(self).wf(),
            table_is_covered(old(self).table()) ==> table_is_covered(final(self).table()),
            final(self).home() == old(self).home(),
            final(self).name() == old(self).name(),
            r is Ok ==> table_entries(final(self).table()) == put(
                table_entries(old(self).table()),
                Key::Name(key@),
                value,
            ),
            r matches Err(error) ==> is_runtime_failure(error),
    {
        set_name(self.lua, &mut self.table, key, value)
    }

    /// Puts the table of the fields under the variant's name in a new table
    /// and gives that one up.
    pub fn end(self) -> (r: Result<mlua::Value<'lua>, Error>)
        requires
            self.wf(),
        ensures
            r matches Ok(value) ==> is_variant_of(value, self.name(), self.table()) && at_home(
                value,
                self.home(),
            ),
            r matches Err(error) ==> is_runtime_failure(error),
    {
        wrap_variant(self.lua, self.name.as_str(), self.table)
    }
}

} // verus!
