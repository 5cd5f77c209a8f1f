//! The decoder: from runtime values to the data model.
//!
//! A `Deserializer` holds one runtime value and answers one question about
//! it: what a visitor is to be shown. For a table the answer is a cursor,
//! which hands out the elements or the pairs one by one, each as a
//! `Deserializer` of its own, and which must be empty when the visitor is
//! done: `end` reports what was left over.
//!
//! A table is read as a sequence where its keys, as the runtime enumerates
//! them, are 1, 2, ... in turn, and as a map otherwise. The empty table is a
//! sequence.

use crate::error::{
    fails_as, fails_with, invalid_length_text, invalid_type_text, invalid_value_text, lift, Error,
    Unexpected,
};
use crate::lua::{
    count_pairs, elements, elements_left, elements_size_hint, has_no_metatable, inspect, is_cover,
    is_named_cover, is_nil, is_sequence_of, kind_of, named_pairs, next_element, next_named_pair,
    next_pair, pairs, pairs_left, pairs_size_hint, string_text, table_entries, table_is_covered,
    table_is_plain, table_len, table_length, table_named_pairs, table_pairs, table_sequence,
    to_str, Elements, Kind, Pairs,
};
use vstd::prelude::*;

verus! {

/// One runtime value, to be decoded.
pub struct Deserializer<'lua> {
    value: mlua::Value<'lua>,
}

/// A cursor over the elements of a sequence.
pub struct SeqDeserializer<'lua> {
    items: Elements<'lua>,
    len: usize,
}

/// A cursor over the pairs of a map. The key and the value of a pair are
/// asked for in two steps; between them the value waits here.
pub struct MapDeserializer<'lua> {
    pairs: Pairs<'lua>,
    value: Option<mlua::Value<'lua>>,
    len: usize,
}

/// An enum variant as it was found: its name, and its payload where the
/// variant was written as a table.
pub struct EnumDeserializer<'lua> {
    variant: String,
    value: Option<mlua::Value<'lua>>,
}

/// The payload of an enum variant, to be read as the kind of variant that
/// the target type has under that name.
pub struct VariantDeserializer<'lua> {
    value: Option<mlua::Value<'lua>>,
}

/// What a visitor is to be shown of a value that describes itself.
pub enum Visit<'lua> {
    Unit,
    Bool(bool),
    I64(i64),
    /// A float, by its bit pattern.
    F64(u64),
    Str(String),
    Sequence(SeqDeserializer<'lua>),
    Pairs(MapDeserializer<'lua>),
}

/// True when pair `i` was read without failure and its key is the integer
/// `i + 1`.
pub open spec fn key_fits<'lua>(
    pairs: Seq<Result<(mlua::Value<'lua>, mlua::Value<'lua>), mlua::Error>>,
    i: int,
) -> bool {
    &&& pairs[i] matches Ok(pair)
    &&& kind_of(pair.0) matches Kind::Integer(key)
    &&& key == i + 1
}

/// True when the first `n` pairs have the keys 1, 2, ..., `n` in turn.
pub open spec fn keys_count_up<'lua>(
    pairs: Seq<Result<(mlua::Value<'lua>, mlua::Value<'lua>), mlua::Error>>,
    n: int,
) -> bool {
    forall|i: int| 0 <= i < n ==> key_fits(pairs, i)
}

/// True when `found` is the cursor over the sequence of `table`, as far as
/// the table decides it: a table without metatable decides all of it.
pub open spec fn is_seq_cursor<'lua>(
    found: SeqDeserializer<'lua>,
    table: mlua::Table<'lua>,
) -> bool {
    table_is_plain(table) ==> {
        &&& found.remaining() == table_sequence(table)
        &&& is_sequence_of(found.remaining(), table_entries(table))
        &&& found.len() == table_length(table) as usize
    }
}

/// True when `found` is the cursor over the pairs of `table`, as far as the
/// table decides it: a table without metatable decides all of it. No value
/// waits in a new cursor.
pub open spec fn is_map_cursor<'lua>(
    found: MapDeserializer<'lua>,
    table: mlua::Table<'lua>,
) -> bool {
    &&& found.value() is None
    &&& table_is_plain(table) ==> {
        &&& found.remaining() == table_pairs(table)
        &&& found.len() == table_length(table) as usize
    }
}

/// True when `r` is what a sequence decode owes for a value of kind `kind`:
/// a cursor for a table, and for anything else the error "invalid value
/// type". For a table with a metatable the length operator may fail.
pub open spec fn is_seq_outcome<'lua>(
    kind: Kind<'lua>,
    r: Result<SeqDeserializer<'lua>, Error>,
) -> bool {
    match kind {
        Kind::Table(table) => {
            &&& table_is_plain(table) ==> r is Ok
            &&& r matches Ok(found) ==> is_seq_cursor(found, table)
        },
        _ => fails_with(r, "invalid value type"@),
    }
}

/// True when `r` shows `table` as a sequence: the cursor over its elements.
/// For a table with a metatable the length operator may fail.
pub open spec fn shows_sequence<'lua>(
    table: mlua::Table<'lua>,
    r: Result<Visit<'lua>, Error>,
) -> bool {
    &&& table_is_plain(table) ==> r is Ok
    &&& r matches Ok(visit) ==> visit matches Visit::Sequence(found) && is_seq_cursor(found, table)
}

/// True when `r` shows `table` as a map: the cursor over all its pairs.
/// For a table with a metatable the length operator may fail.
pub open spec fn shows_map<'lua>(table: mlua::Table<'lua>, r: Result<Visit<'lua>, Error>) -> bool {
    &&& table_is_plain(table) ==> r is Ok
    &&& r matches Ok(visit) ==> visit matches Visit::Pairs(found) && is_map_cursor(found, table)
}

/// True when `r`, where it is no error, shows `table` as a sequence or as a
/// map. This much holds of every table.
pub open spec fn shows_table<'lua>(table: mlua::Table<'lua>, r: Result<Visit<'lua>, Error>) -> bool {
    r matches Ok(visit) ==> match visit {
        Visit::Sequence(found) => is_seq_cursor(found, table),
        Visit::Pairs(found) => is_map_cursor(found, table),
        _ => false,
    }
}

/// True when `r` is what `is_seq` owes for the pairs of a table: `Ok(true)`
/// where all keys count up from 1, and where they do not, from the first
/// pair that does not fit: the failure if that pair could not be read, and
/// `Ok(false)` if it could.
pub open spec fn classifies<'lua>(
    pairs: Seq<Result<(mlua::Value<'lua>, mlua::Value<'lua>), mlua::Error>>,
    r: Result<bool, Error>,
) -> bool {
    &&& (r matches Ok(true)) <==> keys_count_up(pairs, pairs.len() as int)
    &&& forall|i: int|
        0 <= i < pairs.len() && keys_count_up(pairs, i) && !key_fits(pairs, i) ==> (
        match #[trigger] pairs[i] {
            Err(err) => fails_as(r, err),
            Ok(_) => r matches Ok(false),
        })
}

/// True when `r` is what a self-describing decode owes for the table
/// `table`. The pairs decide between sequence and map: a failure among the
/// pairs that are looked at is the outcome; else the table is a sequence
/// where all keys count up from 1, and a map from the first key that does
/// not. A table without metatable decides its pairs. A table with a
/// metatable may change between one look and the next, so of such a table
/// only this is owed: that it is shown as a sequence or as a map.
pub open spec fn is_table_outcome<'lua>(
    table: mlua::Table<'lua>,
    r: Result<Visit<'lua>, Error>,
) -> bool {
    let pairs = table_pairs(table);
    &&& shows_table(table, r)
    &&& table_is_plain(table) ==> {
        &&& keys_count_up(pairs, pairs.len() as int) ==> shows_sequence(table, r)
        &&& forall|i: int|
            0 <= i < pairs.len() && keys_count_up(pairs, i) && !key_fits(pairs, i) ==> (
            match #[trigger] pairs[i] {
                Err(err) => fails_as(r, err),
                Ok(_) => shows_map(table, r),
            })
    }
}

/// True when `r` is what the decode of a struct variant owes for a payload of
/// kind `kind`. The payload must be a map: a table whose keys do not all
/// count up from 1 is shown as the cursor over all its pairs. A table
/// whose keys do count up is a sequence and no map, and is the error
/// "invalid value type", as any payload is that is no table. Only the empty
/// table, which is a sequence as well as a map, is shown as it is shown
/// elsewhere: as an empty sequence. A failure among the pairs that are
/// looked at is the outcome. A table without metatable decides its pairs; of
/// a table with a metatable only this is owed: that it is shown, if at all,
/// as a sequence or as a map.
pub open spec fn is_struct_outcome<'lua>(kind: Kind<'lua>, r: Result<Visit<'lua>, Error>) -> bool {
    match kind {
        Kind::Table(table) => {
            let pairs = table_pairs(table);
            &&& shows_table(table, r)
            &&& table_is_plain(table) ==> {
                &&& pairs.len() == 0 ==> shows_sequence(table, r)
                &&& pairs.len() > 0 && keys_count_up(pairs, pairs.len() as int) ==> fails_with(
                    r,
                    "invalid value type"@,
                )
                &&& forall|i: int|
                    0 <= i < pairs.len() && keys_count_up(pairs, i) && !key_fits(pairs, i) ==> (
                    match #[trigger] pairs[i] {
                        Err(err) => fails_as(r, err),
                        Ok(_) => shows_map(table, r),
                    })
            }
        },
        _ => fails_with(r, "invalid value type"@),
    }
}

/// True when `r` is what a self-describing decode owes for a value of kind
/// `kind`: nil is the unit, a boolean, an integer, a float and a string are
/// themselves, a table is a sequence or a map as its keys decide, and any
/// other value is the error "invalid value type".
pub open spec fn is_any_outcome<'lua>(kind: Kind<'lua>, r: Result<Visit<'lua>, Error>) -> bool {
    match kind {
        Kind::Nil => r matches Ok(Visit::Unit),
        Kind::Boolean(v) => r matches Ok(Visit::Bool(b)) && b == v,
        Kind::Integer(v) => r matches Ok(Visit::I64(i)) && i == v,
        Kind::Number(v) => r matches Ok(Visit::F64(bits)) && bits == v,
        Kind::String(string) => match string_text(string) {
            Ok(text) => r matches Ok(Visit::Str(found)) && found == text,
            Err(err) => fails_as(r, err),
        },
        Kind::Table(table) => is_table_outcome(table, r),
        _ => fails_with(r, "invalid value type"@),
    }
}

/// True when the pairs of `table` are the table's entries. It holds of
/// every table without metatable none of whose keys is an error of the
/// runtime; a decode that walks the pairs reports it for the laws that rest
/// on it.
pub open spec fn walks_entries(table: mlua::Table<'_>) -> bool {
    table_is_plain(table) && table_is_covered(table) ==> is_cover(
        table_pairs(table),
        table_entries(table),
    )
}

/// True when the pairs of a table of kind `kind`, read with their keys as
/// strings, are the table's entries. It holds of every table without
/// metatable none of whose keys is an error of the runtime; an enum decode
/// reports it for the laws that rest on it.
pub open spec fn reads_entries(kind: Kind<'_>) -> bool {
    kind matches Kind::Table(table) ==> (table_is_plain(table) && table_is_covered(table)
        ==> is_named_cover(table_named_pairs(table), table_entries(table)))
}

/// The message for a table that is no enum variant: it holds no pair, or
/// more than one.
pub open spec fn single_key_text() -> Seq<char> {
    invalid_value_text(Unexpected::Table, "map with a single key"@)
}

/// The message for elements or pairs that a visitor left behind in a table
/// of the length `len`.
pub open spec fn leftover_text(len: usize) -> Seq<char> {
    invalid_length_text(len, "fewer elements in array"@)
}

/// True when `r` is what closing a cursor owes that was made for a table of
/// the length `len` and still holds `left` elements or pairs: what is left
/// over is an error, and nothing else is.
pub open spec fn is_end_outcome(left: nat, len: usize, r: Result<(), Error>) -> bool {
    if left == 0 {
        r is Ok
    } else {
        fails_with(r, leftover_text(len))
    }
}

/// True when `r` is what an enum decode owes for a table with the pairs
/// `pairs`, read with their keys as strings. The table must hold exactly one
/// pair: its key is the variant and its value the payload. A first pair
/// that could not be read is the failure.
pub open spec fn is_variant_from<'lua>(
    pairs: Seq<Result<(String, mlua::Value<'lua>), mlua::Error>>,
    r: Result<EnumDeserializer<'lua>, Error>,
) -> bool {
    if pairs.len() == 0 {
        fails_with(r, single_key_text())
    } else {
        match pairs[0] {
            Err(err) => fails_as(r, err),
            Ok(pair) => if pairs.len() == 1 {
                &&& r matches Ok(found)
                &&& found.variant() == pair.0@
                &&& found.value() == Some(pair.1)
            } else {
                fails_with(r, single_key_text())
            },
        }
    }
}

/// True when `r` is what an enum decode owes for a value of kind `kind`.
/// A string is a variant without payload. A table is a variant with
/// payload: see `is_variant_from`. A table without metatable decides its
/// pairs; of a table with a metatable only this is owed: that a variant
/// found in it has a payload. Any other value is the error "bad enum
/// value".
pub open spec fn is_enum_outcome<'lua>(
    kind: Kind<'lua>,
    r: Result<EnumDeserializer<'lua>, Error>,
) -> bool {
    match kind {
        Kind::Table(table) => {
            &&& r matches Ok(found) ==> found.value() is Some
            &&& table_is_plain(table) ==> is_variant_from(table_named_pairs(table), r)
        },
        Kind::String(string) => match string_text(string) {
            Ok(text) => {
                &&& r matches Ok(found)
                &&& found.variant() == text@
                &&& found.value() is None
            },
            Err(err) => fails_as(r, err),
        },
        _ => fails_with(r, "bad enum value"@),
    }
}

/// The keys stop counting up at one place at most: where pair `i` is the
/// first that does not fit, no other pair is, and the keys do not all count
/// up.
proof fn stop_is_unique<'lua>(
    pairs: Seq<Result<(mlua::Value<'lua>, mlua::Value<'lua>), mlua::Error>>,
    i: int,
)
    requires
        0 <= i < pairs.len(),
        keys_count_up(pairs, i),
        !key_fits(pairs, i),
    ensures
        !keys_count_up(pairs, pairs.len() as int),
        forall|j: int|
            0 <= j < pairs.len() && keys_count_up(pairs, j) && !key_fits(pairs, j) ==> j == i,
{
    assert forall|j: int|
        0 <= j < pairs.len() && keys_count_up(pairs, j) && !key_fits(pairs, j) implies j == i by {
        if i < j {
            assert(key_fits(pairs, i));
        }
        if j < i {
            assert(key_fits(pairs, j));
        }
    }
}

/// Decides whether a table is a sequence: its keys, in the order in which
/// the runtime enumerates its pairs, must be the integers 1, 2, ... in turn.
/// The first key that is not makes the table a map, and a pair that cannot
/// be read before that is the error. The empty table is a sequence.
pub fn is_seq<'lua>(val: &mlua::Table<'lua>) -> (r: Result<bool, Error>)
    ensures
        table_is_plain(*val) ==> classifies(table_pairs(*val), r),
        walks_entries(*val),
{
    let mut iter = pairs(val);
    let ghost all = pairs_left(iter);
    let ghost mut i: int = 0;
    // The key that fits next. There is none once the keys have counted up to
    // the largest integer.
    let mut next_key: Option<i64> = Some(1);
    loop
        invariant
            table_is_plain(*val) ==> all == table_pairs(*val),
            walks_entries(*val),
            0 <= i <= all.len(),
            next_key == (if i < i64::MAX {
                Some((i + 1) as i64)
            } else {
                None
            }),
            pairs_left(iter) == all.skip(i),
            keys_count_up(all, i),
        decreases pairs_left(iter).len(),
    {
        match next_pair(&mut iter) {
            None => {
                return Ok(true);
            },
            Some(pair) => {
                assert(pair == all[i]);
                assert(pairs_left(iter) == all.skip(i + 1));
                let fits = match pair {
                    Ok((key, _)) => match (inspect(key), next_key) {
                        (Kind::Integer(k), Some(expected)) => k == expected,
                        _ => false,
                    },
                    Err(err) => {
                        proof {
                            stop_is_unique(all, i);
                        }
                        return lift(Err(err));
                    },
                };
                if !fits {
                    proof {
                        stop_is_unique(all, i);
                    }
                    return Ok(false);
                }
            },
        }
        assert(key_fits(all, i));
        next_key = match next_key {
            Some(expected) => expected.checked_add(1),
            None => None,
        };
        proof {
            i = i + 1;
        }
    }
}

/// Tells whether a table has no metatable. Such a table is read and written
/// without any metamethod, so that its contents decide what a decode finds.
pub fn is_plain<'lua>(val: &mlua::Table<'lua>) -> (r: bool)
    ensures
        r == table_is_plain(*val),
{
    has_no_metatable(val)
}

/// Shows `table` as a sequence.
fn show_sequence<'lua>(table: mlua::Table<'lua>) -> (r: Result<Visit<'lua>, Error>)
    ensures
        shows_sequence(table, r),
{
    let len: usize = lift(table_len(&table))? as usize;
    Ok(Visit::Sequence(SeqDeserializer { items: elements(table), len }))
}

/// Shows `table` as a map.
fn show_map<'lua>(table: mlua::Table<'lua>) -> (r: Result<Visit<'lua>, Error>)
    ensures
        shows_map(table, r),
{
    let len: usize = lift(table_len(&table))? as usize;
    Ok(Visit::Pairs(MapDeserializer { pairs: pairs(&table), value: None, len }))
}

impl<'lua> Deserializer<'lua> {
    /// The value to be decoded.
    pub closed spec fn value(self) -> mlua::Value<'lua> {
        self.value
    }

    /// A decoder for `value`.
    pub fn from_value(value: mlua::Value<'lua>) -> (deserializer: Self)
        ensures
            deserializer.value() == value,
    {
        Deserializer { value }
    }

    /// Decodes a value by what it is: see `is_any_outcome`.
    pub fn deserialize_any(self) -> (r: Result<Visit<'lua>, Error>)
        ensures
            is_any_outcome(kind_of(self.value()), r),
            kind_of(self.value()) matches Kind::Table(table) ==> walks_entries(table),
    {
        match inspect(self.value) {
            Kind::Nil => Ok(Visit::Unit),
            Kind::Boolean(v) => Ok(Visit::Bool(v)),
            Kind::Integer(v) => Ok(Visit::I64(v)),
            Kind::Number(v) => Ok(Visit::F64(v)),
            Kind::String(v) => Ok(Visit::Str(lift(to_str(&v))?)),
            Kind::Table(v) => {
                if is_seq(&v)? {
                    show_sequence(v)
                } else {
                    show_map(v)
                }
            },
            _ => Err(Error::custom("invalid value type")),
        }
    }

    /// Decodes an optional value: nil is the absent value, and anything else
    /// is the present value itself, to be decoded from the same place.
    pub fn deserialize_option(self) -> (r: Option<Deserializer<'lua>>)
        ensures
            r is None <==> kind_of(self.value()) is Nil,
            r matches Some(present) ==> present == self,
    {
        if is_nil(&self.value) {
            None
        } else {
            Some(self)
        }
    }

    /// Decodes an enum variant as it was written: see `is_enum_outcome`.
    pub fn deserialize_enum(self, _name: &str, _variants: &'static [&'static str]) -> (r: Result<
        EnumDeserializer<'lua>,
        Error,
    >)
        ensures
            is_enum_outcome(kind_of(self.value()), r),
            reads_entries(kind_of(self.value())),
    {
        match inspect(self.value) {
            Kind::Table(value) => {
                let mut iter = named_pairs(value);
                let (variant, value) = match next_named_pair(&mut iter) {
                    Some(v) => lift(v)?,
                    None => {
                        return Err(Error::invalid_value(Unexpected::Table, "map with a single key"));
                    },
                };
                if next_named_pair(&mut iter).is_some() {
                    return Err(Error::invalid_value(Unexpected::Table, "map with a single key"));
                }
                Ok(EnumDeserializer { variant, value: Some(value) })
            },
            Kind::String(variant) => {
                let variant = lift(to_str(&variant))?;
                Ok(EnumDeserializer { variant, value: None })
            },
            _ => Err(Error::custom("bad enum value")),
        }
    }

    /// Decodes a sequence: a cursor over the elements of a table under 1, 2,
    /// ... up to the first index that is absent. Whether the table would
    /// pass for a sequence by `is_seq` is not asked. Any value but a table is
    /// the error "invalid value type".
    pub fn deserialize_seq(self) -> (r: Result<SeqDeserializer<'lua>, Error>)
        ensures
            is_seq_outcome(kind_of(self.value()), r),
    {
        match inspect(self.value) {
            Kind::Table(v) => {
                let len: usize = lift(table_len(&v))? as usize;
                Ok(SeqDeserializer { items: elements(v), len })
            },
            _ => Err(Error::custom("invalid value type")),
        }
    }

    /// A tuple is decoded as a sequence, whatever its length.
    pub fn deserialize_tuple(self, _len: usize) -> (r: Result<SeqDeserializer<'lua>, Error>)
        ensures
            is_seq_outcome(kind_of(self.value()), r),
    {
        self.deserialize_seq()
    }

    /// A tuple struct is decoded as a sequence, whatever its name and length.
    pub fn deserialize_tuple_struct(self, _name: &'static str, _len: usize) -> (r: Result<
        SeqDeserializer<'lua>,
        Error,
    >)
        ensures
            is_seq_outcome(kind_of(self.value()), r),
    {
        self.deserialize_seq()
    }
}

impl<'lua> SeqDeserializer<'lua> {
    /// What is still to be handed out, in order. An element that the runtime
    /// failed to read stands here as the failure.
    pub closed spec fn remaining(self) -> Seq<Result<mlua::Value<'lua>, mlua::Error>> {
        elements_left(self.items)
    }

    /// The length of the table as the runtime reported it when the cursor
    /// was made. It serves the message of `end` and nothing else.
    pub closed spec fn len(self) -> usize {
        self.len
    }

    /// Hands out the next element, or `None` when there is none left. An
    /// element that could not be read is the error, and is used up by that.
    pub fn next_element_seed(&mut self) -> (r: Result<Option<Deserializer<'lua>>, Error>)
        ensures
            final(self).len() == old(self).len(),
            old(self).remaining().len() == 0 ==> {
                &&& r matches Ok(None)
                &&& final(self).remaining() == old(self).remaining()
            },
            old(self).remaining().len() > 0 ==> {
                &&& final(self).remaining() == old(self).remaining().drop_first()
                &&& match old(self).remaining()[0] {
                    Ok(value) => r matches Ok(Some(element)) && element.value() == value,
                    Err(err) => fails_as(r, err),
                }
            },
    {
        match next_element(&mut self.items) {
            Some(value) => {
                let value = lift(value)?;
                Ok(Some(Deserializer { value }))
            },
            None => Ok(None),
        }
    }

    /// How many elements are left, if the iterator knows: the number where
    /// its two bounds agree. The runtime's iterator knows no bounds, so the
    /// answer is `None`.
    pub fn size_hint(&self) -> (r: Option<usize>)
        ensures
            r is None,
    {
        match elements_size_hint(&self.items) {
            (lower, Some(upper)) if lower == upper => Some(upper),
            _ => None,
        }
    }

    /// Closes the cursor after the visitor is done. Elements that the
    /// visitor did not take are an error: the target asked for fewer than
    /// the table holds. One more element is asked for, which tells as much
    /// as counting what is left.
    pub fn end(self) -> (r: Result<(), Error>)
        ensures
            is_end_outcome(self.remaining().len(), self.len(), r),
    {
        let mut items = self.items;
        match next_element(&mut items) {
            None => Ok(()),
            Some(_) => Err(Error::invalid_length(self.len, "fewer elements in array")),
        }
    }
}

impl<'lua> MapDeserializer<'lua> {
    /// The pairs that are still to be handed out, in order. A pair that the
    /// runtime failed to read stands here as the failure.
    pub closed spec fn remaining(self) -> Seq<
        Result<(mlua::Value<'lua>, mlua::Value<'lua>), mlua::Error>,
    > {
        pairs_left(self.pairs)
    }

    /// The value of the pair whose key was handed out last, while it waits
    /// to be asked for.
    pub closed spec fn value(self) -> Option<mlua::Value<'lua>> {
        self.value
    }

    /// The length of the table as the runtime reported it when the cursor
    /// was made. It serves the message of `end` and nothing else.
    pub closed spec fn len(self) -> usize {
        self.len
    }

    /// Hands out the key of the next pair and keeps its value waiting, or
    /// answers `None` when no pair is left. A pair that could not be read is
    /// the error, and is used up by that.
    pub fn next_key_seed(&mut self) -> (r: Result<Option<Deserializer<'lua>>, Error>)
        ensures
            final(self).len() == old(self).len(),
            old(self).remaining().len() == 0 ==> {
                &&& r matches Ok(None)
                &&& final(self).remaining() == old(self).remaining()
                &&& final(self).value() == old(self).value()
            },
            old(self).remaining().len() > 0 ==> {
                &&& final(self).remaining() == old(self).remaining().drop_first()
                &&& match old(self).remaining()[0] {
                    Ok(pair) => {
                        &&& r matches Ok(Some(key))
                        &&& key.value() == pair.0
                        &&& final(self).value() == Some(pair.1)
                    },
                    Err(err) => {
                        &&& fails_as(r, err)
                        &&& final(self).value() == old(self).value()
                    },
                }
            },
    {
        match next_pair(&mut self.pairs) {
            Some(item) => {
                let (key, value) = lift(item)?;
                self.value = Some(value);
                let key_de = Deserializer { value: key };
                Ok(Some(key_de))
            },
            None => Ok(None),
        }
    }

    /// Hands out the value that waits. To ask for a value where none waits,
    /// before any key or twice for one key, is the error "value is missing".
    pub fn next_value_seed(&mut self) -> (r: Result<Deserializer<'lua>, Error>)
        ensures
            final(self).len() == old(self).len(),
            final(self).remaining() == old(self).remaining(),
            final(self).value() is None,
            match old(self).value() {
                Some(value) => r matches Ok(found) && found.value() == value,
                None => fails_with(r, "value is missing"@),
            },
    {
        match self.value.take() {
            Some(value) => Ok(Deserializer { value }),
            None => Err(Error::custom("value is missing")),
        }
    }

    /// How many pairs are left, if the iterator knows: the number where its
    /// two bounds agree. The runtime's iterator knows no bounds, so the
    /// answer is `None`.
    pub fn size_hint(&self) -> (r: Option<usize>)
        ensures
            r is None,
    {
        match pairs_size_hint(&self.pairs) {
            (lower, Some(upper)) if lower == upper => Some(upper),
            _ => None,
        }
    }

    /// Closes the cursor after the visitor is done. Pairs that the visitor
    /// did not take are an error, as elements of a sequence are.
    pub fn end(self) -> (r: Result<(), Error>)
        ensures
            is_end_outcome(self.remaining().len(), self.len(), r),
    {
        let remaining: usize = count_pairs(self.pairs);
        if remaining == 0 {
            Ok(())
        } else {
            Err(Error::invalid_length(self.len, "fewer elements in array"))
        }
    }
}

impl<'lua> EnumDeserializer<'lua> {
    /// The name of the variant.
    pub closed spec fn variant(self) -> Seq<char> {
        self.variant@
    }

    /// The payload, where the variant was written as a table.
    pub closed spec fn value(self) -> Option<mlua::Value<'lua>> {
        self.value
    }

    /// Parts the name from the payload: the name tells the target type
    /// which variant it is, and the payload is then read as that variant.
    pub fn variant_seed(self) -> (r: (String, VariantDeserializer<'lua>))
        ensures
            r.0@ == self.variant(),
            r.1.value() == self.value(),
    {
        let variant = self.variant;
        let variant_access = VariantDeserializer { value: self.value };
        (variant, variant_access)
    }
}

impl<'lua> VariantDeserializer<'lua> {
    /// The payload, where there is one.
    pub closed spec fn value(self) -> Option<mlua::Value<'lua>> {
        self.value
    }

    /// A unit variant must come without payload.
    pub fn unit_variant(self) -> (r: Result<(), Error>)
        ensures
            self.value() is None ==> r is Ok,
            self.value() is Some ==> fails_with(
                r,
                invalid_type_text(Unexpected::NewtypeVariant, "unit variant"@),
            ),
    {
        match self.value {
            Some(_) => Err(Error::invalid_type(Unexpected::NewtypeVariant, "unit variant")),
            None => Ok(()),
        }
    }

    /// A newtype variant must come with a payload, which is the inner value.
    pub fn newtype_variant_seed(self) -> (r: Result<Deserializer<'lua>, Error>)
        ensures
            match self.value() {
                Some(value) => r matches Ok(inner) && inner.value() == value,
                None => fails_with(
                    r,
                    invalid_type_text(Unexpected::UnitVariant, "newtype variant"@),
                ),
            },
    {
        match self.value {
            Some(value) => Ok(Deserializer { value }),
            None => Err(Error::invalid_type(Unexpected::UnitVariant, "newtype variant")),
        }
    }

    /// A tuple variant must come with a payload, which is read as a
    /// sequence.
    pub fn tuple_variant(self, _len: usize) -> (r: Result<SeqDeserializer<'lua>, Error>)
        ensures
            match self.value() {
                Some(value) => is_seq_outcome(kind_of(value), r),
                None => fails_with(
                    r,
                    invalid_type_text(Unexpected::UnitVariant, "tuple variant"@),
                ),
            },
    {
        match self.value {
            Some(value) => Deserializer { value }.deserialize_seq(),
            None => Err(Error::invalid_type(Unexpected::UnitVariant, "tuple variant")),
        }
    }

    /// A struct variant must come with a payload, which must be a map: see
    /// `is_struct_outcome`.
    pub fn struct_variant(self, _fields: &'static [&'static str]) -> (r: Result<
        Visit<'lua>,
        Error,
    >)
        ensures
            match self.value() {
                Some(value) => is_struct_outcome(kind_of(value), r),
                None => fails_with(
                    r,
                    invalid_type_text(Unexpected::UnitVariant, "struct variant"@),
                ),
            },
            self.value() matches Some(value) ==> (kind_of(value) matches Kind::Table(table)
                ==> walks_entries(table)),
    {
        match self.value {
            Some(value) => match inspect(value) {
                Kind::Table(v) => {
                    if is_seq(&v)? {
                        let mut first = pairs(&v);
                        match next_pair(&mut first) {
                            None => show_sequence(v),
                            Some(_) => {
                                assert(table_is_plain(v) ==> key_fits(table_pairs(v), 0));
                                Err(Error::custom("invalid value type"))
                            },
                        }
                    } else {
                        show_map(v)
                    }
                },
                _ => Err(Error::custom("invalid value type")),
            },
            None => Err(Error::invalid_type(Unexpected::UnitVariant, "struct variant")),
        }
    }
}

} // verus!
