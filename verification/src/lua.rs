//! The Lua runtime as the converters see it.
//!
//! Values and tables live in the runtime and are reached through the handles
//! of `mlua`. Verus cannot look inside a handle, so this module declares the
//! handle types, gives names to what the runtime holds behind them, and wraps
//! each call into `mlua` in a function whose contract is stated over those
//! names. None of the contracts in this module is proved: each repeats what
//! the source or the documentation of `mlua` says of the call it makes.

use vstd::prelude::*;

verus! {

/// `mlua::Lua`, the runtime itself.
#[verifier::external_type_specification]
#[verifier::external_body]
pub struct ExLua(mlua::Lua);

/// `mlua::Error`, a failure reported by the runtime.
#[verifier::external_type_specification]
#[verifier::external_body]
pub struct ExLuaError(mlua::prelude::LuaError);

/// `mlua::Value`, a handle to any runtime value.
#[verifier::external_type_specification]
#[verifier::external_body]
pub struct ExLuaValue<'lua>(mlua::Value<'lua>);

/// `mlua::Table`, a handle to a table.
#[verifier::external_type_specification]
#[verifier::external_body]
pub struct ExLuaTable<'lua>(mlua::Table<'lua>);

/// `mlua::String`, a handle to a string of bytes.
#[verifier::external_type_specification]
#[verifier::external_body]
pub struct ExLuaString<'lua>(mlua::String<'lua>);

/// `mlua::TableSequence`, the iterator over the elements of a table.
#[verifier::external_type_specification]
#[verifier::external_body]
#[verifier::reject_recursive_types(V)]
pub struct ExLuaTableSequence<'lua, V>(mlua::TableSequence<'lua, V>);

/// `mlua::TablePairs`, the iterator over the pairs of a table.
#[verifier::external_type_specification]
#[verifier::external_body]
#[verifier::reject_recursive_types(K)]
#[verifier::reject_recursive_types(V)]
pub struct ExLuaTablePairs<'lua, K, V>(mlua::TablePairs<'lua, K, V>);

/// The iterator over the elements of a table, each as it is.
pub type Elements<'lua> = mlua::TableSequence<'lua, mlua::Value<'lua>>;

/// The iterator over the pairs of a table, keys and values as they are.
pub type Pairs<'lua> = mlua::TablePairs<'lua, mlua::Value<'lua>, mlua::Value<'lua>>;

/// The iterator over the pairs of a table, each key as a Rust string.
pub type NamedPairs<'lua> = mlua::TablePairs<'lua, String, mlua::Value<'lua>>;

/// The variant of a runtime value, with what the variant carries.
///
/// A float is carried as its bit pattern. Functions, threads and userdata of
/// every sort carry no data that can be converted and are all `Other`. An
/// error of the runtime that travels as a value is `Failure`.
pub enum Kind<'lua> {
    Nil,
    Boolean(bool),
    Integer(i64),
    Number(u64),
    String(mlua::String<'lua>),
    Table(mlua::Table<'lua>),
    Other,
    Failure,
}

/// What a table files a value under. Two values that the runtime takes
/// for one key have one `Key`: a float that is equal to an integer is filed
/// under that integer, and a string that is valid UTF-8 under its text.
/// Tables, functions and the like are keys by what they are, and so is a
/// string that is no text.
pub enum Key<'lua> {
    Flag(bool),
    Index(int),
    Float(u64),
    Name(Seq<char>),
    Handle(mlua::Value<'lua>),
}

/// A table that this library made and has not given away. No other handle
/// leads to it, so what is stored through this one is all that changes it.
pub struct FreshTable<'lua> {
    table: mlua::Table<'lua>,
}

impl<'lua> FreshTable<'lua> {
    /// The handle to the table.
    pub closed spec fn handle(self) -> mlua::Table<'lua> {
        self.table
    }
}

/// The runtime that a handle leads into, told apart from every other runtime.
pub uninterp spec fn lua_home(lua: mlua::Lua) -> int;

/// The runtime that `table` lives in.
pub uninterp spec fn table_home(table: mlua::Table<'_>) -> int;

/// The runtime that `value` lives in, where `value` is a handle. Nil,
/// booleans and numbers are no handles and live in no runtime.
pub uninterp spec fn value_home(value: mlua::Value<'_>) -> Option<int>;

/// The variant of `value` and what it carries.
pub uninterp spec fn kind_of(value: mlua::Value<'_>) -> Kind<'_>;

/// What `mlua::String::to_str` returns for `string`: its text, or the error
/// that reports bytes which are not UTF-8.
pub uninterp spec fn string_text(string: mlua::String<'_>) -> Result<String, mlua::Error>;

/// What `table` holds, read without metamethods: each value under its key.
/// An entry whose key is an error of the runtime is not part of this map.
pub uninterp spec fn table_entries(table: mlua::Table<'_>) -> Map<Key<'_>, mlua::Value<'_>>;

/// True when `table` has no metatable, so that reading and writing it runs no
/// metamethod.
pub uninterp spec fn table_is_plain(table: mlua::Table<'_>) -> bool;

/// True when no key of `table` is an error of the runtime, so that
/// `table_entries` leaves no entry out.
pub uninterp spec fn table_is_covered(table: mlua::Table<'_>) -> bool;

/// The key-value pairs of a table without metatable in the order in which
/// the runtime enumerates them, as `mlua::Table::pairs` yields them. While
/// such a table is only read, every walk yields the same.
pub uninterp spec fn table_pairs(table: mlua::Table<'_>) -> Seq<
    Result<(mlua::Value<'_>, mlua::Value<'_>), mlua::Error>,
>;

/// The pairs of a table without metatable as `mlua::Table::pairs` yields
/// them when each key is asked for as a Rust string.
pub uninterp spec fn table_named_pairs(table: mlua::Table<'_>) -> Seq<
    Result<(String, mlua::Value<'_>), mlua::Error>,
>;

/// The values of a table without metatable under the keys 1, 2, ... up to the
/// first key that is absent, as `mlua::Table::sequence_values` yields them.
pub uninterp spec fn table_sequence(table: mlua::Table<'_>) -> Seq<
    Result<mlua::Value<'_>, mlua::Error>,
>;

/// What `cursor` yields from here on, in order. A failure of the runtime
/// stands in its place and is the last item: the iterator ends after it.
pub uninterp spec fn elements_left(cursor: Elements<'_>) -> Seq<
    Result<mlua::Value<'_>, mlua::Error>,
>;

/// What `cursor` yields from here on, in order, a failure being the last
/// item.
pub uninterp spec fn pairs_left(cursor: Pairs<'_>) -> Seq<
    Result<(mlua::Value<'_>, mlua::Value<'_>), mlua::Error>,
>;

/// What `cursor` yields from here on, in order, a failure being the last
/// item.
pub uninterp spec fn named_pairs_left(cursor: NamedPairs<'_>) -> Seq<
    Result<(String, mlua::Value<'_>), mlua::Error>,
>;

/// What `mlua::Table::len` returns for a table without metatable: a border
/// of the table, as the runtime's length operator finds it.
pub uninterp spec fn table_length(table: mlua::Table<'_>) -> i64;

/// The message that `mlua::Error` displays.
pub uninterp spec fn error_text(error: mlua::Error) -> String;

/// The bit pattern of the float nearest to `value`, for a `value` that no
/// runtime integer can hold.
pub uninterp spec fn number_of_u64(value: u64) -> u64;

/// The integer that the float with the bit pattern `bits` is equal to, if
/// there is one that the runtime can hold. The runtime files a value under
/// such a float as under that integer.
pub uninterp spec fn number_as_integer(bits: u64) -> Option<i64>;

/// The key that the runtime files a value under, where `value` is the key
/// that was handed to it. Nil and a float that is not a number are no keys.
/// For an error of the runtime no key is stated: each time it is stored it
/// becomes a new object.
pub open spec fn key_of<'lua>(value: mlua::Value<'lua>) -> Option<Key<'lua>> {
    match kind_of(value) {
        Kind::Nil => None,
        Kind::Boolean(b) => Some(Key::Flag(b)),
        Kind::Integer(i) => Some(Key::Index(i as int)),
        Kind::Number(bits) => if is_nan(bits) {
            None
        } else {
            match number_as_integer(bits) {
                Some(i) => Some(Key::Index(i as int)),
                None => Some(Key::Float(bits)),
            }
        },
        Kind::String(string) => match string_text(string) {
            Ok(text) => Some(Key::Name(text@)),
            Err(_) => Some(Key::Handle(value)),
        },
        Kind::Table(_) => Some(Key::Handle(value)),
        Kind::Other => Some(Key::Handle(value)),
        Kind::Failure => None,
    }
}

/// True when `value` can be handed to the runtime `home`: it lives there or
/// in no runtime at all.
pub open spec fn at_home(value: mlua::Value<'_>, home: int) -> bool {
    value_home(value) matches Some(found) ==> found == home
}

/// True for the bit pattern of a float that is not a number.
pub open spec fn is_nan(bits: u64) -> bool {
    (bits & 0x7fff_ffff_ffff_ffff) > 0x7ff0_0000_0000_0000
}

/// True for a value that the runtime takes as a table key: any value but nil
/// and a float that is not a number.
pub open spec fn is_key(kind: Kind<'_>) -> bool {
    match kind {
        Kind::Nil => false,
        Kind::Number(bits) => !is_nan(bits),
        _ => true,
    }
}

/// The entries of a table after `value` was stored under `key`: storing nil
/// removes the entry.
pub open spec fn put<'lua>(
    entries: Map<Key<'lua>, mlua::Value<'lua>>,
    key: Key<'lua>,
    value: mlua::Value<'lua>,
) -> Map<Key<'lua>, mlua::Value<'lua>> {
    if kind_of(value) is Nil {
        entries.remove(key)
    } else {
        entries.insert(key, value)
    }
}

/// True when `items` are the values that `entries` holds under 1, 2, ... and
/// the key after the last of them is absent.
pub open spec fn is_sequence_of<'lua>(
    items: Seq<Result<mlua::Value<'lua>, mlua::Error>>,
    entries: Map<Key<'lua>, mlua::Value<'lua>>,
) -> bool {
    &&& forall|i: int|
        0 <= i < items.len() ==> (#[trigger] items[i] matches Ok(value) ==> {
            &&& entries.contains_key(Key::Index(i + 1))
            &&& entries[Key::Index(i + 1)] == value
        })
    &&& forall|i: int| 0 <= i < items.len() - 1 ==> #[trigger] items[i] is Ok
    &&& (items.len() == 0 || items.last() is Ok) ==> !entries.contains_key(
        Key::Index(items.len() as int + 1),
    )
}

/// The key of pair `j` of `pairs`, if the pair was read.
pub open spec fn pair_key<'lua>(
    pairs: Seq<Result<(mlua::Value<'lua>, mlua::Value<'lua>), mlua::Error>>,
    j: int,
) -> Option<Key<'lua>> {
    match pairs[j] {
        Ok(pair) => key_of(pair.0),
        Err(_) => None,
    }
}

/// True when `pairs` are the `entries` of a table in some order: each pair
/// that was read is the entry under its key, no two pairs have one key, and
/// where no read failed there are as many pairs as entries.
pub open spec fn is_cover<'lua>(
    pairs: Seq<Result<(mlua::Value<'lua>, mlua::Value<'lua>), mlua::Error>>,
    entries: Map<Key<'lua>, mlua::Value<'lua>>,
) -> bool {
    &&& entries.dom().finite()
    &&& forall|j: int|
        0 <= j < pairs.len() ==> (#[trigger] pairs[j] matches Ok(pair) ==> {
            &&& pair_key(pairs, j) matches Some(key)
            &&& entries.contains_key(key)
            &&& entries[key] == pair.1
        })
    &&& forall|i: int, j: int|
        0 <= i < j < pairs.len() && pairs[i] is Ok && pairs[j] is Ok ==> #[trigger] pair_key(
            pairs,
            i,
        ) != #[trigger] pair_key(pairs, j)
    &&& (forall|j: int| 0 <= j < pairs.len() ==> #[trigger] pairs[j] is Ok) ==> pairs.len()
        == entries.len()
}

/// True when `pair`, read with its key as a string, is the entry of
/// `entries` under `key`.
pub open spec fn is_entry_at<'lua>(
    pair: (String, mlua::Value<'lua>),
    entries: Map<Key<'lua>, mlua::Value<'lua>>,
    key: Key<'lua>,
) -> bool {
    &&& entries.contains_key(key)
    &&& entries[key] == pair.1
    &&& key matches Key::Name(text) ==> text == pair.0@
}

/// True when `pairs`, read with their keys as strings, are the `entries` of
/// a table in some order: each pair that was read is one of the entries,
/// and where no read failed there are as many pairs as entries.
pub open spec fn is_named_cover<'lua>(
    pairs: Seq<Result<(String, mlua::Value<'lua>), mlua::Error>>,
    entries: Map<Key<'lua>, mlua::Value<'lua>>,
) -> bool {
    &&& entries.dom().finite()
    &&& forall|j: int|
        0 <= j < pairs.len() ==> (#[trigger] pairs[j] matches Ok(pair) ==> exists|key: Key<'lua>|
            is_entry_at(pair, entries, key))
    &&& (forall|j: int| 0 <= j < pairs.len() ==> #[trigger] pairs[j] is Ok) ==> pairs.len()
        == entries.len()
}

/// True when `item` is what stands first in `items`.
pub open spec fn is_first_of<T>(item: T, items: Seq<T>) -> bool {
    items.len() > 0 && items[0] == item
}

/// True when `value` is a string with the text `text`.
pub open spec fn is_string(value: mlua::Value<'_>, text: Seq<char>) -> bool {
    &&& kind_of(value) matches Kind::String(string)
    &&& string_text(string) matches Ok(found)
    &&& found@ == text
}

/// True when `value` is a table without metatable that holds `entries` and
/// nothing else.
pub open spec fn is_table<'lua>(
    value: mlua::Value<'lua>,
    entries: Map<Key<'lua>, mlua::Value<'lua>>,
) -> bool {
    &&& kind_of(value) matches Kind::Table(table)
    &&& table_is_plain(table)
    &&& table_is_covered(table)
    &&& table_entries(table) == entries
}

/// Matches on `mlua::Value`. The result names the variant and moves its
/// payload; `f64::to_bits` stands for a float.
#[verifier::external_body]
pub(crate) fn inspect<'lua>(value: mlua::Value<'lua>) -> (kind: Kind<'lua>)
    ensures
        kind == kind_of(value),
{
    match value {
        mlua::Value::Nil => Kind::Nil,
        mlua::Value::Boolean(b) => Kind::Boolean(b),
        mlua::Value::Integer(i) => Kind::Integer(i),
        mlua::Value::Number(n) => Kind::Number(n.to_bits()),
        mlua::Value::String(s) => Kind::String(s),
        mlua::Value::Table(t) => Kind::Table(t),
        mlua::Value::Error(_) => Kind::Failure,
        _ => Kind::Other,
    }
}

/// Tells `mlua::Value::Nil` from the other variants.
#[verifier::external_body]
pub(crate) fn is_nil<'lua>(value: &mlua::Value<'lua>) -> (r: bool)
    ensures
        r == (kind_of(*value) is Nil),
{
    match value {
        mlua::Value::Nil => true,
        _ => false,
    }
}

/// Builds `mlua::Value::Nil`.
#[verifier::external_body]
pub(crate) fn nil<'lua>() -> (value: mlua::Value<'lua>)
    ensures
        kind_of(value) is Nil,
        value_home(value) is None,
{
    mlua::Value::Nil
}

/// Builds `mlua::Value::Table` around the handle of `table`, which is given
/// away by that.
#[verifier::external_body]
pub(crate) fn from_table<'lua>(table: FreshTable<'lua>) -> (value: mlua::Value<'lua>)
    ensures
        kind_of(value) == Kind::Table(table.handle()),
        value_home(value) == Some(table_home(table.handle())),
{
    mlua::Value::Table(table.table)
}

/// Calls `ToLua::to_lua` on a `bool`, which returns `Ok(Value::Boolean(v))`.
#[verifier::external_body]
pub(crate) fn from_bool<'lua>(lua: &'lua mlua::Lua, v: bool) -> (r: Result<
    mlua::Value<'lua>,
    mlua::Error,
>)
    ensures
        r is Ok,
        kind_of(r->Ok_0) == Kind::Boolean(v),
        value_home(r->Ok_0) is None,
{
    mlua::ToLua::to_lua(v, lua)
}

/// Calls `ToLua::to_lua` on an `i64`. The runtime's integer is an `i64`, so
/// the cast in `mlua` succeeds and the result is `Ok(Value::Integer(v))`.
#[verifier::external_body]
pub(crate) fn from_i64<'lua>(lua: &'lua mlua::Lua, v: i64) -> (r: Result<
    mlua::Value<'lua>,
    mlua::Error,
>)
    ensures
        r is Ok,
        kind_of(r->Ok_0) == Kind::Integer(v),
        value_home(r->Ok_0) is None,
{
    mlua::ToLua::to_lua(v, lua)
}

/// Calls `ToLua::to_lua` on a `u64`. `mlua` casts to the runtime's integer
/// and, where the value does not fit, to a float; the second cast cannot fail.
/// Such a float is a number, and too large to be equal to an integer of the
/// runtime.
#[verifier::external_body]
pub(crate) fn from_u64<'lua>(lua: &'lua mlua::Lua, v: u64) -> (r: Result<
    mlua::Value<'lua>,
    mlua::Error,
>)
    ensures
        r is Ok,
        kind_of(r->Ok_0) == (if v <= i64::MAX {
            Kind::Integer(v as i64)
        } else {
            Kind::Number(number_of_u64(v))
        }),
        kind_of(r->Ok_0) matches Kind::Number(bits) ==> !is_nan(bits),
        kind_of(r->Ok_0) matches Kind::Number(bits) ==> number_as_integer(bits) is None,
        value_home(r->Ok_0) is None,
{
    mlua::ToLua::to_lua(v, lua)
}

/// Calls `ToLua::to_lua` on a `&str`, which copies the bytes into a new
/// runtime string. The call fails when the runtime cannot allocate.
#[verifier::external_body]
pub(crate) fn from_str<'lua>(lua: &'lua mlua::Lua, v: &str) -> (r: Result<
    mlua::Value<'lua>,
    mlua::Error,
>)
    ensures
        r matches Ok(value) ==> is_string(value, v@),
        r matches Ok(value) ==> value_home(value) == Some(lua_home(*lua)),
{
    mlua::ToLua::to_lua(v, lua)
}

/// Calls `mlua::Lua::create_table`: "Creates and returns a new empty table."
/// A new table has no metatable, and its one handle is the one returned.
#[verifier::external_body]
pub(crate) fn new_table<'lua>(lua: &'lua mlua::Lua) -> (r: Result<FreshTable<'lua>, mlua::Error>)
    ensures
        r matches Ok(table) ==> {
            &&& table_entries(table.handle()) == Map::<Key<'lua>, mlua::Value<'lua>>::empty()
            &&& table_is_plain(table.handle())
            &&& table_is_covered(table.handle())
            &&& table_home(table.handle()) == lua_home(*lua)
        },
{
    Ok(FreshTable { table: lua.create_table()? })
}

/// Calls `mlua::Table::set`: "Sets a key-value pair in the table. If the value
/// is `nil`, this will effectively remove the pair." On a table without
/// metatable `mlua` forwards to `raw_set`, which runs no metamethod and leaves
/// the table without metatable. The runtime files the value under the key as
/// `key_of` says. Nothing is claimed of the entries where the key is an error
/// of the runtime, nor where the call fails.
///
/// `mlua` panics on a handle into another runtime, and `raw_set` lets the
/// runtime raise its error for a key that is nil or not a number outside any
/// protected call, which ends the process: both are left out.
#[verifier::external_body]
pub(crate) fn table_set<'lua>(
    table: &mut FreshTable<'lua>,
    key: mlua::Value<'lua>,
    value: mlua::Value<'lua>,
) -> (r: Result<(), mlua::Error>)
    requires
        is_key(kind_of(key)),
        at_home(key, table_home(old(table).handle())),
        at_home(value, table_home(old(table).handle())),
    ensures
        table_home(final(table).handle()) == table_home(old(table).handle()),
        table_is_plain(old(table).handle()) ==> table_is_plain(final(table).handle()),
        table_is_plain(old(table).handle()) && table_is_covered(old(table).handle()) && key_of(key)
            is Some ==> table_is_covered(final(table).handle()),
        r is Ok && table_is_plain(old(table).handle()) ==> (key_of(key) matches Some(k)
            ==> table_entries(final(table).handle()) == put(
            table_entries(old(table).handle()),
            k,
            value,
        )),
{
    table.table.set(key, value)
}

/// Calls `mlua::Table::get_metatable`, which returns `None` for a table that
/// has no metatable.
#[verifier::external_body]
pub(crate) fn has_no_metatable<'lua>(table: &mlua::Table<'lua>) -> (r: bool)
    ensures
        r == table_is_plain(*table),
{
    table.get_metatable().is_none()
}

/// Calls `mlua::Table::len`, the runtime's length operator. On a table
/// without metatable `mlua` returns `Ok(self.raw_len())`. With a metatable
/// the `__len` metamethod may answer, or fail, so nothing is claimed there.
#[verifier::external_body]
pub(crate) fn table_len<'lua>(table: &mlua::Table<'lua>) -> (r: Result<i64, mlua::Error>)
    ensures
        table_is_plain(*table) ==> r is Ok,
        table_is_plain(*table) ==> r->Ok_0 == table_length(*table),
{
    table.len()
}

/// Calls `mlua::Table::pairs` for keys and values as they are. The iterator
/// "works like the Lua `pairs` function, but does not invoke the `__pairs`
/// metamethod": it walks every pair of the table once, in the runtime's own
/// order. The iterator keeps a handle of its own, cloned from `table`. What
/// it yields is tied to the table only where the table has no metatable: a
/// metamethod may change a table between two walks, and a table with weak
/// entries may lose some.
#[verifier::external_body]
pub(crate) fn pairs<'lua>(table: &mlua::Table<'lua>) -> (r: Pairs<'lua>)
    ensures
        table_is_plain(*table) ==> pairs_left(r) == table_pairs(*table),
        table_is_plain(*table) && table_is_covered(*table) ==> is_cover(
            pairs_left(r),
            table_entries(*table),
        ),
{
    table.clone().pairs::<mlua::Value, mlua::Value>()
}

/// Calls `mlua::Table::pairs` for keys as Rust strings. The iterator walks
/// every pair of the table once. A string key is yielded as its text, a
/// number as the runtime writes it, and a key that is neither is yielded as
/// a failure. What the iterator yields is tied to the table only where the
/// table has no metatable.
#[verifier::external_body]
pub(crate) fn named_pairs<'lua>(table: mlua::Table<'lua>) -> (r: NamedPairs<'lua>)
    ensures
        table_is_plain(table) ==> named_pairs_left(r) == table_named_pairs(table),
        table_is_plain(table) && table_is_covered(table) ==> is_named_cover(
            named_pairs_left(r),
            table_entries(table),
        ),
{
    table.pairs::<String, mlua::Value>()
}

/// Calls `mlua::Table::sequence_values`. The iterator yields "all values
/// `t[1]`, `t[2]`, and so on, until a `nil` value is encountered". It reads
/// through the `__index` metamethod, so what it yields is tied to the table
/// only where the table has no metatable.
#[verifier::external_body]
pub(crate) fn elements<'lua>(table: mlua::Table<'lua>) -> (r: Elements<'lua>)
    ensures
        table_is_plain(table) ==> elements_left(r) == table_sequence(table),
        table_is_plain(table) ==> is_sequence_of(elements_left(r), table_entries(table)),
{
    table.sequence_values::<mlua::Value>()
}

/// Calls `Iterator::next` on the iterator over elements.
#[verifier::external_body]
pub(crate) fn next_element<'lua>(cursor: &mut Elements<'lua>) -> (r: Option<
    Result<mlua::Value<'lua>, mlua::Error>,
>)
    ensures
        r is None ==> elements_left(*old(cursor)).len() == 0,
        r is None ==> elements_left(*final(cursor)).len() == 0,
        r matches Some(item) ==> is_first_of(item, elements_left(*old(cursor))),
        r is Some ==> elements_left(*final(cursor)) == elements_left(*old(cursor)).drop_first(),
{
    cursor.next()
}

/// Calls `Iterator::next` on the iterator over pairs.
#[verifier::external_body]
pub(crate) fn next_pair<'lua>(cursor: &mut Pairs<'lua>) -> (r: Option<
    Result<(mlua::Value<'lua>, mlua::Value<'lua>), mlua::Error>,
>)
    ensures
        r is None ==> pairs_left(*old(cursor)).len() == 0,
        r is None ==> pairs_left(*final(cursor)).len() == 0,
        r matches Some(item) ==> is_first_of(item, pairs_left(*old(cursor))),
        r is Some ==> pairs_left(*final(cursor)) == pairs_left(*old(cursor)).drop_first(),
{
    cursor.next()
}

/// Calls `Iterator::next` on the iterator over pairs with string keys.
#[verifier::external_body]
pub(crate) fn next_named_pair<'lua>(cursor: &mut NamedPairs<'lua>) -> (r: Option<
    Result<(String, mlua::Value<'lua>), mlua::Error>,
>)
    ensures
        r is None ==> named_pairs_left(*old(cursor)).len() == 0,
        r is None ==> named_pairs_left(*final(cursor)).len() == 0,
        r matches Some(item) ==> is_first_of(item, named_pairs_left(*old(cursor))),
        r is Some ==> named_pairs_left(*final(cursor)) == named_pairs_left(
            *old(cursor),
        ).drop_first(),
{
    cursor.next()
}

/// Calls `Iterator::count` on the iterator over pairs, which runs it to its
/// end and counts what it yields, failures too.
#[verifier::external_body]
pub(crate) fn count_pairs<'lua>(cursor: Pairs<'lua>) -> (r: usize)
    ensures
        r == pairs_left(cursor).len(),
{
    cursor.count()
}

/// Calls `Iterator::size_hint` on the iterator over elements. `mlua` leaves
/// the method as the standard library gives it, which answers `(0, None)`.
#[verifier::external_body]
pub(crate) fn elements_size_hint<'lua>(cursor: &Elements<'lua>) -> (r: (usize, Option<usize>))
    ensures
        r.0 == 0,
        r.1 is None,
{
    cursor.size_hint()
}

/// Calls `Iterator::size_hint` on the iterator over pairs. `mlua` leaves the
/// method as the standard library gives it, which answers `(0, None)`.
#[verifier::external_body]
pub(crate) fn pairs_size_hint<'lua>(cursor: &Pairs<'lua>) -> (r: (usize, Option<usize>))
    ensures
        r.0 == 0,
        r.1 is None,
{
    cursor.size_hint()
}

/// Calls `mlua::String::to_str` and copies the text.
#[verifier::external_body]
pub(crate) fn to_str<'lua>(string: &mlua::String<'lua>) -> (r: Result<String, mlua::Error>)
    ensures
        r == string_text(*string),
{
    Ok(string.to_str()?.to_owned())
}

/// Calls `to_string` on `mlua::Error`, which formats it with `Display`.
#[verifier::external_body]
pub(crate) fn describe(error: &mlua::Error) -> (text: String)
    ensures
        text == error_text(*error),
{
    error.to_string()
}

} // verus!
