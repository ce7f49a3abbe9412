use vstd::prelude::*;

use crate::convert::{build_structural, KeyKind};
use crate::error::ScriptError;
use crate::message::{LuaMessage, MultiLuaMessage};

verus! {

broadcast use vstd::seq::axiom_seq_index_decreases, vstd::seq::axiom_seq_subrange_decreases;

#[verifier::external_type_specification]
#[verifier::external_body]
pub struct ExLua(rlua::Lua);

#[verifier::external_type_specification]
#[verifier::external_body]
pub struct ExValue<'lua>(rlua::Value<'lua>);

#[verifier::external_type_specification]
#[verifier::external_body]
pub struct ExTable<'lua>(rlua::Table<'lua>);

#[verifier::external_type_specification]
#[verifier::external_body]
pub struct ExFunction<'lua>(rlua::Function<'lua>);

#[verifier::external_type_specification]
#[verifier::external_body]
pub struct ExLuaError(rlua::Error);

#[verifier::external_type_specification]
#[verifier::external_body]
pub struct ExChunk<'lua, 'a>(rlua::Chunk<'lua, 'a>);

/// How many levels of nested structural values an incoming interpreter
/// value may have before conversion gives up; guarantees termination even
/// on cyclic tables, which have no finite host form.
pub const VALUE_DEPTH_LIMIT: u64 = 128;

/// What conversion reads off one interpreter value: its scalar payload, a
/// handle for a structural or callable value, or the bare fact that the
/// value has no host form.
pub(crate) enum ValueHead<'lua> {
    Nil,
    Boolean(bool),
    Integer(i64),
    NumberBits(u64),
    Text(String),
    TableRef(rlua::Table<'lua>),
    Callable(rlua::Function<'lua>),
    Other,
}

/// Relies on rlua's `Lua::new`: builds a fresh interpreter state with the
/// standard libraries loaded.
#[verifier::external_body]
pub(crate) fn new_lua() -> rlua::Lua {
    rlua::Lua::new()
}

/// Relies on rlua's `Error` rendering through `ToString::to_string` for the
/// diagnostic text, and sorts the error by variant: a syntax error becomes
/// `Parse`, a conversion error on either side becomes `Conversion`, and
/// every other interpreter failure becomes `Runtime`.
#[verifier::external_body]
pub(crate) fn convert_error(e: rlua::Error) -> ScriptError {
    let text = e.to_string();
    match e {
        rlua::Error::SyntaxError { .. } => ScriptError::Parse(text),
        rlua::Error::FromLuaConversionError { .. } => ScriptError::Conversion(text),
        rlua::Error::ToLuaConversionError { .. } => ScriptError::Conversion(text),
        _ => ScriptError::Runtime(text),
    }
}

/// Relies on `Value::Nil`: the interpreter's nil.
#[verifier::external_body]
fn nil_value<'lua>() -> rlua::Value<'lua> {
    rlua::Value::Nil
}

/// Relies on `Value::Boolean`: carries the boolean unchanged.
#[verifier::external_body]
fn boolean_value<'lua>(b: bool) -> rlua::Value<'lua> {
    rlua::Value::Boolean(b)
}

/// Relies on `Value::Integer`: carries the 64-bit integer unchanged.
#[verifier::external_body]
fn integer_value<'lua>(i: i64) -> rlua::Value<'lua> {
    rlua::Value::Integer(i)
}

/// Relies on `Value::Number` and `f64::from_bits`: carries the
/// floating-point value with exactly this bit pattern.
#[verifier::external_body]
fn number_value<'lua>(bits: u64) -> rlua::Value<'lua> {
    rlua::Value::Number(rlua::Number::from_bits(bits))
}

/// Relies on `Lua::create_string`: interns the text as an interpreter
/// string value.
#[verifier::external_body]
fn string_value<'lua>(lua: &'lua rlua::Lua, s: &str) -> Result<rlua::Value<'lua>, rlua::Error> {
    Ok(rlua::Value::String(lua.create_string(s)?))
}

/// Relies on `Value::Table`: wraps a table handle as a value.
#[verifier::external_body]
fn table_value<'lua>(t: rlua::Table<'lua>) -> rlua::Value<'lua> {
    rlua::Value::Table(t)
}

/// Relies on `Lua::create_table`: a fresh empty table.
#[verifier::external_body]
fn new_table<'lua>(lua: &'lua rlua::Lua) -> Result<rlua::Table<'lua>, rlua::Error> {
    lua.create_table()
}

/// Relies on `Table::raw_set`: binds the key to the value in the table,
/// without invoking metamethods.
#[verifier::external_body]
fn table_raw_set<'lua>(
    t: &rlua::Table<'lua>,
    k: &rlua::Value<'lua>,
    v: &rlua::Value<'lua>,
) -> Result<(), rlua::Error> {
    t.raw_set(k, v)
}

/// Relies on the `Value` variants, `f64::to_bits` and `String::to_str`:
/// reads one value's head, copying scalar payloads out (a string that is
/// not valid UTF-8 is the error case) and handing structural and callable
/// values over as handles.
#[verifier::external_body]
fn value_head<'lua>(v: &rlua::Value<'lua>) -> Result<ValueHead<'lua>, rlua::Error> {
    match v {
        rlua::Value::Nil => Ok(ValueHead::Nil),
        rlua::Value::Boolean(b) => Ok(ValueHead::Boolean(*b)),
        rlua::Value::Integer(i) => Ok(ValueHead::Integer(*i)),
        rlua::Value::Number(x) => Ok(ValueHead::NumberBits(x.to_bits())),
        rlua::Value::String(s) => Ok(ValueHead::Text(s.to_str()?.to_owned())),
        rlua::Value::Table(t) => Ok(ValueHead::TableRef(t.clone())),
        rlua::Value::Function(f) => Ok(ValueHead::Callable(f.clone())),
        _ => Ok(ValueHead::Other),
    }
}

/// Relies on `Table::pairs`: every entry of the table under raw iteration,
/// as key/value pairs, in the interpreter's iteration order.
#[verifier::external_body]
fn table_entries<'lua>(
    t: &rlua::Table<'lua>,
) -> Result<Vec<(rlua::Value<'lua>, rlua::Value<'lua>)>, rlua::Error> {
    t.clone().pairs::<rlua::Value, rlua::Value>().collect()
}

/// Relies on `Lua::globals`: the table of global bindings.
#[verifier::external_body]
fn globals_table<'lua>(lua: &'lua rlua::Lua) -> rlua::Table<'lua> {
    lua.globals()
}

/// Relies on `Table::set`: binds a string key to the value; on the globals
/// table this installs a global binding.
#[verifier::external_body]
fn table_set_str<'lua>(
    t: &rlua::Table<'lua>,
    key: &str,
    v: &rlua::Value<'lua>,
) -> Result<(), rlua::Error> {
    t.set(key, v)
}

/// Relies on `Table::get` for a plain value: the value bound to the string
/// key, nil when absent.
#[verifier::external_body]
fn table_get_value<'lua>(
    t: &rlua::Table<'lua>,
    key: &str,
) -> Result<rlua::Value<'lua>, rlua::Error> {
    t.get::<_, rlua::Value>(key)
}

/// Relies on `Table::get` for a function value: the function bound to the
/// string key, or the interpreter's conversion error when the binding is
/// absent or not a function.
#[verifier::external_body]
fn table_get_function<'lua>(
    t: &rlua::Table<'lua>,
    name: &str,
) -> Result<rlua::Function<'lua>, rlua::Error> {
    t.get::<_, rlua::Function>(name)
}

/// Relies on `Value::Function`: wraps a function handle as a value.
#[verifier::external_body]
fn function_value<'lua>(f: rlua::Function<'lua>) -> rlua::Value<'lua> {
    rlua::Value::Function(f)
}

/// Relies on `Lua::load`: parses nothing yet, just wraps the source as a
/// chunk to run.
#[verifier::external_body]
fn load_chunk<'lua, 'a>(lua: &'lua rlua::Lua, source: &'a str) -> rlua::Chunk<'lua, 'a> {
    lua.load(source)
}

/// Relies on `Chunk::eval`: parses the chunk and runs it, yielding the
/// values of its final expression (none for a plain block).
#[verifier::external_body]
fn chunk_eval_values<'lua, 'a>(
    c: rlua::Chunk<'lua, 'a>,
) -> Result<Vec<rlua::Value<'lua>>, rlua::Error> {
    Ok(c.eval::<rlua::MultiValue>()?.into_vec())
}

/// Relies on `Chunk::exec`: parses the chunk and runs it for its effects,
/// discarding any values.
#[verifier::external_body]
fn chunk_exec(c: rlua::Chunk<'_, '_>) -> Result<(), rlua::Error> {
    c.exec()
}

/// Installs a global binding under the given name.
pub(crate) fn set_global_value<'lua>(
    lua: &'lua rlua::Lua,
    key: &str,
    v: &rlua::Value<'lua>,
) -> Result<(), rlua::Error> {
    let globals = globals_table(lua);
    table_set_str(&globals, key, v)
}

/// The value of the global binding with the given name, nil when absent.
pub(crate) fn get_global_value<'lua>(
    lua: &'lua rlua::Lua,
    key: &str,
) -> Result<rlua::Value<'lua>, rlua::Error> {
    let globals = globals_table(lua);
    table_get_value(&globals, key)
}

/// Parses the source, runs it, and yields the values of its final
/// expression.
pub(crate) fn eval_source<'lua>(
    lua: &'lua rlua::Lua,
    source: &str,
) -> Result<Vec<rlua::Value<'lua>>, rlua::Error> {
    chunk_eval_values(load_chunk(lua, source))
}

/// Parses the source and runs it for its effects.
pub(crate) fn exec_source(lua: &rlua::Lua, source: &str) -> Result<(), rlua::Error> {
    chunk_exec(load_chunk(lua, source))
}

/// The global function with this name, or the interpreter's conversion
/// error when the binding is absent or not a function.
pub(crate) fn get_global_function<'lua>(
    lua: &'lua rlua::Lua,
    name: &str,
) -> Result<rlua::Function<'lua>, rlua::Error> {
    let globals = globals_table(lua);
    table_get_function(&globals, name)
}

/// Relies on `Function::call`: invokes the function with the given
/// positional arguments and yields all returned values in order.
#[verifier::external_body]
pub(crate) fn function_call<'lua>(
    f: &rlua::Function<'lua>,
    args: Vec<rlua::Value<'lua>>,
) -> Result<Vec<rlua::Value<'lua>>, rlua::Error> {
    let multi = rlua::MultiValue::from_vec(args);
    Ok(f.call::<_, rlua::MultiValue>(multi)?.into_vec())
}

/// Relies on `Lua::create_function`: wraps a host function as an
/// interpreter function value. When script code calls it, the closure
/// converts the arguments to messages, runs `f`, and converts the result
/// back; each conversion runs through the library's own functions, and a
/// failure surfaces as a script-level runtime error.
#[verifier::external_body]
fn create_host_fn<'lua, F: Fn(&Vec<LuaMessage>) -> Result<MultiLuaMessage, ScriptError> + Send + 'static>(
    lua: &'lua rlua::Lua,
    f: F,
) -> Result<rlua::Function<'lua>, rlua::Error> {
    lua.create_function(move |l, args: rlua::MultiValue| {
        let msgs = messages_of_values(&args.into_vec())
            .map_err(|e| rlua::Error::RuntimeError(e.text()))?;
        let out = f(&msgs).map_err(|e| rlua::Error::RuntimeError(e.text()))?;
        let vals = values_of_multi(l, &out).map_err(|e| rlua::Error::RuntimeError(e.text()))?;
        Ok(rlua::MultiValue::from_vec(vals))
    })
}

/// Binds a host function under a global name; script code can then call
/// back into host logic through it.
pub(crate) fn register_host_fn<F: Fn(&Vec<LuaMessage>) -> Result<MultiLuaMessage, ScriptError> + Send + 'static>(
    lua: &rlua::Lua,
    name: &str,
    f: F,
) -> Result<(), rlua::Error> {
    let g = match create_host_fn(lua, f) {
        Ok(g) => g,
        Err(e) => {
            return Err(e);
        },
    };
    let v = function_value(g);
    let globals = globals_table(lua);
    table_set_str(&globals, name, &v)
}

/// Builds the interpreter value for one message. A `Variadic` handed over
/// as a single value becomes a sequence table of its items, like an
/// `Array`. Integer, floating-point, boolean and nil messages always
/// convert; a sequence with more items than the integer index range can
/// count is a conversion error.
pub fn value_of_message<'lua>(lua: &'lua rlua::Lua, m: &LuaMessage) -> (r: Result<
    rlua::Value<'lua>,
    ScriptError,
>)
    ensures
        (m is Integer || m is Number || m is Boolean || m is Nil) ==> r is Ok,
        (m matches LuaMessage::Array(v) && v@.len() > i64::MAX) ==> (r matches Err(e) && e
            is Conversion),
        (m matches LuaMessage::Variadic(v) && v.items@.len() > i64::MAX) ==> (r matches Err(e)
            && e is Conversion),
    decreases m,
{
    match m {
        LuaMessage::String(s) => match string_value(lua, s.as_str()) {
            Ok(v) => Ok(v),
            Err(e) => Err(convert_error(e)),
        },
        LuaMessage::Integer(i) => Ok(integer_value(*i)),
        LuaMessage::Number(b) => Ok(number_value(*b)),
        LuaMessage::Boolean(b) => Ok(boolean_value(*b)),
        LuaMessage::Nil => Ok(nil_value()),
        LuaMessage::Table(t) => table_of_table(lua, t),
        LuaMessage::Array(v) => sequence_value(lua, v),
        LuaMessage::Variadic(v) => sequence_value(lua, &v.items),
    }
}

/// Builds an associative interpreter table from a host table's entries.
fn table_of_table<'lua>(lua: &'lua rlua::Lua, t: &crate::message::LuaTable) -> (r: Result<
    rlua::Value<'lua>,
    ScriptError,
>)
    decreases t,
{
    let out = match new_table(lua) {
        Ok(o) => o,
        Err(e) => {
            return Err(convert_error(e));
        },
    };
    let n = t.entries.len();
    let mut i: usize = 0;
    while i < n
        invariant
            n == t.entries@.len(),
            i <= n,
        decreases n - i,
    {
        let kv = match string_value(lua, t.entries[i].0.as_str()) {
            Ok(v) => v,
            Err(e) => {
                return Err(convert_error(e));
            },
        };
        let vv = match value_of_message(lua, &t.entries[i].1) {
            Ok(v) => v,
            Err(e) => {
                return Err(e);
            },
        };
        match table_raw_set(&out, &kv, &vv) {
            Ok(_) => (),
            Err(e) => {
                return Err(convert_error(e));
            },
        }
        i += 1;
    }
    Ok(table_value(out))
}

/// Builds a sequence table holding the messages under integer keys 1..=n.
fn sequence_value<'lua>(lua: &'lua rlua::Lua, items: &Vec<LuaMessage>) -> (r: Result<
    rlua::Value<'lua>,
    ScriptError,
>)
    ensures
        items@.len() > i64::MAX ==> (r matches Err(e) && e is Conversion),
    decreases items,
{
    let n = items.len();
    if n as u64 > i64::MAX as u64 {
        return Err(ScriptError::Conversion(String::from_str(
            "sequence too long for integer indexing",
        )));
    }
    let out = match new_table(lua) {
        Ok(o) => o,
        Err(e) => {
            return Err(convert_error(e));
        },
    };
    let mut i: usize = 0;
    while i < n
        invariant
            n == items@.len(),
            n as u64 <= i64::MAX as u64,
            i <= n,
        decreases n - i,
    {
        let kv = integer_value((i as u64 + 1) as i64);
        let vv = match value_of_message(lua, &items[i]) {
            Ok(v) => v,
            Err(e) => {
                return Err(e);
            },
        };
        match table_raw_set(&out, &kv, &vv) {
            Ok(_) => (),
            Err(e) => {
                return Err(convert_error(e));
            },
        }
        i += 1;
    }
    Ok(table_value(out))
}

/// Builds the flat interpreter argument or return list for a
/// call-boundary message: a `Variadic` root supplies one value per item,
/// anything else supplies itself alone.
pub fn values_of_multi<'lua>(lua: &'lua rlua::Lua, m: &MultiLuaMessage) -> (r: Result<
    Vec<rlua::Value<'lua>>,
    ScriptError,
>)
    ensures
        r matches Ok(vs) ==> vs@.len() == m.args_view().len(),
{
    values_of_args(lua, &m.message)
}

/// Builds the flat interpreter argument or return list for one message: a
/// `Variadic` supplies one value per item, anything else supplies itself
/// alone.
pub fn values_of_args<'lua>(lua: &'lua rlua::Lua, args: &LuaMessage) -> (r: Result<
    Vec<rlua::Value<'lua>>,
    ScriptError,
>)
    ensures
        r matches Ok(vs) ==> vs@.len() == (MultiLuaMessage { message: *args }).args_view().len(),
{
    match args {
        LuaMessage::Variadic(v) => {
            let mut out: Vec<rlua::Value<'lua>> = Vec::new();
            let n = v.items.len();
            let mut i: usize = 0;
            while i < n
                invariant
                    n == v.items@.len(),
                    i <= n,
                    out@.len() == i,
                decreases n - i,
            {
                let vv = match value_of_message(lua, &v.items[i]) {
                    Ok(x) => x,
                    Err(e) => {
                        return Err(e);
                    },
                };
                out.push(vv);
                i += 1;
            }
            proof {
                crate::message::lemma_msg_views_index(v.items@);
            }
            Ok(out)
        },
        other => {
            let vv = match value_of_message(lua, other) {
                Ok(x) => x,
                Err(e) => {
                    return Err(e);
                },
            };
            let mut out: Vec<rlua::Value<'lua>> = Vec::new();
            out.push(vv);
            Ok(out)
        },
    }
}

/// Converts one interpreter value to a host message, applying the
/// classification rule to structural values. Values with no host form — a
/// function, a thread, userdata — and structural values nested beyond
/// `VALUE_DEPTH_LIMIT` levels are conversion errors.
pub fn message_of_value(v: &rlua::Value<'_>, depth: u64) -> (r: Result<LuaMessage, ScriptError>)
    ensures
        r matches Ok(m) ==> m.wf() && !(m is Variadic),
    decreases depth,
{
    let head = match value_head(v) {
        Ok(h) => h,
        Err(e) => {
            return Err(convert_error(e));
        },
    };
    match head {
        ValueHead::TableRef(t) => {
            if depth == 0 {
                return Err(ScriptError::Conversion(String::from_str(
                    "structural value nests too deeply",
                )));
            }
            let pairs = match table_entries(&t) {
                Ok(p) => p,
                Err(e) => {
                    return Err(convert_error(e));
                },
            };
            let mut keys: Vec<KeyKind> = Vec::new();
            let mut vals: Vec<LuaMessage> = Vec::new();
            let n = pairs.len();
            let mut i: usize = 0;
            while i < n
                invariant
                    n == pairs@.len(),
                    i <= n,
                    keys@.len() == i,
                    vals@.len() == i,
                    forall|k: int| 0 <= k < i ==> (#[trigger] vals@[k]).wf(),
                    forall|k: int| 0 <= k < i ==> !((#[trigger] vals@[k]) is Variadic),
                    depth > 0,
                decreases n - i,
            {
                let kh = match value_head(&pairs[i].0) {
                    Ok(h) => h,
                    Err(e) => {
                        return Err(convert_error(e));
                    },
                };
                keys.push(key_kind_of_head(kh));
                let m = match message_of_value(&pairs[i].1, depth - 1) {
                    Ok(m) => m,
                    Err(e) => {
                        return Err(e);
                    },
                };
                vals.push(m);
                i += 1;
            }
            build_structural(&keys, &vals)
        },
        other => message_of_head(other),
    }
}

/// Maps one non-structural value head to its host message: each scalar
/// head carries its payload straight across into the message variant of
/// the same shape, and a callable or otherwise opaque head has no host
/// form.
fn message_of_head(h: ValueHead<'_>) -> (r: Result<LuaMessage, ScriptError>)
    requires
        !(h is TableRef),
    ensures
        h is Nil ==> r == Ok::<LuaMessage, ScriptError>(LuaMessage::Nil),
        h matches ValueHead::Boolean(b) ==> r == Ok::<LuaMessage, ScriptError>(
            LuaMessage::Boolean(b),
        ),
        h matches ValueHead::Integer(i) ==> r == Ok::<LuaMessage, ScriptError>(
            LuaMessage::Integer(i),
        ),
        h matches ValueHead::NumberBits(b) ==> r == Ok::<LuaMessage, ScriptError>(
            LuaMessage::Number(b),
        ),
        h matches ValueHead::Text(s) ==> r == Ok::<LuaMessage, ScriptError>(
            LuaMessage::String(s),
        ),
        (h is Callable || h is Other) ==> (r matches Err(e) && e is Conversion),
{
    match h {
        ValueHead::Nil => Ok(LuaMessage::Nil),
        ValueHead::Boolean(b) => Ok(LuaMessage::Boolean(b)),
        ValueHead::Integer(i) => Ok(LuaMessage::Integer(i)),
        ValueHead::NumberBits(b) => Ok(LuaMessage::Number(b)),
        ValueHead::Text(s) => Ok(LuaMessage::String(s)),
        ValueHead::TableRef(_) => Err(ScriptError::Conversion(String::from_str(
            "a structural value is classified by its entries, not its head",
        ))),
        ValueHead::Callable(_) => Err(ScriptError::Conversion(String::from_str(
            "a function value has no host message form",
        ))),
        ValueHead::Other => Err(ScriptError::Conversion(String::from_str(
            "this value kind has no host message form",
        ))),
    }
}

/// The key classification for one value head: integer, floating-point,
/// text and boolean keys keep their payloads, and every other kind of key
/// is opaque to the host side.
fn key_kind_of_head(h: ValueHead<'_>) -> (r: KeyKind)
    ensures
        h matches ValueHead::Integer(i) ==> r == KeyKind::Int(i),
        h matches ValueHead::NumberBits(b) ==> r == KeyKind::Num(b),
        h matches ValueHead::Text(s) ==> r == KeyKind::Text(s),
        h matches ValueHead::Boolean(b) ==> r == KeyKind::Bool(b),
        (h is Nil || h is TableRef || h is Callable || h is Other) ==> r == KeyKind::Opaque,
{
    match h {
        ValueHead::Nil => KeyKind::Opaque,
        ValueHead::Boolean(b) => KeyKind::Bool(b),
        ValueHead::Integer(i) => KeyKind::Int(i),
        ValueHead::NumberBits(b) => KeyKind::Num(b),
        ValueHead::Text(s) => KeyKind::Text(s),
        ValueHead::TableRef(_) => KeyKind::Opaque,
        ValueHead::Callable(_) => KeyKind::Opaque,
        ValueHead::Other => KeyKind::Opaque,
    }
}

/// Converts a flat interpreter value list to host messages, in order.
pub fn messages_of_values(vals: &Vec<rlua::Value<'_>>) -> (r: Result<Vec<LuaMessage>, ScriptError>)
    ensures
        r matches Ok(ms) ==> ms@.len() == vals@.len() && (forall|i: int|
            0 <= i < ms@.len() ==> (#[trigger] ms@[i]).wf() && !(ms@[i] is Variadic)),
{
    let mut out: Vec<LuaMessage> = Vec::new();
    let n = vals.len();
    let mut i: usize = 0;
    while i < n
        invariant
            n == vals@.len(),
            i <= n,
            out@.len() == i,
            forall|k: int| 0 <= k < i ==> (#[trigger] out@[k]).wf() && !(out@[k] is Variadic),
        decreases n - i,
    {
        let m = match message_of_value(&vals[i], VALUE_DEPTH_LIMIT) {
            Ok(m) => m,
            Err(e) => {
                return Err(e);
            },
        };
        out.push(m);
        i += 1;
    }
    Ok(out)
}

} // verus!
