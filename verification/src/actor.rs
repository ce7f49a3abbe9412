use vstd::prelude::*;

use crate::error::ScriptError;
use crate::message::{LuaMessage, MultiLuaMessage};
use crate::vm::{
    convert_error, eval_source, exec_source, function_call, get_global_function,
    get_global_value, message_of_value, messages_of_values, new_lua, register_host_fn,
    set_global_value, value_of_message, values_of_args, VALUE_DEPTH_LIMIT,
};
use crate::worker::{
    guarded, handler_start, handler_stop, lock_held, new_handler, new_mutex, post_and_wait,
    post_job, share,
};

verus! {

/// The execution proxy: owns a handle to one embedded interpreter and,
/// optionally, a handle to one serial worker. Every operation that touches
/// the interpreter either runs in the caller's thread under the
/// interpreter's lock (no worker) or is posted to the worker's queue, so no
/// two operations ever touch the interpreter concurrently, and operations
/// posted to the same worker run in submission order.
///
/// Clones share the same interpreter and the same worker: the interpreter
/// lives exactly as long as the last clone referencing it.
#[derive(Clone)]
pub struct Actor {
    handler: Option<
        std::sync::Arc<std::sync::Mutex<fp_rust::handler::HandlerThread>>,
    >,
    lua: std::sync::Arc<std::sync::Mutex<rlua::Lua>>,
}

impl Actor {
    /// Whether this proxy routes operations through a serial worker.
    pub closed spec fn has_worker(self) -> bool {
        self.handler is Some
    }

    /// The shared interpreter handle.
    pub closed spec fn lua_handle(self) -> std::sync::Arc<std::sync::Mutex<rlua::Lua>> {
        self.lua
    }

    /// A proxy with a worker of its own, already consuming its queue.
    pub fn new() -> (r: Actor)
        ensures
            r.has_worker(),
    {
        let handler = new_handler();
        handler_start(&handler);
        Actor { handler: Some(handler), lua: fresh_lua_handle() }
    }

    /// A proxy around the given worker handle — `None` for the worker-less,
    /// in-place configuration. A worker is started before use.
    pub fn new_with_handler(
        handler: Option<std::sync::Arc<std::sync::Mutex<fp_rust::handler::HandlerThread>>>,
    ) -> (r: Actor)
        ensures
            r.has_worker() == (handler is Some),
    {
        let actor = Actor { handler, lua: fresh_lua_handle() };
        actor.start_handler();
        actor
    }

    /// The shared interpreter handle, for callers that need raw access.
    pub fn lua(&self) -> (r: std::sync::Arc<std::sync::Mutex<rlua::Lua>>)
        ensures
            r == self.lua_handle(),
    {
        share(&self.lua)
    }

    /// Replaces the interpreter handle; the worker configuration stays.
    pub fn set_lua(&mut self, lua: std::sync::Arc<std::sync::Mutex<rlua::Lua>>)
        ensures
            final(self).lua_handle() == lua,
            final(self).has_worker() == old(self).has_worker(),
    {
        self.lua = lua;
    }

    /// Stops the worker, if one is configured: tasks already queued stop
    /// being consumed, and a task already running is not interrupted.
    pub fn stop_handler(&self) {
        match &self.handler {
            Some(h) => handler_stop(h),
            None => (),
        }
    }

    fn start_handler(&self) {
        match &self.handler {
            Some(h) => handler_start(h),
            None => (),
        }
    }

    /// Installs a global binding. With a worker this is fire-and-forget:
    /// the write is queued in submission order and this call may return
    /// before it ran, and a conversion failure inside the queued task is
    /// dropped — a deliberate contract choice of this proxy. Without a
    /// worker the write happens in place and its failure is returned.
    pub fn set_global(&self, key: &str, value: LuaMessage) -> (r: Result<(), ScriptError>)
        ensures
            self.has_worker() ==> r is Ok,
    {
        match &self.handler {
            Some(h) => {
                let lua2 = share(&self.lua);
                let key2 = String::from_str(key);
                post_job(
                    h,
                    move ||
                        {
                            let _ = set_global_in_place(&lua2, key2.as_str(), &value);
                        },
                );
                Ok(())
            },
            None => set_global_in_place(&self.lua, key, &value),
        }
    }

    /// Reads a global binding, converted to a message; an absent global
    /// reads as `Nil`. Blocks until every operation posted before it has
    /// run, so a `set_global` issued earlier on this proxy is observed.
    pub fn get_global(&self, key: &str) -> (r: Result<LuaMessage, ScriptError>)
        ensures
            r matches Ok(m) ==> m.wf() && !(m is Variadic),
    {
        match &self.handler {
            Some(h) => {
                let lua2 = share(&self.lua);
                let key2 = String::from_str(key);
                post_and_wait(
                    h,
                    (move || -> (out: Result<LuaMessage, ScriptError>)
                        ensures
                            out matches Ok(m) ==> m.wf() && !(m is Variadic),
                        { get_global_in_place(&lua2, key2.as_str()) }),
                )
            },
            None => get_global_in_place(&self.lua, key),
        }
    }

    /// Runs a chunk of source for its effects, fire-and-forget: with a
    /// worker the chunk is queued and any failure is dropped; without one
    /// it runs in place and even then a failure is dropped, so this call
    /// always succeeds.
    pub fn load_nowait(&self, source: &str) -> (r: Result<(), ScriptError>)
        ensures
            r is Ok,
    {
        match &self.handler {
            Some(h) => {
                let lua2 = share(&self.lua);
                let src2 = String::from_str(source);
                post_job(
                    h,
                    move ||
                        {
                            let _ = exec_in_place(&lua2, src2.as_str());
                        },
                );
            },
            None => {
                let _ = exec_in_place(&self.lua, source);
            },
        }
        Ok(())
    }

    /// Runs source text and returns the value of its final expression,
    /// converted to a message: no value collapses to `Nil`, several
    /// collapse to a `Variadic` in order. Blocks until the chunk ran.
    pub fn exec(&self, source: &str) -> (r: Result<LuaMessage, ScriptError>)
        ensures
            r matches Ok(m) ==> m.wf(),
    {
        self.run_source(source)
    }

    /// Runs source text fire-and-forget when a worker is configured —
    /// failures of the queued chunk are dropped — and in place otherwise,
    /// where a failure is returned.
    pub fn exec_nowait(&self, source: &str) -> (r: Result<(), ScriptError>)
        ensures
            self.has_worker() ==> r is Ok,
    {
        match &self.handler {
            Some(h) => {
                let lua2 = share(&self.lua);
                let src2 = String::from_str(source);
                post_job(
                    h,
                    move ||
                        {
                            let _ = eval_in_place(&lua2, src2.as_str());
                        },
                );
                Ok(())
            },
            None => match eval_in_place(&self.lua, source) {
                Ok(_) => Ok(()),
                Err(e) => Err(e),
            },
        }
    }

    /// Evaluates an expression and returns its value as a message; routed
    /// through the same machinery as `exec`.
    pub fn eval(&self, source: &str) -> (r: Result<LuaMessage, ScriptError>)
        ensures
            r matches Ok(m) ==> m.wf(),
    {
        self.run_source(source)
    }

    fn run_source(&self, source: &str) -> (r: Result<LuaMessage, ScriptError>)
        ensures
            r matches Ok(m) ==> m.wf(),
    {
        match &self.handler {
            Some(h) => {
                let lua2 = share(&self.lua);
                let src2 = String::from_str(source);
                post_and_wait(
                    h,
                    (move || -> (out: Result<LuaMessage, ScriptError>)
                        ensures
                            out matches Ok(m) ==> m.wf(),
                        { eval_in_place(&lua2, src2.as_str()) }),
                )
            },
            None => eval_in_place(&self.lua, source),
        }
    }

    /// Calls the named global function. `args` supplies the positional
    /// arguments: a `Variadic` is flattened into several, anything else is
    /// passed as the single argument. The returned values collapse as in
    /// `exec`. Calling a name that is not bound to a function is a runtime
    /// error, not a crash.
    pub fn call(&self, name: &str, args: LuaMessage) -> (r: Result<LuaMessage, ScriptError>)
        ensures
            r matches Ok(m) ==> m.wf(),
    {
        match &self.handler {
            Some(h) => {
                let lua2 = share(&self.lua);
                let name2 = String::from_str(name);
                post_and_wait(
                    h,
                    (move || -> (out: Result<LuaMessage, ScriptError>)
                        ensures
                            out matches Ok(m) ==> m.wf(),
                        { call_in_place(&lua2, name2.as_str(), &args) }),
                )
            },
            None => call_in_place(&self.lua, name, &args),
        }
    }

    /// Calls the named global function fire-and-forget when a worker is
    /// configured — failures of the queued call are dropped — and in place
    /// otherwise, where a failure is returned.
    pub fn call_nowait(&self, name: &str, args: LuaMessage) -> (r: Result<(), ScriptError>)
        ensures
            self.has_worker() ==> r is Ok,
    {
        match &self.handler {
            Some(h) => {
                let lua2 = share(&self.lua);
                let name2 = String::from_str(name);
                post_job(
                    h,
                    move ||
                        {
                            let _ = call_in_place(&lua2, name2.as_str(), &args);
                        },
                );
                Ok(())
            },
            None => match call_in_place(&self.lua, name, &args) {
                Ok(_) => Ok(()),
                Err(e) => Err(e),
            },
        }
    }

    /// Registers a host function under a global name, synchronously, so
    /// script code can call back into host logic. The function receives the
    /// call's arguments as messages and its returned `MultiLuaMessage`
    /// supplies the call's return values, a `Variadic` root standing for
    /// several.
    pub fn def_fn_with_name_sync<
        F: Fn(&Vec<LuaMessage>) -> Result<MultiLuaMessage, ScriptError> + Send + 'static,
    >(&self, func: F, key: &str) -> (r: Result<(), ScriptError>) {
        let g = lock_held(&self.lua);
        let lua = guarded(&g);
        match register_host_fn(lua, key, func) {
            Ok(_) => Ok(()),
            Err(e) => Err(convert_error(e)),
        }
    }
}

fn fresh_lua_handle() -> std::sync::Arc<std::sync::Mutex<rlua::Lua>> {
    std::sync::Arc::new(new_mutex(new_lua()))
}

fn set_global_in_place(
    lua_m: &std::sync::Mutex<rlua::Lua>,
    key: &str,
    value: &LuaMessage,
) -> (r: Result<(), ScriptError>) {
    let g = lock_held(lua_m);
    let lua = guarded(&g);
    let v = match value_of_message(lua, value) {
        Ok(v) => v,
        Err(e) => {
            return Err(e);
        },
    };
    match set_global_value(lua, key, &v) {
        Ok(_) => Ok(()),
        Err(e) => Err(convert_error(e)),
    }
}

fn get_global_in_place(lua_m: &std::sync::Mutex<rlua::Lua>, key: &str) -> (r: Result<
    LuaMessage,
    ScriptError,
>)
    ensures
        r matches Ok(m) ==> m.wf() && !(m is Variadic),
{
    let g = lock_held(lua_m);
    let lua = guarded(&g);
    let v = match get_global_value(lua, key) {
        Ok(v) => v,
        Err(e) => {
            return Err(convert_error(e));
        },
    };
    message_of_value(&v, VALUE_DEPTH_LIMIT)
}

fn eval_in_place(lua_m: &std::sync::Mutex<rlua::Lua>, source: &str) -> (r: Result<
    LuaMessage,
    ScriptError,
>)
    ensures
        r matches Ok(m) ==> m.wf(),
{
    let g = lock_held(lua_m);
    let lua = guarded(&g);
    let vals = match eval_source(lua, source) {
        Ok(vs) => vs,
        Err(e) => {
            return Err(convert_error(e));
        },
    };
    let msgs = match messages_of_values(&vals) {
        Ok(ms) => ms,
        Err(e) => {
            return Err(e);
        },
    };
    Ok(LuaMessage::collapse_values(msgs))
}

fn exec_in_place(lua_m: &std::sync::Mutex<rlua::Lua>, source: &str) -> (r: Result<
    (),
    ScriptError,
>) {
    let g = lock_held(lua_m);
    let lua = guarded(&g);
    match exec_source(lua, source) {
        Ok(_) => Ok(()),
        Err(e) => Err(convert_error(e)),
    }
}

fn call_in_place(lua_m: &std::sync::Mutex<rlua::Lua>, name: &str, args: &LuaMessage) -> (r: Result<
    LuaMessage,
    ScriptError,
>)
    ensures
        r matches Ok(m) ==> m.wf(),
{
    let g = lock_held(lua_m);
    let lua = guarded(&g);
    let f = match get_global_function(lua, name) {
        Ok(f) => f,
        Err(e) => {
            // A name that is not bound to a function is a script-level
            // failure of the call, not a value-conversion failure.
            return Err(match convert_error(e) {
                ScriptError::Conversion(t) => ScriptError::Runtime(t),
                other => other,
            });
        },
    };
    let argvals = match values_of_args(lua, args) {
        Ok(vs) => vs,
        Err(e) => {
            return Err(e);
        },
    };
    let rvals = match function_call(&f, argvals) {
        Ok(vs) => vs,
        Err(e) => {
            return Err(convert_error(e));
        },
    };
    let msgs = match messages_of_values(&rvals) {
        Ok(ms) => ms,
        Err(e) => {
            return Err(e);
        },
    };
    Ok(LuaMessage::collapse_values(msgs))
}

impl Default for Actor {
    /// A proxy with a worker of its own, not yet started.
    fn default() -> (r: Actor)
        ensures
            r.has_worker(),
    {
        Actor { handler: Some(new_handler()), lua: fresh_lua_handle() }
    }
}

} // verus!
