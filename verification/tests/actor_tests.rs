use std::sync::{Arc, Mutex};

use fp_rust::common::RawFunc;
use fp_rust::handler::{Handler, HandlerThread};
use fp_rust::sync::CountDownLatch;

use lua_actor::actor::Actor;
use lua_actor::error::ScriptError;
use lua_actor::message::{LuaMessage, LuaTable, MultiLuaMessage, VariadicLuaMessage};

#[test]
fn ordering_set_then_get_with_worker() {
    let act = Actor::new();
    act.set_global("i", LuaMessage::Integer(1)).unwrap();
    assert_eq!(act.get_global("i"), Ok(LuaMessage::Integer(1)));
    act.stop_handler();
}

#[test]
fn ordering_set_then_get_without_worker() {
    let act = Actor::new_with_handler(None);
    act.set_global("i", LuaMessage::Integer(1)).unwrap();
    assert_eq!(act.get_global("i"), Ok(LuaMessage::Integer(1)));
}

#[test]
fn scalar_round_trips_through_interpreter() {
    let act = Actor::new_with_handler(None);
    act.set_global("a", LuaMessage::Integer(-42)).unwrap();
    assert_eq!(act.get_global("a"), Ok(LuaMessage::Integer(-42)));
    act.set_global("b", LuaMessage::Number((42.5f64).to_bits()))
        .unwrap();
    assert_eq!(
        act.get_global("b"),
        Ok(LuaMessage::Number((42.5f64).to_bits()))
    );
    act.set_global("c", LuaMessage::Boolean(true)).unwrap();
    assert_eq!(act.get_global("c"), Ok(LuaMessage::Boolean(true)));
    act.set_global("d", LuaMessage::String("hey".to_string()))
        .unwrap();
    assert_eq!(act.get_global("d"), Ok(LuaMessage::String("hey".to_string())));
    assert_eq!(act.get_global("missing"), Ok(LuaMessage::Nil));
}

#[test]
fn structural_round_trips_through_interpreter() {
    let act = Actor::new_with_handler(None);
    let arr = LuaMessage::Array(vec![LuaMessage::Integer(1), LuaMessage::Integer(2)]);
    act.set_global("arr1", arr.clone()).unwrap();
    assert_eq!(act.get_global("arr1"), Ok(arr));

    let mut t = LuaTable::new();
    t.insert("k".to_string(), LuaMessage::String("v".to_string()));
    act.set_global("t1", LuaMessage::Table(t)).unwrap();
    let back = act.get_global("t1").unwrap();
    match back {
        LuaMessage::Table(bt) => {
            assert_eq!(bt.len(), 1);
            assert_eq!(bt.get("k"), Some(LuaMessage::String("v".to_string())));
        }
        other => panic!("expected a table, got {:?}", other),
    }
}

#[test]
fn classification_of_incoming_tables() {
    let act = Actor::new_with_handler(None);
    assert_eq!(
        act.eval("{1, 2, 3}"),
        Ok(LuaMessage::Array(vec![
            LuaMessage::Integer(1),
            LuaMessage::Integer(2),
            LuaMessage::Integer(3),
        ]))
    );
    let mixed = act.eval("{1, 2, x = 3}").unwrap();
    match mixed {
        LuaMessage::Table(t) => {
            assert_eq!(t.len(), 3);
            assert_eq!(t.get("1"), Some(LuaMessage::Integer(1)));
            assert_eq!(t.get("2"), Some(LuaMessage::Integer(2)));
            assert_eq!(t.get("x"), Some(LuaMessage::Integer(3)));
        }
        other => panic!("expected a table, got {:?}", other),
    }
    let empty = act.eval("{}").unwrap();
    match empty {
        LuaMessage::Table(t) => assert_eq!(t.len(), 0),
        other => panic!("expected a table, got {:?}", other),
    }
}

#[test]
fn exec_and_eval_results() {
    let act = Actor::new();
    let _ = act.exec_nowait("i = 1");
    assert_eq!(act.get_global("i"), Ok(LuaMessage::Integer(1)));
    assert_eq!(act.eval("3"), Ok(LuaMessage::Integer(3)));
    assert_eq!(act.exec("j = 7"), Ok(LuaMessage::Nil));
    act.stop_handler();
}

#[test]
fn call_round_trip() {
    let act = Actor::new();
    act.exec("function add1(x) return x + 1 end").unwrap();
    assert_eq!(
        act.call("add1", LuaMessage::Integer(1)),
        Ok(LuaMessage::Integer(2))
    );
    act.stop_handler();
}

#[test]
fn call_with_variadic_arguments() {
    let act = Actor::new_with_handler(None);
    act.exec("function sub(a, b) return a - b end").unwrap();
    let args = LuaMessage::Variadic(VariadicLuaMessage::from_vec(vec![
        LuaMessage::Integer(10),
        LuaMessage::Integer(4),
    ]));
    assert_eq!(act.call("sub", args), Ok(LuaMessage::Integer(6)));
}

#[test]
fn multi_value_return_reaches_host_in_order() {
    let act = Actor::new_with_handler(None);
    act.exec("function two() return 1, 'x' end").unwrap();
    assert_eq!(
        act.call("two", LuaMessage::Nil),
        Ok(LuaMessage::Variadic(VariadicLuaMessage::from_vec(vec![
            LuaMessage::Integer(1),
            LuaMessage::String("x".to_string()),
        ])))
    );
}

#[test]
fn host_function_multi_value_return_keeps_order() {
    let act = Actor::new_with_handler(None);
    act.def_fn_with_name_sync(
        |_args: &Vec<LuaMessage>| {
            Ok(MultiLuaMessage::from_slice(vec![
                LuaMessage::Integer(7),
                LuaMessage::String("s".to_string()),
            ]))
        },
        "two_vals",
    )
    .unwrap();
    act.exec("a, b = two_vals()").unwrap();
    assert_eq!(act.get_global("a"), Ok(LuaMessage::Integer(7)));
    assert_eq!(act.get_global("b"), Ok(LuaMessage::String("s".to_string())));
}

#[test]
fn host_functions_receive_converted_arguments() {
    let act = Actor::new_with_handler(None);
    act.def_fn_with_name_sync(
        |args: &Vec<LuaMessage>| {
            let equal = args.len() == 2 && args[0] == args[1];
            Ok(MultiLuaMessage::from(LuaMessage::Boolean(equal)))
        },
        "check_equal",
    )
    .unwrap();
    act.def_fn_with_name_sync(
        |args: &Vec<LuaMessage>| {
            let mut joined = String::new();
            for a in args {
                match a {
                    LuaMessage::String(s) => joined.push_str(s),
                    _ => {
                        return Err(ScriptError::Conversion(
                            "join takes strings".to_string(),
                        ))
                    }
                }
            }
            Ok(MultiLuaMessage::from(LuaMessage::String(joined)))
        },
        "join",
    )
    .unwrap();

    assert_eq!(
        act.eval(r#"check_equal({"a", "b", "c"}, {"a", "b", "c"})"#)
            .unwrap()
            .to_bool(),
        Some(true)
    );
    assert_eq!(
        act.eval(r#"check_equal({"a", "b", "c"}, {"d", "e", "f"})"#)
            .unwrap()
            .to_bool(),
        Some(false)
    );
    assert_eq!(
        act.eval(r#"join("a", "b", "c")"#).unwrap().to_text(),
        Some("abc".to_string())
    );
}

#[test]
fn error_variants() {
    let act = Actor::new_with_handler(None);
    match act.exec("function (") {
        Err(ScriptError::Parse(_)) => {}
        other => panic!("expected a parse error, got {:?}", other),
    }
    match act.exec("error('boom')") {
        Err(ScriptError::Runtime(text)) => assert!(text.contains("boom")),
        other => panic!("expected a runtime error, got {:?}", other),
    }
    match act.call("no_such_function", LuaMessage::Nil) {
        Err(ScriptError::Runtime(_)) => {}
        other => panic!("expected a runtime error, got {:?}", other),
    }
    match act.eval("print") {
        Err(ScriptError::Conversion(_)) => {}
        other => panic!("expected a conversion error, got {:?}", other),
    }
}

#[test]
fn concurrent_callers_get_well_defined_results() {
    let act = Actor::new();
    act.exec("function add1(x) return x + 1 end").unwrap();
    let latch = CountDownLatch::new(3);
    let good_callers = Arc::new(Mutex::new(0usize));
    let mut callers = Vec::new();
    for c in 0..3usize {
        let caller = HandlerThread::new_with_mutex();
        caller.lock().unwrap().start();
        let a = act.clone();
        let l = latch.clone();
        let good2 = good_callers.clone();
        let key = format!("k{}", c);
        caller.lock().unwrap().post(RawFunc::new(move || {
            let mut good = true;
            for i in 0..10i64 {
                if a.set_global(&key, LuaMessage::Integer(i)).is_err() {
                    good = false;
                }
                if a.get_global(&key) != Ok(LuaMessage::Integer(i)) {
                    good = false;
                }
                if a.call("add1", LuaMessage::Integer(i)) != Ok(LuaMessage::Integer(i + 1)) {
                    good = false;
                }
            }
            if good {
                *good2.lock().unwrap() += 1;
            }
            l.countdown();
        }));
        callers.push(caller);
    }
    latch.wait();
    assert_eq!(*good_callers.lock().unwrap(), 3);
    for caller in callers {
        caller.lock().unwrap().stop();
    }
    act.stop_handler();
}

#[test]
fn load_nowait_always_succeeds() {
    let act = Actor::new_with_handler(None);
    assert_eq!(act.load_nowait("i = 1"), Ok(()));
    assert_eq!(act.load_nowait("this is not lua"), Ok(()));
    assert_eq!(act.get_global("i"), Ok(LuaMessage::Integer(1)));
}

#[test]
fn nowait_calls_propagate_errors_only_in_place() {
    let act = Actor::new_with_handler(None);
    assert!(act.exec_nowait("function (").is_err());
    assert!(act.call_nowait("missing_fn", LuaMessage::Nil).is_err());
    assert_eq!(act.exec_nowait("m = 5"), Ok(()));
    assert_eq!(act.get_global("m"), Ok(LuaMessage::Integer(5)));
}

#[test]
fn shared_lua_handle() {
    let mut act = Actor::new_with_handler(None);
    let handle = act.lua();
    act.set_lua(handle);
    act.set_global("z", LuaMessage::Integer(3)).unwrap();
    assert_eq!(act.get_global("z"), Ok(LuaMessage::Integer(3)));
}

#[test]
fn non_contiguous_integer_keys_classify_as_table() {
    let act = Actor::new_with_handler(None);
    let v = act.eval("{[2] = 5}").unwrap();
    match v {
        LuaMessage::Table(t) => {
            assert_eq!(t.len(), 1);
            assert_eq!(t.get("2"), Some(LuaMessage::Integer(5)));
        }
        other => panic!("expected a table, got {:?}", other),
    }
}

#[test]
fn nested_structures_round_trip() {
    let act = Actor::new_with_handler(None);
    let mut inner = LuaTable::new();
    inner.insert("k".to_string(), LuaMessage::Integer(1));
    let msg = LuaMessage::Array(vec![LuaMessage::Table(inner), LuaMessage::Integer(2)]);
    act.set_global("nested", msg.clone()).unwrap();
    assert_eq!(act.get_global("nested"), Ok(msg));
}

#[test]
fn overly_deep_structures_are_conversion_errors() {
    let act = Actor::new_with_handler(None);
    act.exec(
        "t = {}\nlocal cur = t\nfor i = 1, 200 do cur.x = {} cur = cur.x end",
    )
    .unwrap();
    match act.get_global("t") {
        Err(ScriptError::Conversion(_)) => {}
        other => panic!("expected a conversion error, got {:?}", other),
    }
}
