use std::mem::discriminant;

use lua_actor::message::{LuaMessage, LuaTable};
use lua_actor::vm::{message_of_value, value_of_message, VALUE_DEPTH_LIMIT};

#[test]
fn to_lua() {
    // we only check if they have the correct variant
    let lua = rlua::Lua::new();
    assert_eq!(
        discriminant(&value_of_message(&lua, &LuaMessage::Integer(42)).unwrap()),
        discriminant(&rlua::Value::Integer(42))
    );
    assert_eq!(
        discriminant(
            &value_of_message(&lua, &LuaMessage::String("foo".to_string())).unwrap()
        ),
        discriminant(&rlua::Value::String(lua.create_string("foo").unwrap()))
    );
    assert_eq!(
        discriminant(
            &value_of_message(&lua, &LuaMessage::Number((42.5f64).to_bits())).unwrap()
        ),
        discriminant(&rlua::Value::Number(42.5))
    );
    assert_eq!(
        discriminant(&value_of_message(&lua, &LuaMessage::Boolean(true)).unwrap()),
        discriminant(&rlua::Value::Boolean(true))
    );
    assert_eq!(
        discriminant(&value_of_message(&lua, &LuaMessage::Nil).unwrap()),
        discriminant(&rlua::Value::Nil)
    );

    let mut t = LuaTable::new();
    t.insert("bar".to_string(), LuaMessage::from("abc"));
    assert_eq!(
        discriminant(&value_of_message(&lua, &LuaMessage::Table(t)).unwrap()),
        discriminant(&rlua::Value::Table(lua.create_table().unwrap()))
    );
}

#[test]
fn from_lua() {
    // we only check if they have the correct variant
    let lua = rlua::Lua::new();
    assert_eq!(
        discriminant(&message_of_value(&rlua::Value::Integer(42), VALUE_DEPTH_LIMIT).unwrap()),
        discriminant(&LuaMessage::Integer(42))
    );
    assert_eq!(
        discriminant(&message_of_value(&rlua::Value::Number(42.5), VALUE_DEPTH_LIMIT).unwrap()),
        discriminant(&LuaMessage::Number((42.5f64).to_bits()))
    );
    assert_eq!(
        discriminant(
            &message_of_value(
                &rlua::Value::String(lua.create_string("foo").unwrap()),
                VALUE_DEPTH_LIMIT,
            )
            .unwrap()
        ),
        discriminant(&LuaMessage::String("foo".to_string()))
    );
    assert_eq!(
        discriminant(
            &message_of_value(&rlua::Value::Boolean(true), VALUE_DEPTH_LIMIT).unwrap()
        ),
        discriminant(&LuaMessage::Boolean(true))
    );
    assert_eq!(
        discriminant(&message_of_value(&rlua::Value::Nil, VALUE_DEPTH_LIMIT).unwrap()),
        discriminant(&LuaMessage::Nil)
    );

    let mut t = LuaTable::new();
    t.insert("bar".to_string(), LuaMessage::from("abc"));
    assert_eq!(
        discriminant(
            &message_of_value(
                &rlua::Value::Table(lua.create_table().unwrap()),
                VALUE_DEPTH_LIMIT,
            )
            .unwrap()
        ),
        discriminant(&LuaMessage::Table(t))
    );

    let t = vec![LuaMessage::from(1), LuaMessage::from(2)];
    assert_eq!(
        discriminant(
            &message_of_value(
                &rlua::Value::Table(
                    lua.create_sequence_from(vec![1i64, 2i64]).unwrap()
                ),
                VALUE_DEPTH_LIMIT,
            )
            .unwrap()
        ),
        discriminant(&LuaMessage::Array(t.clone()))
    );
}

#[test]
fn scalar_values_convert_exactly() {
    let lua = rlua::Lua::new();
    assert_eq!(
        message_of_value(&rlua::Value::Integer(42), VALUE_DEPTH_LIMIT),
        Ok(LuaMessage::Integer(42))
    );
    assert_eq!(
        message_of_value(&rlua::Value::Number(42.5), VALUE_DEPTH_LIMIT),
        Ok(LuaMessage::Number((42.5f64).to_bits()))
    );
    assert_eq!(
        message_of_value(
            &rlua::Value::String(lua.create_string("foo").unwrap()),
            VALUE_DEPTH_LIMIT,
        ),
        Ok(LuaMessage::String("foo".to_string()))
    );
    assert_eq!(
        message_of_value(&rlua::Value::Boolean(false), VALUE_DEPTH_LIMIT),
        Ok(LuaMessage::Boolean(false))
    );
    assert_eq!(
        message_of_value(&rlua::Value::Nil, VALUE_DEPTH_LIMIT),
        Ok(LuaMessage::Nil)
    );
}
