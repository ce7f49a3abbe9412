use lua_actor::message::{LuaMessage, LuaTable, MultiLuaMessage, VariadicLuaMessage};

#[test]
fn constructors() {
    assert_eq!(LuaMessage::from(42), LuaMessage::Integer(42));
    assert_eq!(
        LuaMessage::from("foo"),
        LuaMessage::String("foo".to_string())
    );
    assert_eq!(
        LuaMessage::Number((42.5f64).to_bits()),
        LuaMessage::Number((42.5f64).to_bits())
    );
    assert_eq!(LuaMessage::from(true), LuaMessage::Boolean(true));

    let mut t = LuaTable::new();
    t.insert("bar".to_string(), LuaMessage::from("abc"));
    let mut t2 = LuaTable::new();
    t2.insert("bar".to_string(), LuaMessage::from("abc"));
    assert_eq!(LuaMessage::from(t), LuaMessage::Table(t2));
}

#[test]
fn table_insert_replaces_and_get_finds() {
    let mut t = LuaTable::new();
    t.insert("a".to_string(), LuaMessage::Integer(1));
    t.insert("b".to_string(), LuaMessage::Integer(2));
    t.insert("a".to_string(), LuaMessage::Integer(3));
    assert_eq!(t.len(), 2);
    assert_eq!(t.get("a"), Some(LuaMessage::Integer(3)));
    assert_eq!(t.get("b"), Some(LuaMessage::Integer(2)));
    assert_eq!(t.get("c"), None);
}

#[test]
fn to_bool_coercions() {
    assert_eq!(LuaMessage::String("true".to_string()).to_bool(), Some(true));
    assert_eq!(
        LuaMessage::String("false".to_string()).to_bool(),
        Some(false)
    );
    assert_eq!(LuaMessage::String("yes".to_string()).to_bool(), None);
    assert_eq!(LuaMessage::Integer(1).to_bool(), Some(true));
    assert_eq!(LuaMessage::Integer(0).to_bool(), Some(false));
    assert_eq!(LuaMessage::Integer(-3).to_bool(), Some(false));
    assert_eq!(LuaMessage::Number((0.5f64).to_bits()).to_bool(), Some(true));
    assert_eq!(LuaMessage::Number((0.0f64).to_bits()).to_bool(), Some(false));
    assert_eq!(
        LuaMessage::Number((-1.0f64).to_bits()).to_bool(),
        Some(false)
    );
    assert_eq!(LuaMessage::Number(f64::NAN.to_bits()).to_bool(), Some(false));
    assert_eq!(
        LuaMessage::Number(f64::INFINITY.to_bits()).to_bool(),
        Some(true)
    );
    assert_eq!(LuaMessage::Boolean(true).to_bool(), Some(true));
    assert_eq!(LuaMessage::Nil.to_bool(), None);
    assert_eq!(LuaMessage::Table(LuaTable::new()).to_bool(), Some(false));
    assert_eq!(
        LuaMessage::Array(vec![LuaMessage::Nil]).to_bool(),
        Some(true)
    );
}

#[test]
fn to_i64_coercions() {
    assert_eq!(LuaMessage::String("42".to_string()).to_i64(), Some(42));
    assert_eq!(LuaMessage::String("+7".to_string()).to_i64(), Some(7));
    assert_eq!(LuaMessage::String("-13".to_string()).to_i64(), Some(-13));
    assert_eq!(
        LuaMessage::String("9223372036854775807".to_string()).to_i64(),
        Some(i64::MAX)
    );
    assert_eq!(
        LuaMessage::String("-9223372036854775808".to_string()).to_i64(),
        Some(i64::MIN)
    );
    assert_eq!(
        LuaMessage::String("9223372036854775808".to_string()).to_i64(),
        None
    );
    assert_eq!(
        LuaMessage::String("99999999999999999999999".to_string()).to_i64(),
        None
    );
    assert_eq!(LuaMessage::String("".to_string()).to_i64(), None);
    assert_eq!(LuaMessage::String("+".to_string()).to_i64(), None);
    assert_eq!(LuaMessage::String("1 ".to_string()).to_i64(), None);
    assert_eq!(LuaMessage::String("4x".to_string()).to_i64(), None);
    assert_eq!(LuaMessage::Integer(-5).to_i64(), Some(-5));
    assert_eq!(LuaMessage::Number((42.9f64).to_bits()).to_i64(), Some(42));
    assert_eq!(LuaMessage::Number((-2.5f64).to_bits()).to_i64(), Some(-2));
    assert_eq!(LuaMessage::Boolean(true).to_i64(), Some(1));
    assert_eq!(LuaMessage::Boolean(false).to_i64(), Some(0));
    assert_eq!(LuaMessage::Nil.to_i64(), None);
    assert_eq!(LuaMessage::Array(vec![]).to_i64(), None);
}

#[test]
fn to_number_bits_coercions() {
    assert_eq!(
        LuaMessage::String("2.5".to_string()).to_number_bits(),
        Some((2.5f64).to_bits())
    );
    assert_eq!(LuaMessage::String("abc".to_string()).to_number_bits(), None);
    assert_eq!(
        LuaMessage::Integer(3).to_number_bits(),
        Some((3.0f64).to_bits())
    );
    assert_eq!(
        LuaMessage::Number((1.25f64).to_bits()).to_number_bits(),
        Some((1.25f64).to_bits())
    );
    assert_eq!(
        LuaMessage::Boolean(true).to_number_bits(),
        Some((1.0f64).to_bits())
    );
    assert_eq!(
        LuaMessage::Boolean(false).to_number_bits(),
        Some((0.0f64).to_bits())
    );
    assert_eq!(LuaMessage::Nil.to_number_bits(), None);
}

#[test]
fn to_text_coercions() {
    assert_eq!(
        LuaMessage::String("abc".to_string()).to_text(),
        Some("abc".to_string())
    );
    assert_eq!(LuaMessage::Integer(42).to_text(), Some("42".to_string()));
    assert_eq!(LuaMessage::Integer(-7).to_text(), Some("-7".to_string()));
    assert_eq!(
        LuaMessage::Number((42.5f64).to_bits()).to_text(),
        Some("42.5".to_string())
    );
    assert_eq!(
        LuaMessage::Boolean(true).to_text(),
        Some("true".to_string())
    );
    assert_eq!(LuaMessage::Nil.to_text(), None);
    let mut t = LuaTable::new();
    t.insert("k".to_string(), LuaMessage::Integer(1));
    assert_eq!(
        LuaMessage::Table(t).to_text(),
        Some("{k: 1}".to_string())
    );
    assert_eq!(
        LuaMessage::Array(vec![
            LuaMessage::Integer(1),
            LuaMessage::String("a".to_string()),
        ])
        .to_text(),
        Some("[1, \"a\"]".to_string())
    );
}

#[test]
fn to_table_coercions() {
    let t = LuaMessage::Integer(9).to_table().unwrap();
    assert_eq!(t.len(), 1);
    assert_eq!(t.get("x"), Some(LuaMessage::Integer(9)));
    assert_eq!(LuaMessage::Nil.to_table(), None);

    let arr = LuaMessage::Array(vec![
        LuaMessage::String("p".to_string()),
        LuaMessage::String("q".to_string()),
    ]);
    let t = arr.to_table().unwrap();
    assert_eq!(t.len(), 2);
    assert_eq!(t.get("0"), Some(LuaMessage::String("p".to_string())));
    assert_eq!(t.get("1"), Some(LuaMessage::String("q".to_string())));
}

#[test]
fn to_array_coercions() {
    assert_eq!(
        LuaMessage::Boolean(true).to_array(),
        Some(vec![LuaMessage::Boolean(true)])
    );
    assert_eq!(LuaMessage::Nil.to_array(), None);
    let mut t = LuaTable::new();
    t.insert("k".to_string(), LuaMessage::Integer(5));
    assert_eq!(
        LuaMessage::Table(t).to_array(),
        Some(vec![
            LuaMessage::String("k".to_string()),
            LuaMessage::Integer(5),
        ])
    );
    let v = vec![LuaMessage::Integer(1), LuaMessage::Integer(2)];
    assert_eq!(LuaMessage::Array(v.clone()).to_array(), Some(v));
}

#[test]
fn variadic_argument_assembly_keeps_order() {
    // Assembling (1, "a", true): the last element starts the list and the
    // preceding ones are pushed at the front in reverse order.
    let mut multi = MultiLuaMessage::from(LuaMessage::Boolean(true));
    multi.push_front(LuaMessage::String("a".to_string()));
    multi.push_front(LuaMessage::Integer(1));
    let flat = multi.into_values();
    assert_eq!(
        flat,
        vec![
            LuaMessage::Integer(1),
            LuaMessage::String("a".to_string()),
            LuaMessage::Boolean(true),
        ]
    );
}

#[test]
fn multi_from_slice_flattens_in_order() {
    let m = MultiLuaMessage::from_slice(vec![
        LuaMessage::Integer(1),
        LuaMessage::Integer(2),
    ]);
    assert_eq!(
        m.into_values(),
        vec![LuaMessage::Integer(1), LuaMessage::Integer(2)]
    );
}

#[test]
fn variadic_push_front() {
    let mut v = VariadicLuaMessage::from_vec(vec![LuaMessage::Integer(2)]);
    v.push_front(LuaMessage::Integer(1));
    assert_eq!(v.len(), 2);
    assert_eq!(
        LuaMessage::from(v),
        LuaMessage::Array(vec![LuaMessage::Integer(1), LuaMessage::Integer(2)])
    );
}

#[test]
fn collapse_values_rules() {
    assert_eq!(LuaMessage::collapse_values(vec![]), LuaMessage::Nil);
    assert_eq!(
        LuaMessage::collapse_values(vec![LuaMessage::Integer(3)]),
        LuaMessage::Integer(3)
    );
    let two = LuaMessage::collapse_values(vec![
        LuaMessage::Integer(3),
        LuaMessage::Boolean(false),
    ]);
    assert_eq!(
        two,
        LuaMessage::Variadic(VariadicLuaMessage::from_vec(vec![
            LuaMessage::Integer(3),
            LuaMessage::Boolean(false),
        ]))
    );
}

#[test]
fn from_slice_builds_array() {
    let m = LuaMessage::from_slice(vec![LuaMessage::Integer(1), LuaMessage::Nil]);
    assert_eq!(
        m,
        LuaMessage::Array(vec![LuaMessage::Integer(1), LuaMessage::Nil])
    );
}

#[test]
fn message_equality_is_deep() {
    let a = LuaMessage::Array(vec![LuaMessage::String("x".to_string())]);
    let b = LuaMessage::Array(vec![LuaMessage::String("x".to_string())]);
    let c = LuaMessage::Array(vec![LuaMessage::String("y".to_string())]);
    assert_eq!(a, b);
    assert_ne!(a, c);
    assert_ne!(a, LuaMessage::Nil);
}
