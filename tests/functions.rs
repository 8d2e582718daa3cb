use vdbe::cast::{
    exec_cast, exec_random, exec_randomblob, exec_replace, exec_sign, exec_zeroblob,
    execute_sqlite_version, next_rowid, random_rowid, Affinity,
};
use vdbe::functions::{
    exec_abs, exec_char, exec_concat_strings, exec_concat_ws, exec_hex, exec_instr, exec_length,
    exec_lower, exec_ltrim, exec_max, exec_min, exec_nullif, exec_octet_length, exec_quote,
    exec_rtrim, exec_substring, exec_trim, exec_typeof, exec_unhex, exec_unicode, exec_upper,
};
use vdbe::interp::exec_if;
use vdbe::soundex::exec_soundex;
use vdbe::state::{Bitfield, Register};
use vdbe::value::{compare_values, Real, Value};
use vdbe::vm::VmError;

fn float(x: f64) -> Value {
    Value::Float(Real {
        bits: x.to_bits(),
        text: format!("{:?}", x).chars().collect(),
    })
}

fn text(s: &str) -> Value {
    Value::build_text(s)
}

#[test]
fn test_length() {
    let input_str = text("bob");
    let expected_len = Value::Integer(3);
    assert_eq!(exec_length(&input_str), expected_len);

    let input_integer = Value::Integer(123);
    let expected_len = Value::Integer(3);
    assert_eq!(exec_length(&input_integer), expected_len);

    let input_float = float(123.456);
    let expected_len = Value::Integer(7);
    assert_eq!(exec_length(&input_float), expected_len);

    let expected_blob = Value::Blob("example".as_bytes().to_vec());
    let expected_len = Value::Integer(7);
    assert_eq!(exec_length(&expected_blob), expected_len);
}

#[test]
fn octet_length_counts_utf8_bytes() {
    assert_eq!(exec_octet_length(&text("héllo")), Value::Integer(6));
    assert_eq!(exec_octet_length(&Value::Integer(-12)), Value::Integer(3));
    assert_eq!(exec_octet_length(&Value::Null), Value::Null);
}

#[test]
fn test_quote() {
    let input = text("abc\0edf");
    let expected = text("'abc'");
    assert_eq!(exec_quote(&input), expected);

    let input = Value::Integer(123);
    let expected = Value::Integer(123);
    assert_eq!(exec_quote(&input), expected);

    let input = text("hello''world");
    let expected = text("'hello''''world'");
    assert_eq!(exec_quote(&input), expected);
}

#[test]
fn quote_of_null_and_blob() {
    assert_eq!(exec_quote(&Value::Null), text("NULL"));
    assert_eq!(exec_quote(&Value::Blob(vec![0x0a, 0xff])), text("X'0AFF'"));
}

#[test]
fn test_typeof() {
    let input = Value::Null;
    let expected = text("null");
    assert_eq!(exec_typeof(&input), expected);

    let input = Value::Integer(123);
    let expected = text("integer");
    assert_eq!(exec_typeof(&input), expected);

    let input = float(123.456);
    let expected = text("real");
    assert_eq!(exec_typeof(&input), expected);

    let input = text("hello");
    let expected = text("text");
    assert_eq!(exec_typeof(&input), expected);

    let input = Value::Blob("limbo".as_bytes().to_vec());
    let expected = text("blob");
    assert_eq!(exec_typeof(&input), expected);
}

#[test]
fn test_unicode() {
    assert_eq!(exec_unicode(&text("a")), Value::Integer(97));
    assert_eq!(exec_unicode(&text("😊")), Value::Integer(128522));
    assert_eq!(exec_unicode(&text("")), Value::Null);
    assert_eq!(exec_unicode(&Value::Integer(23)), Value::Integer(50));
    assert_eq!(exec_unicode(&Value::Integer(0)), Value::Integer(48));
    assert_eq!(exec_unicode(&float(0.0)), Value::Integer(48));
    assert_eq!(exec_unicode(&float(23.45)), Value::Integer(50));
    assert_eq!(exec_unicode(&Value::Null), Value::Null);
    assert_eq!(
        exec_unicode(&Value::Blob("example".as_bytes().to_vec())),
        Value::Integer(101)
    );
}

#[test]
fn test_min_max() {
    let input_int_vec = vec![
        Register::OwnedValue(Value::Integer(-1)),
        Register::OwnedValue(Value::Integer(10)),
    ];
    assert_eq!(exec_min(&input_int_vec), Value::Integer(-1));
    assert_eq!(exec_max(&input_int_vec), Value::Integer(10));

    let str1 = Register::OwnedValue(text("A"));
    let str2 = Register::OwnedValue(text("z"));
    let input_str_vec = vec![str2, str1.clone()];
    assert_eq!(exec_min(&input_str_vec), text("A"));
    assert_eq!(exec_max(&input_str_vec), text("z"));

    let input_null_vec = vec![
        Register::OwnedValue(Value::Null),
        Register::OwnedValue(Value::Null),
    ];
    assert_eq!(exec_min(&input_null_vec), Value::Null);
    assert_eq!(exec_max(&input_null_vec), Value::Null);

    let input_mixed_vec = vec![Register::OwnedValue(Value::Integer(10)), str1];
    assert_eq!(exec_min(&input_mixed_vec), Value::Integer(10));
    assert_eq!(exec_max(&input_mixed_vec), text("A"));
}

#[test]
fn min_max_of_nothing_is_null() {
    assert_eq!(exec_min(&[]), Value::Null);
    assert_eq!(exec_max(&[]), Value::Null);
}

#[test]
fn test_trim() {
    let input_str = text("     Bob and Alice     ");
    let expected_str = text("Bob and Alice");
    assert_eq!(exec_trim(&input_str, None), expected_str);

    let input_str = text("     Bob and Alice     ");
    let pattern_str = text("Bob and");
    let expected_str = text("Alice");
    assert_eq!(exec_trim(&input_str, Some(&pattern_str)), expected_str);
}

#[test]
fn test_ltrim() {
    let input_str = text("     Bob and Alice     ");
    let expected_str = text("Bob and Alice     ");
    assert_eq!(exec_ltrim(&input_str, None), expected_str);

    let input_str = text("     Bob and Alice     ");
    let pattern_str = text("Bob and");
    let expected_str = text("Alice     ");
    assert_eq!(exec_ltrim(&input_str, Some(&pattern_str)), expected_str);
}

#[test]
fn test_rtrim() {
    let input_str = text("     Bob and Alice     ");
    let expected_str = text("     Bob and Alice");
    assert_eq!(exec_rtrim(&input_str, None), expected_str);

    let input_str = text("     Bob and Alice     ");
    let pattern_str = text("Bob and");
    let expected_str = text("     Bob and Alice");
    assert_eq!(exec_rtrim(&input_str, Some(&pattern_str)), expected_str);

    let input_str = text("     Bob and Alice     ");
    let pattern_str = text("and Alice");
    let expected_str = text("     Bob");
    assert_eq!(exec_rtrim(&input_str, Some(&pattern_str)), expected_str);
}

#[test]
fn test_soundex() {
    let cases = [
        ("Pfister", "P236"),
        ("husobee", "H210"),
        ("Tymczak", "T522"),
        ("Ashcraft", "A261"),
        ("Robert", "R163"),
        ("Rupert", "R163"),
        ("Rubin", "R150"),
        ("Kant", "K530"),
        ("Knuth", "K530"),
        ("x", "X000"),
        ("闪电五连鞭", "?000"),
    ];
    for (input, expected) in cases {
        assert_eq!(exec_soundex(&text(input)), text(expected));
    }
}

#[test]
fn soundex_rejects_non_letters() {
    assert_eq!(exec_soundex(&text("Rob3rt")), text("?000"));
    assert_eq!(exec_soundex(&Value::Integer(7)), text("?000"));
    assert_eq!(exec_soundex(&Value::Null), text("?000"));
    assert_eq!(exec_soundex(&text("")), text("0000"));
    assert_eq!(exec_soundex(&text("Robert")), exec_soundex(&text("Rupert")));
}

#[test]
fn test_upper_case() {
    let input_str = text("Limbo");
    let expected_str = text("LIMBO");
    assert_eq!(exec_upper(&input_str).unwrap(), expected_str);

    let input_int = Value::Integer(10);
    assert_eq!(exec_upper(&input_int).unwrap(), input_int);
    assert_eq!(exec_upper(&Value::Null).unwrap(), Value::Null)
}

#[test]
fn test_lower_case() {
    let input_str = text("Limbo");
    let expected_str = text("limbo");
    assert_eq!(exec_lower(&input_str).unwrap(), expected_str);

    let input_int = Value::Integer(10);
    assert_eq!(exec_lower(&input_int).unwrap(), input_int);
    assert_eq!(exec_lower(&Value::Null).unwrap(), Value::Null)
}

#[test]
fn test_hex() {
    let input_str = text("limbo");
    let expected_val = text("6C696D626F");
    assert_eq!(exec_hex(&input_str), expected_val);

    let input_int = Value::Integer(100);
    let expected_val = text("313030");
    assert_eq!(exec_hex(&input_int), expected_val);

    let input_float = float(12.34);
    let expected_val = text("31322E3334");
    assert_eq!(exec_hex(&input_float), expected_val);
}

#[test]
fn test_unhex() {
    let input = text("6f");
    let expected = Value::Blob(vec![0x6f]);
    assert_eq!(exec_unhex(&input, None), expected);

    let input = text("6f");
    let expected = Value::Blob(vec![0x6f]);
    assert_eq!(exec_unhex(&input, None), expected);

    let input = text("611");
    let expected = Value::Null;
    assert_eq!(exec_unhex(&input, None), expected);

    let input = text("");
    let expected = Value::Blob(vec![]);
    assert_eq!(exec_unhex(&input, None), expected);

    let input = text("61x");
    let expected = Value::Null;
    assert_eq!(exec_unhex(&input, None), expected);

    let input = Value::Null;
    let expected = Value::Null;
    assert_eq!(exec_unhex(&input, None), expected);
}

#[test]
fn unhex_strips_ignored_characters() {
    assert_eq!(
        exec_unhex(&text("--6f--"), Some(&text("-"))),
        Value::Blob(vec![0x6f])
    );
    assert_eq!(exec_unhex(&text("6f"), Some(&Value::Integer(1))), Value::Null);
}

#[test]
fn test_abs() {
    let int_positive_reg = Value::Integer(10);
    let int_negative_reg = Value::Integer(-10);
    assert_eq!(exec_abs(&int_positive_reg).unwrap(), int_positive_reg);
    assert_eq!(exec_abs(&int_negative_reg).unwrap(), int_positive_reg);

    let float_positive_reg = Value::Integer(10);
    let float_negative_reg = Value::Integer(-10);
    assert_eq!(exec_abs(&float_positive_reg).unwrap(), float_positive_reg);
    assert_eq!(exec_abs(&float_negative_reg).unwrap(), float_positive_reg);

    assert_eq!(exec_abs(&text("a")).unwrap(), float(0.0));
    assert_eq!(exec_abs(&Value::Null).unwrap(), Value::Null);

    assert!(exec_abs(&Value::Integer(i64::MIN)).is_err());
}

#[test]
fn abs_of_reals_and_overflow_error() {
    assert_eq!(exec_abs(&float(-2.5)).unwrap(), float(2.5));
    assert_eq!(exec_abs(&float(2.5)).unwrap(), float(2.5));
    assert_eq!(exec_abs(&Value::Integer(i64::MIN)), Err(VmError::IntegerOverflow));
}

#[test]
fn test_char() {
    assert_eq!(
        exec_char(&[
            Register::OwnedValue(Value::Integer(108)),
            Register::OwnedValue(Value::Integer(105))
        ]),
        text("li")
    );
    assert_eq!(exec_char(&[]), text(""));
    assert_eq!(exec_char(&[Register::OwnedValue(Value::Null)]), text(""));
    assert_eq!(exec_char(&[Register::OwnedValue(text("a"))]), text(""));
}

#[test]
fn test_random() {
    match exec_random() {
        Some(Value::Integer(value)) => {
            assert!((i64::MIN..=i64::MAX).contains(&value), "Random number out of range");
        }
        _ => panic!("exec_random did not return an Integer variant"),
    }
}

#[test]
fn test_exec_randomblob() {
    let cases = vec![
        (Value::Integer(5), 5),
        (Value::Integer(0), 1),
        (Value::Integer(-1), 1),
        (text(""), 1),
        (text("5"), 5),
        (text("0"), 1),
        (text("-1"), 1),
        (float(2.9), 2),
        (float(-3.15), 1),
        (Value::Null, 1),
    ];
    for (input, expected_len) in &cases {
        match exec_randomblob(input) {
            Some(Value::Blob(blob)) => assert_eq!(blob.len(), *expected_len),
            _ => panic!("exec_randomblob did not return a Blob variant"),
        }
    }
}

#[test]
fn test_exec_if() {
    let reg = Value::Integer(0);
    assert!(!exec_if(&reg, false, false));
    assert!(exec_if(&reg, false, true));

    let reg = Value::Integer(1);
    assert!(exec_if(&reg, false, false));
    assert!(!exec_if(&reg, false, true));

    let reg = Value::Null;
    assert!(!exec_if(&reg, false, false));
    assert!(!exec_if(&reg, false, true));

    let reg = Value::Null;
    assert!(exec_if(&reg, true, false));
    assert!(exec_if(&reg, true, true));

    let reg = Value::Null;
    assert!(!exec_if(&reg, false, false));
    assert!(!exec_if(&reg, false, true));
}

#[test]
fn test_nullif() {
    assert_eq!(exec_nullif(&Value::Integer(1), &Value::Integer(1)), Value::Null);
    assert_eq!(exec_nullif(&float(1.1), &float(1.1)), Value::Null);
    assert_eq!(exec_nullif(&text("limbo"), &text("limbo")), Value::Null);

    assert_eq!(exec_nullif(&Value::Integer(1), &Value::Integer(2)), Value::Integer(1));
    assert_eq!(exec_nullif(&float(1.1), &float(1.2)), float(1.1));
    assert_eq!(exec_nullif(&text("limbo"), &text("limb")), text("limbo"));
}

#[test]
fn test_substring() {
    let str_value = text("limbo");
    let start_value = Value::Integer(1);
    let length_value = Value::Integer(3);
    let expected_val = text("lim");
    assert_eq!(exec_substring(&str_value, &start_value, Some(&length_value)), expected_val);

    let str_value = text("limbo");
    let start_value = Value::Integer(1);
    let length_value = Value::Integer(10);
    let expected_val = text("limbo");
    assert_eq!(exec_substring(&str_value, &start_value, Some(&length_value)), expected_val);

    let str_value = text("limbo");
    let start_value = Value::Integer(10);
    let length_value = Value::Integer(3);
    let expected_val = text("");
    assert_eq!(exec_substring(&str_value, &start_value, Some(&length_value)), expected_val);

    let str_value = text("limbo");
    let start_value = Value::Integer(3);
    let length_value = Value::Null;
    let expected_val = text("mbo");
    assert_eq!(exec_substring(&str_value, &start_value, Some(&length_value)), expected_val);

    let str_value = text("limbo");
    let start_value = Value::Integer(10);
    let length_value = Value::Null;
    let expected_val = text("");
    assert_eq!(exec_substring(&str_value, &start_value, Some(&length_value)), expected_val);
}

#[test]
fn substring_from_the_end_and_backwards() {
    assert_eq!(exec_substring(&text("limbo"), &Value::Integer(-3), None), text("mbo"));
    assert_eq!(
        exec_substring(&text("limbo"), &Value::Integer(4), Some(&Value::Integer(-2))),
        text("im")
    );
    assert_eq!(exec_substring(&Value::Integer(5), &Value::Integer(1), None), Value::Null);
}

#[test]
fn test_exec_instr() {
    let cases = vec![
        (text("limbo"), text("im"), Value::Integer(2)),
        (text("limbo"), text("limbo"), Value::Integer(1)),
        (text("limbo"), text("o"), Value::Integer(5)),
        (text("liiiiimbo"), text("ii"), Value::Integer(2)),
        (text("limbo"), text("limboX"), Value::Integer(0)),
        (text("limbo"), text(""), Value::Integer(1)),
        (text(""), text("limbo"), Value::Integer(0)),
        (text(""), text(""), Value::Integer(1)),
        (Value::Null, Value::Null, Value::Null),
        (text("limbo"), Value::Null, Value::Null),
        (Value::Null, text("limbo"), Value::Null),
        (Value::Integer(123), Value::Integer(2), Value::Integer(2)),
        (Value::Integer(123), Value::Integer(5), Value::Integer(0)),
        (float(12.34), float(2.3), Value::Integer(2)),
        (float(12.34), float(5.6), Value::Integer(0)),
        (float(12.34), text("."), Value::Integer(3)),
        (Value::Blob(vec![1, 2, 3, 4, 5]), Value::Blob(vec![3, 4]), Value::Integer(3)),
        (Value::Blob(vec![1, 2, 3, 4, 5]), Value::Blob(vec![3, 2]), Value::Integer(0)),
        (Value::Blob(vec![0x61, 0x62, 0x63, 0x64, 0x65]), text("cd"), Value::Integer(3)),
        (text("abcde"), Value::Blob(vec![0x63, 0x64]), Value::Integer(3)),
    ];
    for (input, pattern, expected) in cases {
        assert_eq!(exec_instr(&input, &pattern), expected);
    }
}

#[test]
fn test_exec_sign() {
    let cases = vec![
        (Value::Integer(42), Some(Value::Integer(1))),
        (Value::Integer(-42), Some(Value::Integer(-1))),
        (Value::Integer(0), Some(Value::Integer(0))),
        (float(0.0), Some(Value::Integer(0))),
        (float(0.1), Some(Value::Integer(1))),
        (float(42.0), Some(Value::Integer(1))),
        (float(-42.0), Some(Value::Integer(-1))),
        (text("abc"), Some(Value::Null)),
        (text("42"), Some(Value::Integer(1))),
        (text("-42"), Some(Value::Integer(-1))),
        (text("0"), Some(Value::Integer(0))),
        (Value::Blob(b"abc".to_vec()), Some(Value::Null)),
        (Value::Blob(b"42".to_vec()), Some(Value::Integer(1))),
        (Value::Blob(b"-42".to_vec()), Some(Value::Integer(-1))),
        (Value::Blob(b"0".to_vec()), Some(Value::Integer(0))),
        (Value::Null, Some(Value::Null)),
    ];
    for (input, expected) in cases {
        assert_eq!(exec_sign(&input), expected);
    }
}

#[test]
fn sign_of_real_literal_text_is_left_to_the_host() {
    assert_eq!(exec_sign(&text("-1.5e3")), None);
    assert_eq!(exec_sign(&text("inf")), None);
    assert_eq!(exec_sign(&text("1.5x")), Some(Value::Null));
    assert_eq!(exec_sign(&Value::Blob(vec![0xff])), Some(Value::Null));
}

#[test]
fn test_exec_zeroblob() {
    let cases = vec![
        (Value::Integer(0), vec![]),
        (Value::Null, vec![]),
        (Value::Integer(4), vec![0; 4]),
        (Value::Integer(-1), vec![]),
        (text("5"), vec![0; 5]),
        (text("-5"), vec![]),
        (text("text"), vec![]),
        (float(2.6), vec![0; 2]),
        (Value::Blob(vec![1]), vec![]),
    ];
    for (input, expected) in cases {
        assert_eq!(exec_zeroblob(&input), Value::Blob(expected));
    }
}

#[test]
fn test_execute_sqlite_version() {
    let version_integer = 3046001;
    let expected = "3.46.1";
    assert_eq!(execute_sqlite_version(version_integer), expected);
}

#[test]
fn sqlite_version_of_negative_number_keeps_signs() {
    assert_eq!(execute_sqlite_version(-3046001), "-3.-46.-1");
}

#[test]
fn test_replace() {
    let cases = vec![
        (text("bob"), text("b"), text("a"), text("aoa")),
        (text("bob"), text("b"), text(""), text("o")),
        (text("bob"), text("b"), text("abc"), text("abcoabc")),
        (text("bob"), text("a"), text("b"), text("bob")),
        (text("bob"), text(""), text("a"), text("bob")),
        (text("bob"), Value::Null, text("a"), Value::Null),
        (text("bo5"), Value::Integer(5), text("a"), text("boa")),
        (text("bo5.0"), float(5.0), text("a"), text("boa")),
        (text("bo5"), float(5.0), text("a"), text("bo5")),
        (text("bo5.0"), float(5.0), float(6.0), text("bo6.0")),
        (text("tes3"), Value::Integer(3), float(0.3), text("tes0.3")),
    ];
    for (source, pattern, replacement, expected) in cases {
        assert_eq!(exec_replace(&source, &pattern, &replacement), expected);
    }
}

#[test]
fn replace_with_empty_pattern_is_identity() {
    for source in ["", "x", "hello world", "ééé"] {
        for replacement in ["", "zz"] {
            assert_eq!(exec_replace(&text(source), &text(""), &text(replacement)), text(source));
        }
    }
}

#[test]
fn test_bitfield() {
    let mut bitfield = Bitfield::new(256);
    for i in 0..256 {
        bitfield.set(i);
        assert!(bitfield.get(i));
        for j in 0..i {
            assert!(bitfield.get(j));
        }
        for j in i + 1..256 {
            assert!(!bitfield.get(j));
        }
    }
    for i in 0..256 {
        bitfield.unset(i);
        assert!(!bitfield.get(i));
    }
}

#[test]
fn cast_examples() {
    for a in [Affinity::Integer, Affinity::Text, Affinity::Blob, Affinity::Real, Affinity::Numeric] {
        assert_eq!(exec_cast(&Value::Null, a), Some(Value::Null));
    }
    assert_eq!(exec_cast(&text("123abc"), Affinity::Integer), Some(Value::Integer(123)));
    assert_eq!(exec_cast(&text("  -42"), Affinity::Integer), Some(Value::Integer(-42)));
    assert_eq!(exec_cast(&text("abc"), Affinity::Integer), Some(Value::Integer(0)));
    assert_eq!(exec_cast(&float(2.9), Affinity::Integer), Some(Value::Integer(2)));
    assert_eq!(exec_cast(&float(-2.9), Affinity::Integer), Some(Value::Integer(-2)));
    assert_eq!(exec_cast(&float(1e300), Affinity::Integer), Some(Value::Integer(i64::MAX)));
    assert_eq!(exec_cast(&float(-1e300), Affinity::Integer), Some(Value::Integer(i64::MIN)));
    assert_eq!(exec_cast(&float(f64::NAN), Affinity::Integer), Some(Value::Integer(0)));
    assert_eq!(
        exec_cast(&float(i64::MAX as f64), Affinity::Integer),
        Some(Value::Integer(i64::MAX))
    );
    assert_eq!(exec_cast(&text("99999999999999999999"), Affinity::Integer), Some(Value::Integer(i64::MAX)));
    assert_eq!(exec_cast(&Value::Integer(-7), Affinity::Text), Some(text("-7")));
    assert_eq!(exec_cast(&text("hi"), Affinity::Blob), Some(Value::Blob(b"hi".to_vec())));
    assert_eq!(exec_cast(&Value::Integer(3), Affinity::Real), None);
    assert_eq!(exec_cast(&text("12"), Affinity::Numeric), Some(Value::Integer(12)));
    assert_eq!(exec_cast(&text("1.5"), Affinity::Numeric), None);
    assert_eq!(exec_cast(&float(1.5), Affinity::Numeric), Some(float(1.5)));
}

#[test]
fn concat_and_concat_ws() {
    let regs = vec![
        Register::OwnedValue(text("a")),
        Register::OwnedValue(Value::Null),
        Register::OwnedValue(Value::Integer(1)),
    ];
    assert_eq!(exec_concat_strings(&regs), text("a1"));
    let regs = vec![
        Register::OwnedValue(text(", ")),
        Register::OwnedValue(text("a")),
        Register::OwnedValue(Value::Integer(1)),
        Register::OwnedValue(float(2.5)),
    ];
    assert_eq!(exec_concat_ws(&regs), text("a, 1, 2.5"));
    assert_eq!(exec_concat_ws(&[]), Value::Null);
    assert_eq!(exec_concat_ws(&[Register::OwnedValue(Value::Null)]), Value::Null);
}

#[test]
fn value_order_across_classes() {
    let ordered = vec![
        Value::Null,
        Value::Integer(-5),
        float(-4.5),
        Value::Integer(1),
        float(1.5),
        Value::Integer(2),
        text("A"),
        text("a"),
        Value::Blob(vec![0]),
    ];
    for (i, a) in ordered.iter().enumerate() {
        for (j, b) in ordered.iter().enumerate() {
            let expected = (i as i64 - j as i64).signum() as i8;
            assert_eq!(compare_values(a, b), expected, "{:?} vs {:?}", a, b);
            assert_eq!(compare_values(a, b), -compare_values(b, a));
        }
    }
    assert_eq!(compare_values(&Value::Integer(3), &float(3.0)), 0);
    assert_eq!(compare_values(&float(0.0), &float(-0.0)), 0);
    assert_eq!(compare_values(&Value::Integer(i64::MIN), &float(-9223372036854775808.0)), 0);
    assert_eq!(compare_values(&Value::Integer(i64::MAX), &float(9223372036854775808.0)), -1);
}

#[test]
fn new_rowid_follows_the_largest() {
    assert_eq!(next_rowid(None), Some(1));
    assert_eq!(next_rowid(Some(41)), Some(42));
    assert_eq!(next_rowid(Some(i64::MAX)), None);
    assert!(random_rowid().unwrap() >= 1);
}
