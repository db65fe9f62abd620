use token_contracts::coin::{copy_coins, Coin};
use token_contracts::text::{copy_opt, copy_str, decimal_string, key_less, same_text};

#[test]
fn decimal_string_writes_digits() {
    assert_eq!(decimal_string(0), "0");
    assert_eq!(decimal_string(9), "9");
    assert_eq!(decimal_string(10), "10");
    assert_eq!(decimal_string(1_000_000), "1000000");
    assert_eq!(decimal_string(1234567890), "1234567890");
    assert_eq!(decimal_string(u128::MAX), "340282366920938463463374607431768211455");
    for n in [1u128, 42, 99, 100, 101, 65535, 1 << 64, u128::MAX - 1] {
        assert_eq!(decimal_string(n), n.to_string());
    }
}

#[test]
fn key_order_is_byte_order() {
    let keys =
        ["", "A", "Z", "a", "ab", "abc", "b", "uion", "uosmo", "u\u{e9}", "\u{10348}", "\u{ffff}"];
    for a in keys {
        for b in keys {
            assert_eq!(key_less(a, b), a.as_bytes() < b.as_bytes(), "{:?} < {:?}", a, b);
            assert_eq!(same_text(a, b), a == b);
        }
        assert!(!key_less(a, a));
    }
    assert!(key_less("uion", "uosmo"));
    assert!(!key_less("uosmo", "uion"));
    // a proper prefix comes first, upper case before lower case
    assert!(key_less("uosmo", "uosmo2"));
    assert!(key_less("Uosmo", "uosmo"));
}

#[test]
fn copies_are_equal() {
    assert_eq!(copy_str("abc"), "abc");
    assert_eq!(copy_opt(&Some("x".to_string())), Some("x".to_string()));
    assert_eq!(copy_opt(&None), None);
    let coins = vec![Coin::new(1, "a"), Coin::new(u128::MAX, "b")];
    let copy = copy_coins(&coins);
    assert_eq!(copy.len(), 2);
    assert_eq!(copy[1].denom, "b");
    assert_eq!(copy[1].amount, u128::MAX);
    assert_eq!(coins[0].clone().denom, "a");
}
