use daystrom_tui::text::{decimal_string, str_lt};

#[test]
fn str_lt_orders_by_first_difference() {
    assert!(str_lt("a", "b"));
    assert!(!str_lt("b", "a"));
    assert!(str_lt("alpha", "alpine"));
    assert!(!str_lt("alpine", "alpha"));
}

#[test]
fn str_lt_puts_a_prefix_first() {
    assert!(str_lt("", "a"));
    assert!(str_lt("web", "web-1"));
    assert!(!str_lt("web-1", "web"));
    assert!(!str_lt("a", ""));
}

#[test]
fn str_lt_is_irreflexive() {
    assert!(!str_lt("", ""));
    assert!(!str_lt("host", "host"));
}

#[test]
fn str_lt_goes_by_code_point() {
    assert!(str_lt("B", "a"));
    assert!(str_lt("Z", "a"));
    assert!(str_lt("z", "é"));
    assert!(str_lt("é", "€"));
    assert!(str_lt("€", "🟢"));
    assert!(!str_lt("🟢", "€"));
}

#[test]
fn str_lt_agrees_with_the_order_of_str() {
    let words = [
        "", "a", "A", "ab", "abc", "abd", "b", "db", "db-1", "db1", "web", "Web", "zeta", "é", "éa", "日本", "🟢", "10", "9",
        " ", "a b", "a-b", "a_b",
    ];
    for x in words.iter() {
        for y in words.iter() {
            assert_eq!(str_lt(x, y), x < y, "{:?} before {:?}", x, y);
        }
    }
}

#[test]
fn decimal_string_of_one_digit() {
    assert_eq!(decimal_string(0), "0");
    assert_eq!(decimal_string(7), "7");
    assert_eq!(decimal_string(9), "9");
}

#[test]
fn decimal_string_of_many_digits() {
    assert_eq!(decimal_string(10), "10");
    assert_eq!(decimal_string(80), "80");
    assert_eq!(decimal_string(443), "443");
    assert_eq!(decimal_string(1024), "1024");
    assert_eq!(decimal_string(65535), "65535");
    assert_eq!(decimal_string(1234567890), "1234567890");
}

#[test]
fn decimal_string_of_the_largest_number() {
    assert_eq!(decimal_string(u128::MAX), "340282366920938463463374607431768211455");
}

#[test]
fn decimal_string_agrees_with_formatting() {
    let mut n: u128 = 1;
    while n < u128::MAX / 7 {
        assert_eq!(decimal_string(n), format!("{}", n));
        assert_eq!(decimal_string(n - 1), format!("{}", n - 1));
        n = n * 7 + 3;
    }
}
