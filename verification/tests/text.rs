use sysutils::text::{push_decimal, push_dotted_quad, to_decimal, Ipv4Address};

#[test]
fn decimal_of_small_and_large_numbers() {
    assert_eq!(to_decimal(0), "0");
    assert_eq!(to_decimal(7), "7");
    assert_eq!(to_decimal(10), "10");
    assert_eq!(to_decimal(1234567890), "1234567890");
    assert_eq!(to_decimal(u64::MAX), "18446744073709551615");
}

#[test]
fn decimal_agrees_with_the_standard_library() {
    let mut n: u64 = 1;
    for _ in 0..64 {
        assert_eq!(to_decimal(n), n.to_string());
        assert_eq!(to_decimal(n - 1), (n - 1).to_string());
        n = n.wrapping_mul(3).wrapping_add(1);
    }
}

#[test]
fn push_decimal_appends() {
    let mut s = String::from("n=");
    push_decimal(&mut s, 405);
    assert_eq!(s, "n=405");
}

#[test]
fn dotted_quad_of_an_address() {
    assert_eq!(Ipv4Address::new(192, 168, 50, 87).to_text(), "192.168.50.87");
    assert_eq!(Ipv4Address::new(0, 0, 0, 0).to_text(), "0.0.0.0");
    assert_eq!(Ipv4Address::new(255, 255, 255, 255).to_text(), "255.255.255.255");
    let mut s = String::from("from ");
    push_dotted_quad(&mut s, Ipv4Address::new(10, 0, 0, 1));
    assert_eq!(s, "from 10.0.0.1");
}
