use ingram::helper::alive_check;

#[test]
fn test_ping_helper() {
    let is_ok = alive_check("127.0.0.1", 1);
    println!("is_ok: {}", is_ok);

    assert_eq!(is_ok, true);
}
