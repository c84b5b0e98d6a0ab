#[test]
fn lib_it_works() {
    assert_eq!(2 + 2, 4);
}

#[test]
fn mod_it_works() {
    assert_eq!(1 + 1, 2);
}

#[test]
fn web_it_works() {
    assert_eq!(1 + 1, 2);
}
