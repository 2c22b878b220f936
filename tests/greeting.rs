use image_greet::greet;

#[test]
fn greet_world() {
    assert_eq!(greet("World"), "Hello, World!");
}

#[test]
fn greet_empty_name() {
    assert_eq!(greet(""), "Hello, !");
}

#[test]
fn greet_non_ascii_name() {
    assert_eq!(greet("Zoë 世界"), "Hello, Zoë 世界!");
}

#[test]
fn greet_twice_gives_same_message() {
    assert_eq!(greet("Ada"), greet("Ada"));
}
