#[test]
fn addition_of_small_numbers() {
    assert_eq!(mini_demos::hello::add(2, 3), 5);
    assert_eq!(mini_demos::hello::add(-1, 1), 0);
    assert_eq!(mini_demos::hello::add(0, 0), 0);
}

#[test]
fn addition_wraps_on_overflow() {
    assert_eq!(mini_demos::hello::add(i32::MAX, 1), i32::MIN);
    assert_eq!(mini_demos::hello::add(i32::MIN, -1), i32::MAX);
}

#[test]
fn greeting_embeds_the_name() {
    let r = mini_demos::hello::greet("World");
    assert_eq!(r, "Hello, World! From Rust WASM! \u{1f980}");
}

#[test]
fn greeting_keeps_unicode_names_intact() {
    let r = mini_demos::hello::greet("S\u{e9}bastien \u{1f30d}");
    assert_eq!(r, "Hello, S\u{e9}bastien \u{1f30d}! From Rust WASM! \u{1f980}");
}

#[test]
fn greeting_of_empty_name() {
    let r = mini_demos::hello::greet("");
    assert_eq!(r, "Hello, ! From Rust WASM! \u{1f980}");
}

#[test]
fn add_and_greet_are_deterministic() {
    assert_eq!(mini_demos::hello::add(17, 25), mini_demos::hello::add(17, 25));
    assert_eq!(mini_demos::hello::greet("World"), mini_demos::hello::greet("World"));
}
