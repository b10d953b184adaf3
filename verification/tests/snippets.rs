use guessing_game::enums::{plus_one, route, value_in_cents_state, Coin, IpAddrKind, UsState};
use guessing_game::generics::{largest_char, largest_i32};
use guessing_game::ownership::{
    calculate_length, calculate_length_reference, change, first_word, gives_ownership, no_dangle,
    takes_and_gives_back,
};
use guessing_game::restaurant::{
    eat_at_restaurant, eat_at_restaurant_enum, fix_incorrect_order, Appetizer, Breakfast,
};
use guessing_game::structs::{area, area_struct, area_tuple, build_user, Rectangle};
use guessing_game::validation::{last_char_of_first_line, Guess};

#[test]
fn guess_holds_its_value() {
    let g = Guess::new(50);
    assert_eq!(g.value(), 50);
    assert_eq!(Guess::new(1).value(), 1);
    assert_eq!(Guess::new(100).value(), 100);
}

#[test]
fn last_char_of_first_line_cases() {
    assert_eq!(last_char_of_first_line("Hello, world\nhow are you"), Some('d'));
    assert_eq!(last_char_of_first_line("xyz"), Some('z'));
    assert_eq!(last_char_of_first_line("hi\r\nthere"), Some('i'));
    assert_eq!(last_char_of_first_line(""), None);
    assert_eq!(last_char_of_first_line("\nabc"), None);
    assert_eq!(last_char_of_first_line("\r\nabc"), None);
    // A carriage return is stripped only when a newline ended the line.
    assert_eq!(last_char_of_first_line("abc\r"), Some('\r'));
    assert_eq!(last_char_of_first_line("\r"), Some('\r'));
    assert_eq!(last_char_of_first_line("abc\r\ndef"), Some('c'));
}

#[test]
fn largest_i32_finds_the_maximum() {
    assert_eq!(*largest_i32(&[34, 50, 25, 100, 65]), 100);
    assert_eq!(*largest_i32(&[102, 34, 6000, 89, 54, 2, 43, 8]), 6000);
    assert_eq!(*largest_i32(&[-5, -2, -9]), -2);
    assert_eq!(*largest_i32(&[7]), 7);
}

#[test]
fn largest_char_finds_the_maximum() {
    assert_eq!(*largest_char(&['y', 'm', 'a', 'q']), 'y');
    assert_eq!(*largest_char(&['a']), 'a');
}

#[test]
fn strings_move_and_come_back() {
    assert_eq!(gives_ownership(), "yours");
    assert_eq!(no_dangle(), "hello");
    let s = String::from("hello");
    let s3 = takes_and_gives_back(s);
    assert_eq!(s3, "hello");
}

#[test]
fn lengths_are_counted() {
    let (s, len) = calculate_length(String::from("hello"));
    assert_eq!(s, "hello");
    assert_eq!(len, 5);
    assert_eq!(calculate_length_reference(&String::from("hello")), 5);
    assert_eq!(calculate_length_reference(&String::new()), 0);
    // The length is in bytes: one two-byte character counts as 2.
    let (s, len) = calculate_length(String::from("\u{e9}"));
    assert_eq!(s, "\u{e9}");
    assert_eq!(len, 2);
    assert_eq!(calculate_length_reference(&String::from("caf\u{e9}")), 5);
}

#[test]
fn change_appends_world() {
    let mut s = String::from("hello");
    change(&mut s);
    assert_eq!(s, "hello, world");
}

#[test]
fn first_word_stops_at_the_space() {
    assert_eq!(first_word(&String::from("hello world")), "hello");
    assert_eq!(first_word(&String::from("hello")), "hello");
    assert_eq!(first_word(&String::from(" leading")), "");
    assert_eq!(first_word(&String::from("")), "");
}

#[test]
fn rectangle_geometry() {
    let rect1 = Rectangle { width: 30, height: 50 };
    assert_eq!(rect1.area(), 1500);
    assert!(rect1.width());

    let rect2 = Rectangle { width: 10, height: 40 };
    let rect3 = Rectangle { width: 60, height: 45 };
    assert!(rect1.can_hold(&rect2));
    assert!(!rect1.can_hold(&rect3));
    assert!(!rect2.can_hold(&rect1));

    let sq = Rectangle::square(3);
    assert_eq!(sq.width, 3);
    assert_eq!(sq.height, 3);
    assert_eq!(sq.area(), 9);
    assert!(!Rectangle::square(0).width());
}

#[test]
fn free_area_functions_agree() {
    assert_eq!(area(30, 50), 1500);
    assert_eq!(area_tuple((30, 50)), 1500);
    assert_eq!(area_struct(&Rectangle { width: 30, height: 50 }), 1500);
}

#[test]
fn build_user_fills_the_record() {
    let u = build_user(
        String::from("someone@example.com"),
        String::from("someusername123"),
    );
    assert_eq!(u.email, "someone@example.com");
    assert_eq!(u.username, "someusername123");
    assert!(u.active);
    assert_eq!(u.sign_in_count, 1);
}

#[test]
fn coins_are_worth_their_cents() {
    assert_eq!(value_in_cents_state(Coin::Penny), 1);
    assert_eq!(value_in_cents_state(Coin::Nickel), 5);
    assert_eq!(value_in_cents_state(Coin::Dime), 10);
    assert_eq!(value_in_cents_state(Coin::Quarter(UsState::Alaska)), 25);
    assert_eq!(value_in_cents_state(Coin::Quarter(UsState::Alabama)), 25);
}

#[test]
fn plus_one_increments_through_option() {
    assert_eq!(plus_one(Some(5)), Some(6));
    assert_eq!(plus_one(None), None);
}

#[test]
fn routing_takes_both_kinds() {
    route(IpAddrKind::V4);
    route(IpAddrKind::V6);
}

#[test]
fn restaurant_runs() {
    eat_at_restaurant();
    eat_at_restaurant_enum();
    fix_incorrect_order();
    let order = Appetizer::Soup;
    assert_ne!(order, Appetizer::Salad);
}

#[test]
fn summer_breakfast_has_the_chosen_toast() {
    let mut meal = Breakfast::summer("Rye");
    assert_eq!(meal.toast, "Rye");
    meal.toast = String::from("Wheat");
    assert_eq!(meal.toast, "Wheat");
}
