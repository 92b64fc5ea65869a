use ommatidium::text::{push_decimal, push_signed_decimal};
use ommatidium::{
    current_object_id, current_window_id, next_object_id, next_window_id, IdCounters,
};

#[test]
fn ids_start_at_zero_and_count_up() {
    let mut ids = IdCounters::new();
    assert_eq!(current_window_id(&ids), 0);
    assert_eq!(current_object_id(&ids), 0);
    assert_eq!(next_window_id(&mut ids).unwrap(), 0);
    assert_eq!(next_window_id(&mut ids).unwrap(), 1);
    assert_eq!(next_window_id(&mut ids).unwrap(), 2);
    assert_eq!(current_window_id(&ids), 3);
    assert_eq!(current_object_id(&ids), 0);
    assert_eq!(next_object_id(&mut ids).unwrap(), 0);
    assert_eq!(next_object_id(&mut ids).unwrap(), 1);
    assert_eq!(current_object_id(&ids), 2);
    assert_eq!(current_window_id(&ids), 3);
}

#[test]
fn ids_window_counter_stops_at_the_end() {
    let mut ids = IdCounters { window_id: u32::MAX - 1, object_id: 7 };
    assert_eq!(next_window_id(&mut ids).unwrap(), u32::MAX - 1);
    let e = next_window_id(&mut ids).err().unwrap();
    assert_eq!(e.body(), "ommatidium window_id tracker wrapped u32::MAX. Failed State.");
    assert_eq!(current_window_id(&ids), u32::MAX);
    assert_eq!(current_object_id(&ids), 7);
    assert!(next_window_id(&mut ids).is_err());
    assert_eq!(current_window_id(&ids), u32::MAX);
}

#[test]
fn ids_object_counter_stops_at_the_end() {
    let mut ids = IdCounters { window_id: 3, object_id: u32::MAX - 1 };
    assert_eq!(next_object_id(&mut ids).unwrap(), u32::MAX - 1);
    let e = next_object_id(&mut ids).err().unwrap();
    assert_eq!(e.body(), "ommatidium object_id tracker wrapped u32::MAX. Failed State.");
    assert_eq!(current_object_id(&ids), u32::MAX);
    assert_eq!(current_window_id(&ids), 3);
}

#[test]
fn text_decimal_numbers() {
    let mut s = String::from("n=");
    push_decimal(&mut s, 0);
    assert_eq!(s, "n=0");
    s.push_str(",");
    push_decimal(&mut s, 9);
    s.push_str(",");
    push_decimal(&mut s, 10);
    s.push_str(",");
    push_decimal(&mut s, 4096);
    s.push_str(",");
    push_decimal(&mut s, u64::MAX);
    assert_eq!(s, "n=0,9,10,4096,18446744073709551615");
}

#[test]
fn text_signed_decimal_numbers() {
    let mut s = String::new();
    push_signed_decimal(&mut s, 0);
    s.push_str(" ");
    push_signed_decimal(&mut s, -1);
    s.push_str(" ");
    push_signed_decimal(&mut s, 25);
    s.push_str(" ");
    push_signed_decimal(&mut s, i32::MIN);
    s.push_str(" ");
    push_signed_decimal(&mut s, i32::MAX);
    assert_eq!(s, "0 -1 25 -2147483648 2147483647");
}
