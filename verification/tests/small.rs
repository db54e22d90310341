use dataset_store::bounds::{Bounds, Point};
use dataset_store::complex::Complex;
use dataset_store::sink::{IsEmoji, Sink};
use std::io::Write;

#[test]
fn sink_test() {
    let mut out = Sink;
    out.write_all(b"hello world\n").unwrap();
    println!("{:}", out.is_emoji());
}

#[test]
fn t() {
    let x = Complex { re: 5, im: 2 };
    let y = Complex { re: 2, im: 5 };
    if x == y {
        println!("X=Y")
    } else {
        println!("X!=Y")
    }
}

#[test]
fn bounds_test() {
    let balloon = Point { x: 2, y: 1 };
    match balloon {
        Point { x: 0, y: height } => println!("straight up {} meters", height),
        Point { x: x, y: y } => println!("at ({}m, {}m)", x, y),
    }
}

#[test]
fn sink_takes_all_it_is_given() {
    let mut out = Sink;
    assert_eq!(out.write(b"hello world\n").unwrap(), 12);
    assert_eq!(out.write(b"").unwrap(), 0);
    assert!(out.flush().is_ok());
    assert!(out.is_emoji());
}

#[test]
fn complex_numbers_add_part_by_part() {
    let sum = Complex { re: 5, im: 2 } + Complex { re: 2, im: 5 };
    assert!(sum == Complex { re: 7, im: 7 });
    assert!(Complex { re: 5, im: 2 } != Complex { re: 2, im: 5 });
    assert!(Complex { re: 5, im: 2 } != Complex { re: 5, im: 3 });
    assert!(Complex { re: 1u8, im: 2u8 } == Complex { re: 1u8, im: 2u8 });
}

#[test]
fn bounds_hold_a_width_and_a_height() {
    let b = Bounds(3, 4);
    assert_eq!(b.0, 3);
    assert_eq!(b.1, 4);
}
