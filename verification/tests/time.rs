#[test]
fn time_what_is_nan() {
    println!("{}", 0f32 / 0f32);
    println!("{}", f64::NAN == f64::NAN);
    println!("{}", f64::INFINITY == f64::INFINITY);
}
