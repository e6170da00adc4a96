use pyclass_cell::wrap::{converter, SomeWrap};

#[test]
fn wrap_option() {
    let a: Option<u8> = SomeWrap::wrap(42);
    assert_eq!(a, Some(42));

    let b: Option<u8> = SomeWrap::wrap(None);
    assert_eq!(b, None);
}

#[test]
fn converters_pass_results_through() {
    let value: Result<u32, String> = Err("boom".to_string());
    let c = converter(&value);
    assert_eq!(c.inner().inner().wrap(value), Err("boom".to_string()));

    let value: Result<u32, String> = Err("boom".to_string());
    let c = converter(&value);
    assert_eq!(c.inner().inner().inner().wrap(value), Err("boom".to_string()));

    let value: Result<u32, String> = Ok(3);
    let c = converter(&value);
    assert_eq!(c.inner().inner().inner().wrap(value), Ok(3));
}

#[test]
fn converters_wrap_plain_values() {
    let plain: u32 = 5;
    let c = converter(&plain);
    assert_eq!(c.inner().inner().inner().wrap(plain), Ok(5));

    let plain = vec![1u8, 2];
    let c = converter(&plain);
    assert_eq!(c.inner().inner().wrap(plain), Ok(vec![1u8, 2]));
}
