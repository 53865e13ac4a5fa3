use wifi_hello::api::{WeatherApi, URL_PREFIX};

#[test]
fn url_is_prefix_then_key() {
    let key = "0123456789abcdef0123456789abcdef";
    let api = WeatherApi::new(key, 42);
    assert_eq!(
        api.url(),
        "https://api.openweathermap.org/data/2.5/weather?lat=45.19&lon=5.72&units=metric&appid=0123456789abcdef0123456789abcdef"
    );
    assert_eq!(api.tls_seed(), 42);
}

#[test]
fn url_with_empty_key_is_the_prefix() {
    let api = WeatherApi::new("", u64::MAX);
    assert_eq!(api.url(), URL_PREFIX);
    assert_eq!(api.tls_seed(), u64::MAX);
}

#[test]
fn url_fills_the_buffer_exactly() {
    assert_eq!(URL_PREFIX.len(), 86);
    let key = "k".repeat(120 - URL_PREFIX.len());
    let api = WeatherApi::new(&key, 7);
    assert_eq!(api.url().len(), 120);
    assert!(api.url().ends_with(key.as_str()));
}
