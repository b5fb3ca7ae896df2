use ecoproof::weather::{
    basic_auth_header, get_stored_api_key, init_api_key, meteomatics_url, noaa_query, set_api_key,
    weather_by_city_url, ApiKeyError, ApiKeyStore, InitArgs,
};

#[test]
fn api_key_lifecycle() {
    let mut store = init_api_key(None);
    assert_eq!(get_stored_api_key(&store), Err(ApiKeyError::NotConfigured));
    assert_eq!(set_api_key(&mut store, String::new()), Err(ApiKeyError::EmptyKey));
    assert_eq!(get_stored_api_key(&store), Err(ApiKeyError::NotConfigured));
    assert_eq!(set_api_key(&mut store, "k1".to_string()), Ok(()));
    assert_eq!(get_stored_api_key(&store), Ok("k1".to_string()));
    let store = init_api_key(Some(InitArgs { openweather_api_key: "k0".to_string() }));
    assert_eq!(get_stored_api_key(&store), Ok("k0".to_string()));
    let empty = ApiKeyStore { key: None };
    assert!(get_stored_api_key(&empty).is_err());
}

#[test]
fn city_url() {
    assert_eq!(
        weather_by_city_url("Denver", "KEY"),
        "https://api.openweathermap.org/data/2.5/weather?q=Denver&appid=KEY&units=metric"
    );
}

#[test]
fn meteomatics_url_is_percent_encoded() {
    assert_eq!(
        meteomatics_url("2025-03-05T12:00:00Z", "t_2m:C,precip_1h:mm", "39.7791,-104.9707", "json"),
        "https://api.meteomatics.com/2025-03-05T12%3A00%3A00Z/t_2m%3AC%2Cprecip_1h%3Amm/39.7791%2C-104.9707/json"
    );
}

#[test]
fn basic_auth_is_base64() {
    assert_eq!(basic_auth_header("user", "pass"), "Basic dXNlcjpwYXNz");
}

#[test]
fn noaa_query_is_percent_encoded() {
    assert_eq!(
        noaa_query("GHCND", "CO2", "TAVG", "2025-02-23", "2025-03-01", "metric", "10", "40,-105,39,-104"),
        "?datasetid=GHCND&datatypeid=CO2&datatypeid=TAVG&startdate=2025-02-23&enddate=2025-03-01&units=metric&limit=10&extent=40%2C-105%2C39%2C-104&includemetadata=false"
    );
}
