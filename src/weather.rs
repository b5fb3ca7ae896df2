//! Settings and requests of the outbound weather service.
use vstd::prelude::*;
use vstd::string::*;
use crate::external::{base64_of_text, base64_text, url_encode, url_encoded};

verus! {

/// One weather condition of the provider's answer.
pub struct WeatherCondition {
    pub id: u32,
    pub main: String,
    pub description: String,
    pub icon: String,
}

/// Cloud cover, in percent.
pub struct WeatherClouds {
    pub all: u32,
}

/// Country, sunrise and sunset of the provider's answer.
pub struct WeatherSys {
    pub country: String,
    pub sunrise: u64,
    pub sunset: u64,
}

/// What the service is started with.
pub struct InitArgs {
    pub openweather_api_key: String,
}

/// Why the key store refused.
#[derive(PartialEq, Eq, Structural, Clone, Copy, Debug)]
pub enum ApiKeyError {
    /// A key must not be empty.
    EmptyKey,
    /// No key has been configured.
    NotConfigured,
}

/// The provider's API key, once configured.
pub struct ApiKeyStore {
    pub key: Option<String>,
}

/// A store holding the key of `args`, if any was given.
pub fn init_api_key(args: Option<InitArgs>) -> (r: ApiKeyStore)
    ensures
        r.key == match args {
            Some(a) => Some(a.openweather_api_key),
            None => None::<String>,
        },
{
    match args {
        Some(a) => ApiKeyStore { key: Some(a.openweather_api_key) },
        None => ApiKeyStore { key: None },
    }
}

/// Replaces the key; an empty key is refused and changes nothing.
pub fn set_api_key(store: &mut ApiKeyStore, api_key: String) -> (r: Result<(), ApiKeyError>)
    ensures
        api_key@.len() == 0 ==> r == Err::<(), ApiKeyError>(ApiKeyError::EmptyKey)
            && final(store).key == old(store).key,
        api_key@.len() > 0 ==> r is Ok && final(store).key == Some(api_key),
{
    if api_key.as_str().is_empty() {
        return Err(ApiKeyError::EmptyKey);
    }
    store.key = Some(api_key);
    Ok(())
}

/// The configured key.
pub fn get_stored_api_key(store: &ApiKeyStore) -> (r: Result<String, ApiKeyError>)
    ensures
        r == match store.key {
            Some(k) => Ok::<String, ApiKeyError>(k),
            None => Err(ApiKeyError::NotConfigured),
        },
{
    match &store.key {
        Some(k) => Ok(k.clone()),
        None => Err(ApiKeyError::NotConfigured),
    }
}

/// The provider's current-weather request for a city, in metric units.
pub open spec fn city_weather_url(city: Seq<char>, api_key: Seq<char>) -> Seq<char> {
    "https://api.openweathermap.org/data/2.5/weather?q="@ + city + "&appid="@ + api_key
        + "&units=metric"@
}

pub fn weather_by_city_url(city: &str, api_key: &str) -> (r: String)
    ensures
        r@ == city_weather_url(city@, api_key@),
{
    let mut url = String::from_str("https://api.openweathermap.org/data/2.5/weather?q=");
    url.append(city);
    url.append("&appid=");
    url.append(api_key);
    url.append("&units=metric");
    url
}

/// The Meteomatics request for one time, parameter list, location list and
/// response format, each percent-encoded.
pub open spec fn meteomatics_url_of(
    valid_datetime: Seq<char>,
    parameters: Seq<char>,
    locations: Seq<char>,
    response_format: Seq<char>,
) -> Seq<char> {
    "https://api.meteomatics.com/"@ + url_encoded(valid_datetime) + "/"@ + url_encoded(parameters)
        + "/"@ + url_encoded(locations) + "/"@ + url_encoded(response_format)
}

pub fn meteomatics_url(
    valid_datetime: &str,
    parameters: &str,
    locations: &str,
    response_format: &str,
) -> (r: String)
    ensures
        r@ == meteomatics_url_of(valid_datetime@, parameters@, locations@, response_format@),
{
    let mut url = String::from_str("https://api.meteomatics.com/");
    let a = url_encode(valid_datetime);
    url.append(a.as_str());
    url.append("/");
    let b = url_encode(parameters);
    url.append(b.as_str());
    url.append("/");
    let c = url_encode(locations);
    url.append(c.as_str());
    url.append("/");
    let d = url_encode(response_format);
    url.append(d.as_str());
    url
}

/// The HTTP Basic authorization value for a user name and password.
pub open spec fn basic_auth_of(username: Seq<char>, password: Seq<char>) -> Seq<char> {
    "Basic "@ + base64_of_text(username + ":"@ + password)
}

pub fn basic_auth_header(username: &str, password: &str) -> (r: String)
    ensures
        r@ == basic_auth_of(username@, password@),
{
    let mut credentials = String::from_str(username);
    credentials.append(":");
    credentials.append(password);
    let encoded = base64_text(credentials.as_str());
    let mut header = String::from_str("Basic ");
    header.append(encoded.as_str());
    header
}

/// The query of the NOAA data request: each value percent-encoded, two
/// data types, metadata left out.
pub open spec fn noaa_query_of(
    dataset_id: Seq<char>,
    first_datatype: Seq<char>,
    second_datatype: Seq<char>,
    start_date: Seq<char>,
    end_date: Seq<char>,
    units: Seq<char>,
    limit: Seq<char>,
    extent: Seq<char>,
) -> Seq<char> {
    "?datasetid="@ + url_encoded(dataset_id) + "&datatypeid="@ + url_encoded(first_datatype)
        + "&datatypeid="@ + url_encoded(second_datatype) + "&startdate="@ + url_encoded(start_date)
        + "&enddate="@ + url_encoded(end_date) + "&units="@ + url_encoded(units) + "&limit="@
        + url_encoded(limit) + "&extent="@ + url_encoded(extent) + "&includemetadata=false"@
}

pub fn noaa_query(
    dataset_id: &str,
    first_datatype: &str,
    second_datatype: &str,
    start_date: &str,
    end_date: &str,
    units: &str,
    limit: &str,
    extent: &str,
) -> (r: String)
    ensures
        r@ == noaa_query_of(
            dataset_id@,
            first_datatype@,
            second_datatype@,
            start_date@,
            end_date@,
            units@,
            limit@,
            extent@,
        ),
{
    let mut q = String::from_str("?datasetid=");
    let e = url_encode(dataset_id);
    q.append(e.as_str());
    q.append("&datatypeid=");
    let e = url_encode(first_datatype);
    q.append(e.as_str());
    q.append("&datatypeid=");
    let e = url_encode(second_datatype);
    q.append(e.as_str());
    q.append("&startdate=");
    let e = url_encode(start_date);
    q.append(e.as_str());
    q.append("&enddate=");
    let e = url_encode(end_date);
    q.append(e.as_str());
    q.append("&units=");
    let e = url_encode(units);
    q.append(e.as_str());
    q.append("&limit=");
    let e = url_encode(limit);
    q.append(e.as_str());
    q.append("&extent=");
    let e = url_encode(extent);
    q.append(e.as_str());
    q.append("&includemetadata=false");
    q
}

} // verus!
