use shortlink::codec::{key_to_decimal, parse_key};
use shortlink::index;
use shortlink::store::{RedirectError, ShortLinkStore, ShortenError};

#[test]
fn valid_requests() {
    let mut store = ShortLinkStore::new();

    let key = store.shorten(String::from("https://duck.com")).expect("non-empty url");

    let body = key_to_decimal(key);
    let parsed = parse_key(body.as_str()).expect("valid u32");
    assert_eq!(parsed, key);

    let url = store.redirect(parsed).expect("known key");
    assert_eq!(url, "https://duck.com");
}

#[test]
fn empty_url() {
    let mut store = ShortLinkStore::new();

    let r = store.shorten(String::new());

    assert_eq!(r, Err(ShortenError::EmptyInput));
    assert_eq!(store.len(), 0);
}

#[test]
fn invalid_url() {
    let store = ShortLinkStore::new();

    assert_eq!(parse_key("/123"), None);
    assert_eq!(store.redirect(123), Err(RedirectError::NotFound));
}

#[test]
fn redirect_unknown_key_fails() {
    let store = ShortLinkStore::new();
    assert_eq!(store.redirect(123), Err(RedirectError::NotFound));
}

#[test]
fn distinct_urls_resolve_independently() {
    let mut store = ShortLinkStore::new();

    let ka = store.shorten(String::from("https://a.example")).expect("non-empty url");
    let kb = store.shorten(String::from("https://b.example")).expect("non-empty url");

    assert_ne!(ka, kb);
    assert_eq!(store.redirect(ka), Ok(String::from("https://a.example")));
    assert_eq!(store.redirect(kb), Ok(String::from("https://b.example")));
    assert_eq!(store.len(), 2);
}

#[test]
fn many_keys_round_trip() {
    let mut store = ShortLinkStore::new();
    let mut keys: Vec<(u32, String)> = Vec::new();

    for i in 0..50 {
        let url = format!("https://example.com/{}", i);
        let key = store.shorten(url.clone()).expect("non-empty url");
        keys.push((key, url));
    }

    for (key, url) in keys {
        assert_eq!(store.redirect(key), Ok(url));
    }
}

#[test]
fn index_greeting() {
    assert_eq!(index(), "Hello world!");
}
