use zscheme::publish::{daily_did_pin_name, did_pin_name};

#[test]
fn pin_names_follow_the_archive_format() {
    let did = "did:ma:k51qzi5uqu5dlvj2baxnqndepeb86cbk3ng7n3i46uzyxzyqj2xjonzllnv0v8";
    let digest = blake3::hash(did.as_bytes()).to_hex();
    assert_eq!(
        did_pin_name("zscheme", did, 2026, 7, 9),
        format!("ma-zscheme-zscheme-{}-2026-07-09", &digest[..16])
    );
    assert_eq!(
        did_pin_name("s", did, -5, 12, 31),
        format!("ma-zscheme-s-{}--005-12-31", &digest[..16])
    );
    assert_eq!(
        did_pin_name("", did, 12345, 1, 1),
        format!("ma-zscheme--{}-12345-01-01", &digest[..16])
    );
}

#[test]
fn daily_pin_names_use_todays_utc_date() {
    let did = "did:ma:abc";
    let date = time::OffsetDateTime::now_utc().date();
    let expected = format!(
        "ma-zscheme-x-{}-{:04}-{:02}-{:02}",
        &blake3::hash(did.as_bytes()).to_hex()[..16],
        date.year(),
        u8::from(date.month()),
        date.day()
    );
    assert_eq!(daily_did_pin_name("x", did), expected);
}
