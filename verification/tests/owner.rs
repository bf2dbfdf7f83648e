use pollkeeper::owner::icon_url_to_uid;

fn uid(url: &str) -> Option<u64> {
    icon_url_to_uid(&url.to_string())
}

#[test]
fn stock_picture_names_nobody() {
    assert_eq!(uid("https://cdn.discordapp.com/embed/avatars/3.png"), Some(0));
    assert_eq!(uid("https://cdn.discordapp.com/embed/avatars/"), Some(0));
}

#[test]
fn own_picture_names_its_user() {
    assert_eq!(
        uid("https://cdn.discordapp.com/avatars/912345678901234567/a1b2c3.webp?size=1024"),
        Some(912345678901234567)
    );
    assert_eq!(uid("https://cdn.discordapp.com/avatars/7/x.png"), Some(7));
    assert_eq!(uid("https://cdn.discordapp.com/avatars/18446744073709551615/x.png"), Some(u64::MAX));
}

#[test]
fn address_without_a_number_names_no_user() {
    assert_eq!(uid(""), None);
    assert_eq!(uid("nothing"), None);
    assert_eq!(uid("https://cdn.discordapp.com/avatars/abc/x.png"), None);
    assert_eq!(uid("https://cdn.discordapp.com/avatars/7"), None);
    assert_eq!(uid("https://cdn.discordapp.com/avatars/18446744073709551616/x.png"), None);
    assert_eq!(uid("https://example.com/7/x.png"), None);
}

#[test]
fn number_is_the_first_text_between_slashes() {
    assert_eq!(uid("/12/34/"), Some(12));
    assert_eq!(uid("x/5/"), Some(5));
    assert_eq!(uid("https://cdn.discordapp.com/avatars/1/2/3"), Some(1));
}
