use script_utils::lostfilm::{
    download_redirect, input_fields, login_form, redirect_from, login_second_stage, login_url, tracker_torrent_link, LoginError,
};

#[test]
fn first_login_request() {
    assert_eq!(
        login_url().as_deref(),
        Some("http://login1.bogi.ru/login.php?referer=http%3A%2F%2Fwww.lostfilm.tv%2F")
    );
    assert_eq!(
        login_form("user@mail", "p w&d"),
        "login=user%40mail&password=p+w%26d&module=1&target=http%3A%2F%2Fwww.lostfilm.tv%2F&repage=user&act=login"
    );
    assert_eq!(
        login_form("Вася", ""),
        "login=%D0%92%D0%B0%D1%81%D1%8F&password=&module=1&target=http%3A%2F%2Fwww.lostfilm.tv%2F&repage=user&act=login"
    );
}

#[test]
fn second_login_stage() {
    let page = br#"<form action="/blg.php" method="post"><input type="hidden" name="sess" value="42"><input type="hidden" name="note" value="x y"></form>"#;
    let step = login_second_stage(page).unwrap();
    assert_eq!(step.action, "http://www.lostfilm.tv/blg.php");
    assert_eq!(step.form, "sess=42&note=x+y");
}

#[test]
fn second_login_stage_without_form() {
    assert_eq!(login_second_stage(b"<html></html>").err(), Some(LoginError::NoActionUrl));
    assert_eq!(
        login_second_stage(br#"<form action="http://[bad">"#).err(),
        Some(LoginError::BadActionUrl)
    );
}

#[test]
fn download_button_redirect() {
    let page = br#"<div><a href="javascript:{};" onMouseOver="setCookie('uid','abc123')" class="a_download" onClick="ShowAllReleases('101','1.5','7')"></a></div>"#;
    let r = download_redirect(page).unwrap();
    assert_eq!(r.href, "http://www.lostfilm.tv/nrdr.php?c=101&s=1.5&e=7");
    assert_eq!(r.cookie_name, "uid_2");
    assert_eq!(r.cookie_value, "abc123");
    assert!(download_redirect(b"<div>no button</div>").is_none());
}

#[test]
fn tracker_link() {
    let page = br#"<a href="http://tracktor.in/td.php?s=abc%3D">Download</a>"#;
    assert_eq!(
        tracker_torrent_link(page).as_deref(),
        Some("http://tracktor.in/td.php?s=abc%3D")
    );
    assert_eq!(tracker_torrent_link(b"nothing"), None);
}

fn groups(g: &[Option<&str>]) -> Vec<Option<String>> {
    g.iter().map(|x| x.map(|y| y.to_string())).collect()
}

#[test]
fn input_fields_need_both_groups() {
    let ok = vec![groups(&[Some("m"), Some("a"), Some("1")]), groups(&[Some("m"), Some("b"), Some("")])];
    assert_eq!(
        input_fields(&ok),
        Some(vec![("a".to_string(), "1".to_string()), ("b".to_string(), "".to_string())])
    );
    let bad = vec![groups(&[Some("m"), Some("a"), None])];
    assert_eq!(input_fields(&bad), None);
    assert_eq!(input_fields(&vec![]), Some(vec![]));
}

#[test]
fn redirect_needs_all_five_groups() {
    let full = Some(groups(&[Some("m"), Some("n"), Some("v"), Some("1"), Some("2"), Some("3")]));
    let r = redirect_from(&full).unwrap();
    assert_eq!(r.href, "http://www.lostfilm.tv/nrdr.php?c=1&s=2&e=3");
    assert_eq!(r.cookie_name, "n_2");
    assert_eq!(r.cookie_value, "v");
    let short = Some(groups(&[Some("m"), Some("n"), Some("v"), Some("1"), Some("2")]));
    assert!(redirect_from(&short).is_none());
    assert!(redirect_from(&None).is_none());
}
