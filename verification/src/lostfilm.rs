//! The LostFilm.tv side of the release watcher: the two-stage login form,
//! and the pages that lead from a release to its torrent file.
use vstd::prelude::*;
use crate::text::push_str;
use crate::text::string_of;
use crate::matching::group_of;
use crate::matching::caps_view;
use crate::matching::capture_group;
use crate::matching::group_in;
use crate::outside::groups_view;
use crate::outside::regex_captures;
use crate::outside::regex_captures_of;
use crate::outside::regex_captures_iter;
use crate::outside::regex_captures_iter_of;
use crate::outside::decode_windows1251;
use crate::outside::windows1251_of;
use crate::outside::form_urlencode;
use crate::outside::form_urlencoded;
use crate::outside::pairs_view;
use crate::outside::url_join;
use crate::outside::url_join_of;
use crate::outside::url_with_query_pair;
use crate::outside::url_with_query_pair_of;

verus! {

/// The site's front page, against which relative links are resolved.
pub open spec fn base_url() -> Seq<char> {
    "http://www.lostfilm.tv/"@
}

/// The address the login form is posted to first.
pub open spec fn login_address() -> Seq<char> {
    "http://login1.bogi.ru/login.php"@
}

/// The first login request's URL: the login address resolved against the
/// front page, with the single query pair `referer` = front page.
pub open spec fn login_url_of() -> Option<Seq<char>> {
    match url_join_of(base_url(), login_address()) {
        Some(u) => url_with_query_pair_of(u, "referer"@, base_url()),
        None => None,
    }
}

/// The URL of the first login request.
pub fn login_url() -> (res: Option<String>)
    ensures
        match res {
            Some(u) => login_url_of() == Some(u@),
            None => login_url_of() is None,
        },
{
    match url_join("http://www.lostfilm.tv/", "http://login1.bogi.ru/login.php") {
        Some(u) => url_with_query_pair(u.as_str(), "referer", "http://www.lostfilm.tv/"),
        None => None,
    }
}

/// The fields of the first login form, in the order they are sent.
pub open spec fn login_fields(login: Seq<char>, password: Seq<char>) -> Seq<(Seq<char>, Seq<char>)> {
    seq![
        ("login"@, login),
        ("password"@, password),
        ("module"@, "1"@),
        ("target"@, base_url()),
        ("repage"@, "user"@),
        ("act"@, "login"@),
    ]
}

fn pair(k: &str, v: &str) -> (res: (String, String))
    ensures
        res.0@ == k@,
        res.1@ == v@,
{
    (k.to_owned(), v.to_owned())
}

/// The body of the first login request: the login fields, form-encoded.
pub fn login_form(login: &str, password: &str) -> (res: String)
    ensures
        res@ == form_urlencoded(login_fields(login@, password@)),
{
    let mut fields: Vec<(String, String)> = Vec::new();
    fields.push(pair("login", login));
    fields.push(pair("password", password));
    fields.push(pair("module", "1"));
    fields.push(pair("target", "http://www.lostfilm.tv/"));
    fields.push(pair("repage", "user"));
    fields.push(pair("act", "login"));
    assert(pairs_view(fields@) =~= login_fields(login@, password@));
    form_urlencode(fields.as_slice())
}

/// Finds the second login form's target.
pub open spec fn action_pattern() -> Seq<char> {
    "action=\"([^\"]+)\""@
}

/// Finds the second login form's fields: name in group 1, value in group 2.
pub open spec fn input_pattern() -> Seq<char> {
    "<input .*?name=\"(\\w+)\" .*?value=\"([^\"]*)\""@
}

/// The second login request: where to post and the form-encoded body.
pub struct LoginStep {
    pub action: String,
    pub form: String,
}

/// Why the second login stage could not be built.
#[derive(Debug, Clone, Copy, PartialEq, Eq, Structural)]
pub enum LoginError {
    /// The page holds no form action.
    NoActionUrl,
    /// The form action does not resolve to a URL.
    BadActionUrl,
    /// A form field lacks its name or value.
    MalformedInput,
}

/// The name/value pairs of a list of matches of `input_pattern`, when every
/// match has both groups.
pub open spec fn input_fields_of(matches: Seq<Seq<Option<Seq<char>>>>) -> Option<Seq<(Seq<char>, Seq<char>)>> {
    if forall|i: int|
        0 <= i < matches.len() ==> group_of(Some(#[trigger] matches[i]), 1) is Some && group_of(
            Some(matches[i]),
            2,
        ) is Some {
        Some(
            Seq::new(
                matches.len(),
                |i: int| (group_of(Some(matches[i]), 1)->0, group_of(Some(matches[i]), 2)->0),
            ),
        )
    } else {
        None
    }
}

/// The texts of a list of matches.
pub open spec fn matches_view(m: Seq<Vec<Option<String>>>) -> Seq<Seq<Option<Seq<char>>>> {
    m.map_values(|g: Vec<Option<String>>| groups_view(g@))
}

/// The name/value pairs of the matches of `input_pattern` (see
/// `input_fields_of`).
pub fn input_fields(matches: &Vec<Vec<Option<String>>>) -> (res: Option<Vec<(String, String)>>)
    ensures
        match res {
            Some(f) => input_fields_of(matches_view(matches@)) == Some(pairs_view(f@)),
            None => input_fields_of(matches_view(matches@)) is None,
        },
{
    let ghost ms = matches_view(matches@);
    let mut fields: Vec<(String, String)> = Vec::new();
    let mut i: usize = 0;
    while i < matches.len()
        invariant
            i <= matches@.len(),
            ms == matches_view(matches@),
            pairs_view(fields@) == Seq::new(
                i as nat,
                |j: int| (group_of(Some(ms[j]), 1)->0, group_of(Some(ms[j]), 2)->0),
            ),
            forall|j: int|
                0 <= j < i ==> group_of(Some(#[trigger] ms[j]), 1) is Some && group_of(
                    Some(ms[j]),
                    2,
                ) is Some,
        decreases matches.len() - i,
    {
        assert(ms[i as int] == groups_view(matches@[i as int]@));
        assert(groups_view(matches@[i as int]@).len() == matches@[i as int]@.len());
        let name = group_in(&matches[i], 1);
        let value = group_in(&matches[i], 2);
        match (name, value) {
            (Some(n), Some(v)) => {
                assert(group_of(Some(ms[i as int]), 1) == Some(n@));
                assert(group_of(Some(ms[i as int]), 2) == Some(v@));
                let ghost before = fields@;
                fields.push((n, v));
                assert(pairs_view(fields@) =~= pairs_view(before).push((n@, v@)));
                assert(pairs_view(fields@) =~= Seq::new(
                    (i + 1) as nat,
                    |j: int| (group_of(Some(ms[j]), 1)->0, group_of(Some(ms[j]), 2)->0),
                ));
            },
            _ => {
                assert(!(group_of(Some(ms[i as int]), 1) is Some && group_of(Some(ms[i as int]), 2) is Some));
                assert(input_fields_of(ms) is None);
                return None;
            },
        }
        i += 1;
    }
    assert(input_fields_of(ms) == Some(pairs_view(fields@)));
    Some(fields)
}

/// The second login stage built from the (decoded) page the first stage
/// returned: the form action resolved against the front page, and the
/// page's input fields form-encoded.
pub open spec fn second_stage_of(page: Seq<char>) -> Result<(Seq<char>, Seq<char>), LoginError> {
    match group_of(regex_captures_of(action_pattern(), page), 1) {
        None => Err(LoginError::NoActionUrl),
        Some(raw) => match url_join_of(base_url(), raw) {
            None => Err(LoginError::BadActionUrl),
            Some(action) => match input_fields_of(regex_captures_iter_of(input_pattern(), page)) {
                None => Err(LoginError::MalformedInput),
                Some(fields) => Ok((action, form_urlencoded(fields))),
            },
        },
    }
}

/// The value of a second-stage result.
pub open spec fn step_view(r: Result<LoginStep, LoginError>) -> Result<(Seq<char>, Seq<char>), LoginError> {
    match r {
        Ok(s) => Ok((s.action@, s.form@)),
        Err(e) => Err(e),
    }
}

/// Builds the second login request from the raw page of the first stage,
/// which the server sends in Windows-1251.
pub fn login_second_stage(page: &[u8]) -> (res: Result<LoginStep, LoginError>)
    ensures
        step_view(res) == second_stage_of(windows1251_of(page@)),
{
    let text = decode_windows1251(page);
    let t = text.as_str();
    let caps = regex_captures("action=\"([^\"]+)\"", t);
    let raw = match capture_group(&caps, 1) {
        Some(r) => r,
        None => return Err(LoginError::NoActionUrl),
    };
    let action = match url_join("http://www.lostfilm.tv/", raw.as_str()) {
        Some(a) => a,
        None => return Err(LoginError::BadActionUrl),
    };
    let matches = regex_captures_iter("<input .*?name=\"(\\w+)\" .*?value=\"([^\"]*)\"", t);
    let fields = match input_fields(&matches) {
        Some(f) => f,
        None => return Err(LoginError::MalformedInput),
    };
    let form = form_urlencode(fields.as_slice());
    Ok(LoginStep { action, form })
}

/// Finds the download button of a release's details page: cookie name and
/// value in groups 1 and 2, and the three release numbers in groups 3 to 5.
pub open spec fn download_tag_pattern() -> Seq<char> {
    r#"<a href="javascript:\{\};" onMouseOver="setCookie\('(\w+)','([a-f0-9]+)'\)" class="a_download" onClick="ShowAllReleases\('([0-9]+)','([0-9.]+)','([0-9]+)'\)"></a>"#@
}

/// Finds the torrent file link on the tracker page.
pub open spec fn torrent_link_pattern() -> Seq<char> {
    r#"href="(http://tracktor\.in/td\.php\?s=[^"]+)""#@
}

/// Where the download button leads, and the cookie it sets first.
pub struct DownloadRedirect {
    pub href: String,
    pub cookie_name: String,
    pub cookie_value: String,
}

/// The value of a `DownloadRedirect`: link, cookie name, cookie value.
pub open spec fn redirect_view(r: DownloadRedirect) -> (Seq<char>, Seq<char>, Seq<char>) {
    (r.href@, r.cookie_name@, r.cookie_value@)
}

/// The redirect of the download button in the (decoded) details page: the
/// link `nrdr.php?c=<3>&s=<4>&e=<5>` under the front page, the cookie named
/// `<1>_2` with value `<2>`, where `<k>` is group `k` of the first match of
/// `download_tag_pattern`. `None` when there is no match or a group is
/// missing.
pub open spec fn redirect_of(page: Seq<char>) -> Option<(Seq<char>, Seq<char>, Seq<char>)> {
    redirect_from_of(regex_captures_of(download_tag_pattern(), page))
}

/// The redirect described by a match of `download_tag_pattern`.
pub open spec fn redirect_from_of(caps: Option<Seq<Option<Seq<char>>>>) -> Option<(Seq<char>, Seq<char>, Seq<char>)> {
    if group_of(caps, 1) is Some && group_of(caps, 2) is Some && group_of(caps, 3) is Some
        && group_of(caps, 4) is Some && group_of(caps, 5) is Some {
        Some(
            (
                base_url() + "nrdr.php?c="@ + group_of(caps, 3)->0 + "&s="@ + group_of(caps, 4)->0
                    + "&e="@ + group_of(caps, 5)->0,
                group_of(caps, 1)->0 + "_2"@,
                group_of(caps, 2)->0,
            ),
        )
    } else {
        None
    }
}

/// Reads the download button out of a release's raw details page (sent in
/// Windows-1251).
pub fn download_redirect(details_page: &[u8]) -> (res: Option<DownloadRedirect>)
    ensures
        match res {
            Some(r) => redirect_of(windows1251_of(details_page@)) == Some(redirect_view(r)),
            None => redirect_of(windows1251_of(details_page@)) is None,
        },
{
    let text = decode_windows1251(details_page);
    let caps = regex_captures(
        r#"<a href="javascript:\{\};" onMouseOver="setCookie\('(\w+)','([a-f0-9]+)'\)" class="a_download" onClick="ShowAllReleases\('([0-9]+)','([0-9.]+)','([0-9]+)'\)"></a>"#,
        text.as_str(),
    );
    redirect_from(&caps)
}

/// Builds the download redirect from a match of `download_tag_pattern`.
pub fn redirect_from(caps: &Option<Vec<Option<String>>>) -> (res: Option<DownloadRedirect>)
    ensures
        match res {
            Some(r) => redirect_from_of(caps_view(*caps)) == Some(redirect_view(r)),
            None => redirect_from_of(caps_view(*caps)) is None,
        },
{
    let g1 = capture_group(caps, 1);
    let g2 = capture_group(caps, 2);
    let g3 = capture_group(caps, 3);
    let g4 = capture_group(caps, 4);
    let g5 = capture_group(caps, 5);
    match (g1, g2, g3, g4, g5) {
        (Some(name), Some(value), Some(c), Some(s), Some(e)) => {
            let mut href: Vec<char> = Vec::new();
            push_str(&mut href, "http://www.lostfilm.tv/");
            push_str(&mut href, "nrdr.php?c=");
            push_str(&mut href, c.as_str());
            push_str(&mut href, "&s=");
            push_str(&mut href, s.as_str());
            push_str(&mut href, "&e=");
            push_str(&mut href, e.as_str());
            let mut cookie: Vec<char> = Vec::new();
            push_str(&mut cookie, name.as_str());
            push_str(&mut cookie, "_2");
            Some(DownloadRedirect {
                href: string_of(href.as_slice()),
                cookie_name: string_of(cookie.as_slice()),
                cookie_value: value,
            })
        },
        _ => None,
    }
}

/// The torrent file link in the (decoded) tracker page: group 1 of the
/// first match of `torrent_link_pattern`.
pub open spec fn torrent_link_of(page: Seq<char>) -> Option<Seq<char>> {
    group_of(regex_captures_of(torrent_link_pattern(), page), 1)
}

/// Reads the torrent file link out of the raw tracker page (sent in
/// Windows-1251).
pub fn tracker_torrent_link(tracker_page: &[u8]) -> (res: Option<String>)
    ensures
        match res {
            Some(l) => torrent_link_of(windows1251_of(tracker_page@)) == Some(l@),
            None => torrent_link_of(windows1251_of(tracker_page@)) is None,
        },
        match res {
            Some(l) => group_of(regex_captures_of(r#"href="(http://tracktor\.in/td\.php\?s=[^"]+)""#@, windows1251_of(tracker_page@)), 1)
                == Some(l@),
            None => group_of(regex_captures_of(r#"href="(http://tracktor\.in/td\.php\?s=[^"]+)""#@, windows1251_of(tracker_page@)), 1) is None,
        },
{
    let text = decode_windows1251(tracker_page);
    let caps = regex_captures(r#"href="(http://tracktor\.in/td\.php\?s=[^"]+)""#, text.as_str());
    capture_group(&caps, 1)
}

/// The torrent link of a tracker page is group 1 of the first match of the
/// torrent link pattern (as `regex::Regex::captures` finds it), never of a
/// later match.
pub proof fn law_torrent_link_is_first_match(page: Seq<char>)
    ensures
        torrent_link_of(page) == group_of(regex_captures_of(r#"href="(http://tracktor\.in/td\.php\?s=[^"]+)""#@, page), 1),
{
}

} // verus!
