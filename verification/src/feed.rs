//! The LostFilm RSS feed scanner: a state machine over the XML events of the
//! feed that picks the releases whose titles match the wanted shows and
//! turns their download links into details-page links.
use vstd::prelude::*;
use crate::text::has_substring;
use crate::text::replace_all;
use crate::text::contains;
use crate::text::same_text;
use crate::text::replace;
use crate::outside::decode_windows1251;
use crate::outside::windows1251_of;
use crate::outside::xml_items;
use crate::outside::xml_items_of;

verus! {

/// One event of an XML reader, reduced to what the feed scanner reads.
pub enum XmlItem {
    /// An opening tag, by its local name.
    Start(String),
    /// A closing tag, by its local name.
    End(String),
    /// Character data.
    Text(String),
    /// Any other event (document start and end, comments, whitespace, ...).
    Other,
    /// The reader failed; nothing follows.
    Malformed,
}

/// The mathematical value of an `XmlItem`.
pub enum XmlItemView {
    Start(Seq<char>),
    End(Seq<char>),
    Text(Seq<char>),
    Other,
    Malformed,
}

impl View for XmlItem {
    type V = XmlItemView;

    open spec fn view(&self) -> XmlItemView {
        match self {
            XmlItem::Start(n) => XmlItemView::Start(n@),
            XmlItem::End(n) => XmlItemView::End(n@),
            XmlItem::Text(t) => XmlItemView::Text(t@),
            XmlItem::Other => XmlItemView::Other,
            XmlItem::Malformed => XmlItemView::Malformed,
        }
    }
}

/// Where the scanner stands in the feed.
#[derive(Clone, Copy, PartialEq, Eq, Structural)]
pub enum FeedState {
    Init,
    InChannel,
    InItem,
    InTitle,
    InLink,
}

/// A release found in the feed: its title and the link to its details page.
pub struct FeedEntry {
    pub title: String,
    pub details_url: String,
}

impl View for FeedEntry {
    type V = (Seq<char>, Seq<char>);

    open spec fn view(&self) -> (Seq<char>, Seq<char>) {
        (self.title@, self.details_url@)
    }
}

/// The result of a scan: the releases found, and whether the reader failed.
pub struct FeedScan {
    pub entries: Vec<FeedEntry>,
    pub malformed: bool,
}

/// The scanner's state as a mathematical value.
pub struct ScanModel {
    pub state: FeedState,
    pub needed: bool,
    pub title: Seq<char>,
    pub entries: Seq<(Seq<char>, Seq<char>)>,
}

/// A title is wanted when it holds one of the `shows` patterns and none of
/// the `skips` patterns.
pub open spec fn wanted(title: Seq<char>, shows: Seq<Seq<char>>, skips: Seq<Seq<char>>) -> bool {
    (exists|i: int| 0 <= i < shows.len() && has_substring(title, #[trigger] shows[i]))
        && !(exists|j: int| 0 <= j < skips.len() && has_substring(title, #[trigger] skips[j]))
}

/// The details page of a release: its download link with `/download.php?`
/// replaced by `/details.php?`.
pub open spec fn details_url_of(link: Seq<char>) -> Seq<char> {
    replace_all(link, "/download.php?"@, "/details.php?"@)
}

/// The state after an opening tag.
pub open spec fn after_start(s: FeedState, name: Seq<char>) -> FeedState {
    match s {
        FeedState::Init => if name == "channel"@ { FeedState::InChannel } else { s },
        FeedState::InChannel => if name == "item"@ { FeedState::InItem } else { s },
        FeedState::InItem => if name == "title"@ {
            FeedState::InTitle
        } else if name == "link"@ {
            FeedState::InLink
        } else {
            s
        },
        _ => s,
    }
}

/// The state after a closing tag.
pub open spec fn after_end(s: FeedState, name: Seq<char>) -> FeedState {
    match s {
        FeedState::InChannel => if name == "channel"@ { FeedState::Init } else { s },
        FeedState::InItem => if name == "item"@ { FeedState::InChannel } else { s },
        FeedState::InTitle => if name == "title"@ { FeedState::InItem } else { s },
        FeedState::InLink => if name == "link"@ { FeedState::InItem } else { s },
        _ => s,
    }
}

/// One step of the scanner. The text of a title decides whether the
/// release is wanted (and, if so, becomes the current title); the text of a
/// link, while the last title seen was wanted, adds a release.
pub open spec fn feed_step(
    m: ScanModel,
    item: XmlItemView,
    shows: Seq<Seq<char>>,
    skips: Seq<Seq<char>>,
) -> ScanModel {
    match item {
        XmlItemView::Start(name) => ScanModel { state: after_start(m.state, name), ..m },
        XmlItemView::End(name) => ScanModel { state: after_end(m.state, name), ..m },
        XmlItemView::Text(value) => match m.state {
            FeedState::InTitle => {
                let needed = wanted(value, shows, skips);
                ScanModel { needed, title: if needed { value } else { m.title }, ..m }
            },
            FeedState::InLink => if m.needed {
                ScanModel { entries: m.entries.push((m.title, details_url_of(value))), ..m }
            } else {
                m
            },
            _ => m,
        },
        _ => m,
    }
}

/// Runs the scanner from `m` over `items`, stopping at the first
/// `Malformed`; the flag says whether one was met.
pub open spec fn scan_from(
    m: ScanModel,
    items: Seq<XmlItemView>,
    shows: Seq<Seq<char>>,
    skips: Seq<Seq<char>>,
) -> (ScanModel, bool)
    decreases items.len(),
{
    if items.len() == 0 {
        (m, false)
    } else if items[0] is Malformed {
        (m, true)
    } else {
        scan_from(feed_step(m, items[0], shows, skips), items.drop_first(), shows, skips)
    }
}

/// The scanner's starting state.
pub open spec fn initial_model() -> ScanModel {
    ScanModel { state: FeedState::Init, needed: false, title: seq![], entries: seq![] }
}

/// The releases a scan of `items` finds, and whether the reader failed.
pub open spec fn scan_items(
    items: Seq<XmlItemView>,
    shows: Seq<Seq<char>>,
    skips: Seq<Seq<char>>,
) -> (Seq<(Seq<char>, Seq<char>)>, bool) {
    let (m, bad) = scan_from(initial_model(), items, shows, skips);
    (m.entries, bad)
}

/// The texts of a list of strings.
pub open spec fn texts(v: Seq<String>) -> Seq<Seq<char>> {
    v.map_values(|s: String| s@)
}

/// The value of a scan result.
pub open spec fn scan_view(r: FeedScan) -> (Seq<(Seq<char>, Seq<char>)>, bool) {
    (r.entries@.map_values(|e: FeedEntry| e@), r.malformed)
}

fn holds_any(value: &str, patterns: &[String]) -> (res: bool)
    ensures
        res == exists|i: int|
            0 <= i < patterns@.len() && has_substring(value@, #[trigger] texts(patterns@)[i]),
{
    let mut i: usize = 0;
    while i < patterns.len()
        invariant
            i <= patterns@.len(),
            forall|j: int| 0 <= j < i ==> !has_substring(value@, #[trigger] texts(patterns@)[j]),
        decreases patterns.len() - i,
    {
        if contains(value, patterns[i].as_str()) {
            assert(has_substring(value@, texts(patterns@)[i as int]));
            return true;
        }
        i += 1;
    }
    false
}

/// Whether a title is wanted (see `wanted`).
pub fn is_wanted(title: &str, shows: &[String], skips: &[String]) -> (res: bool)
    ensures
        res == wanted(title@, texts(shows@), texts(skips@)),
        forall|j: int| 0 <= j < skips@.len() && has_substring(title@, #[trigger] skips@[j]@) ==> !res,
        res ==> exists|i: int| 0 <= i < shows@.len() && has_substring(title@, #[trigger] shows@[i]@),
        (exists|i: int| 0 <= i < shows@.len() && has_substring(title@, #[trigger] shows@[i]@))
            && (forall|j: int| 0 <= j < skips@.len() ==> !has_substring(title@, #[trigger] skips@[j]@))
            ==> res,
{
    let r = holds_any(title, shows) && !holds_any(title, skips);
    proof {
        law_wanted_by_patterns(title@, texts(shows@), texts(skips@));
        assert forall|j: int| 0 <= j < skips@.len() implies texts(skips@)[j] == #[trigger] skips@[j]@ by {}
        assert forall|i: int| 0 <= i < shows@.len() implies texts(shows@)[i] == #[trigger] shows@[i]@ by {}
    }
    r
}

/// The details-page link for a download link.
pub fn details_url(link: &str) -> (res: String)
    ensures
        res@ == details_url_of(link@),
{
    proof {
        reveal_strlit("/download.php?");
    }
    replace(link, "/download.php?", "/details.php?")
}

/// Scans a list of XML events for wanted releases, as `scan_items` says:
/// the state machine follows `channel` > `item` > `title`/`link`, the text
/// of a title decides whether the release is wanted, and the text of a link
/// while the last title was wanted adds that title with the link's details
/// page. Scanning stops at the first `Malformed` event.
pub fn scan_feed(items: &[XmlItem], shows: &[String], skips: &[String]) -> (res: FeedScan)
    ensures
        scan_view(res) == scan_items(items@.map_values(|e: XmlItem| e@), texts(shows@), texts(skips@)),
{
    let ghost sh = texts(shows@);
    let ghost sk = texts(skips@);
    let ghost all = items@.map_values(|e: XmlItem| e@);
    let mut state = FeedState::Init;
    let mut needed = false;
    let mut title = String::new();
    let mut entries: Vec<FeedEntry> = Vec::new();
    let mut i: usize = 0;
    assert(all.skip(0) =~= all);
    assert(entries@.map_values(|e: FeedEntry| e@) =~= Seq::<(Seq<char>, Seq<char>)>::empty());
    while i < items.len()
        invariant
            i <= items@.len(),
            all == items@.map_values(|e: XmlItem| e@),
            sh == texts(shows@),
            sk == texts(skips@),
            scan_from(
                ScanModel { state, needed, title: title@, entries: entries@.map_values(|e: FeedEntry| e@) },
                all.skip(i as int),
                sh,
                sk,
            ) == scan_from(initial_model(), all, sh, sk),
        decreases items.len() - i,
    {
        let ghost m = ScanModel { state, needed, title: title@, entries: entries@.map_values(|e: FeedEntry| e@) };
        assert(all.skip(i as int)[0] == items@[i as int]@);
        assert(all.skip(i as int).drop_first() =~= all.skip(i + 1));
        match &items[i] {
            XmlItem::Malformed => {
                return FeedScan { entries, malformed: true };
            },
            XmlItem::Start(name) => {
                let n = name.as_str();
                state = match state {
                    FeedState::Init => if same_text(n, "channel") { FeedState::InChannel } else { state },
                    FeedState::InChannel => if same_text(n, "item") { FeedState::InItem } else { state },
                    FeedState::InItem => if same_text(n, "title") {
                        FeedState::InTitle
                    } else if same_text(n, "link") {
                        FeedState::InLink
                    } else {
                        state
                    },
                    _ => state,
                };
            },
            XmlItem::End(name) => {
                let n = name.as_str();
                state = match state {
                    FeedState::InChannel => if same_text(n, "channel") { FeedState::Init } else { state },
                    FeedState::InItem => if same_text(n, "item") { FeedState::InChannel } else { state },
                    FeedState::InTitle => if same_text(n, "title") { FeedState::InItem } else { state },
                    FeedState::InLink => if same_text(n, "link") { FeedState::InItem } else { state },
                    _ => state,
                };
            },
            XmlItem::Text(value) => {
                match state {
                    FeedState::InTitle => {
                        needed = is_wanted(value.as_str(), shows, skips);
                        if needed {
                            title = value.clone();
                        }
                    },
                    FeedState::InLink => {
                        if needed {
                            let url = details_url(value.as_str());
                            entries.push(FeedEntry { title: title.clone(), details_url: url });
                            assert(entries@.map_values(|e: FeedEntry| e@) =~= m.entries.push((m.title, details_url_of(value@))));
                        }
                    },
                    _ => {},
                }
            },
            XmlItem::Other => {},
        }
        i += 1;
    }
    assert(all.skip(i as int) =~= Seq::<XmlItemView>::empty());
    FeedScan { entries, malformed: false }
}

/// The releases in a raw feed: the bytes are decoded as Windows-1251,
/// read as XML, and scanned by `scan_feed`.
pub fn feed_entries(feed: &[u8], shows: &[String], skips: &[String]) -> (res: FeedScan)
    ensures
        scan_view(res) == scan_items(xml_items_of(windows1251_of(feed@)), texts(shows@), texts(skips@)),
{
    let text = decode_windows1251(feed);
    let items = xml_items(text.as_str());
    scan_feed(items.as_slice(), shows, skips)
}


/// The scanner's invariant: a set `needed` flag means the current title is
/// wanted, and every release found so far has a wanted title.
pub open spec fn model_ok(m: ScanModel, shows: Seq<Seq<char>>, skips: Seq<Seq<char>>) -> bool {
    &&& m.needed ==> wanted(m.title, shows, skips)
    &&& forall|k: int| 0 <= k < m.entries.len() ==> wanted(#[trigger] m.entries[k].0, shows, skips)
}

proof fn lemma_step_keeps_model_ok(
    m: ScanModel,
    item: XmlItemView,
    shows: Seq<Seq<char>>,
    skips: Seq<Seq<char>>,
)
    requires
        model_ok(m, shows, skips),
    ensures
        model_ok(feed_step(m, item, shows, skips), shows, skips),
{
    let n = feed_step(m, item, shows, skips);
    if n.entries.len() > m.entries.len() {
        assert forall|k: int| 0 <= k < n.entries.len() implies wanted(#[trigger] n.entries[k].0, shows, skips) by {
            if k < m.entries.len() {
                assert(n.entries[k] == m.entries[k]);
            }
        }
    }
}

proof fn lemma_scan_keeps_model_ok(
    m: ScanModel,
    items: Seq<XmlItemView>,
    shows: Seq<Seq<char>>,
    skips: Seq<Seq<char>>,
)
    requires
        model_ok(m, shows, skips),
    ensures
        model_ok(scan_from(m, items, shows, skips).0, shows, skips),
    decreases items.len(),
{
    if items.len() > 0 && !(items[0] is Malformed) {
        lemma_step_keeps_model_ok(m, items[0], shows, skips);
        lemma_scan_keeps_model_ok(feed_step(m, items[0], shows, skips), items.drop_first(), shows, skips);
    }
}

/// Every release the scanner reports has a wanted title: one that holds
/// some `shows` pattern and no `skips` pattern. In particular an empty
/// `shows` list finds nothing.
pub proof fn law_found_titles_are_wanted(
    items: Seq<XmlItemView>,
    shows: Seq<Seq<char>>,
    skips: Seq<Seq<char>>,
)
    ensures
        forall|k: int|
            0 <= k < scan_items(items, shows, skips).0.len() ==> wanted(
                #[trigger] scan_items(items, shows, skips).0[k].0,
                shows,
                skips,
            ),
{
    lemma_scan_keeps_model_ok(initial_model(), items, shows, skips);
}


proof fn lemma_scan_stops_at_malformed(
    m: ScanModel,
    before: Seq<XmlItemView>,
    after: Seq<XmlItemView>,
    shows: Seq<Seq<char>>,
    skips: Seq<Seq<char>>,
)
    requires
        forall|i: int| 0 <= i < before.len() ==> !(#[trigger] before[i] is Malformed),
    ensures
        scan_from(m, before + seq![XmlItemView::Malformed] + after, shows, skips)
            == (scan_from(m, before, shows, skips).0, true),
    decreases before.len(),
{
    let all = before + seq![XmlItemView::Malformed] + after;
    if before.len() == 0 {
        assert(all[0] is Malformed);
    } else {
        assert(all[0] == before[0]);
        assert(!(before[0] is Malformed));
        assert(all.drop_first() =~= before.drop_first() + seq![XmlItemView::Malformed] + after);
        assert forall|i: int| 0 <= i < before.drop_first().len() implies !(
        #[trigger] before.drop_first()[i] is Malformed) by {
            assert(before.drop_first()[i] == before[i + 1]);
        }
        lemma_scan_stops_at_malformed(
            feed_step(m, before[0], shows, skips),
            before.drop_first(),
            after,
            shows,
            skips,
        );
    }
}

/// A reader error ends the scan: whatever follows it is ignored, the
/// releases found before it are kept, and the scan reports the failure.
pub proof fn law_nothing_after_malformed(
    before: Seq<XmlItemView>,
    after: Seq<XmlItemView>,
    shows: Seq<Seq<char>>,
    skips: Seq<Seq<char>>,
)
    requires
        forall|i: int| 0 <= i < before.len() ==> !(#[trigger] before[i] is Malformed),
    ensures
        scan_items(before + seq![XmlItemView::Malformed] + after, shows, skips)
            == (scan_items(before, shows, skips).0, true),
{
    lemma_scan_stops_at_malformed(initial_model(), before, after, shows, skips);
}

/// `idx` places the elements of `a`, in order, at increasing positions of `b`.
pub open spec fn embeds<T>(a: Seq<T>, b: Seq<T>, idx: Seq<int>) -> bool {
    &&& idx.len() == a.len()
    &&& forall|i: int, j: int| 0 <= i < j < idx.len() ==> #[trigger] idx[i] < #[trigger] idx[j]
    &&& forall|i: int| 0 <= i < idx.len() ==> 0 <= #[trigger] idx[i] < b.len() && a[i] == b[idx[i]]
}

/// `a` is `b` with some elements left out: a subsequence of `b`.
pub open spec fn is_subsequence<T>(a: Seq<T>, b: Seq<T>) -> bool {
    exists|idx: Seq<int>| embeds(a, b, idx)
}

/// Two scanner states over the same events, the first with stricter
/// patterns: same position in the feed, a set `needed` flag in the first
/// means the same in the second with the same title, and the first's
/// releases are among the second's, in order.
pub open spec fn narrower(m1: ScanModel, m2: ScanModel, idx: Seq<int>) -> bool {
    &&& m1.state == m2.state
    &&& m1.needed ==> (m2.needed && m1.title == m2.title)
    &&& embeds(m1.entries, m2.entries, idx)
}

/// Every title wanted under the first patterns is wanted under the second.
pub open spec fn wanted_implies(
    shows1: Seq<Seq<char>>,
    skips1: Seq<Seq<char>>,
    shows2: Seq<Seq<char>>,
    skips2: Seq<Seq<char>>,
) -> bool {
    forall|v: Seq<char>| #[trigger] wanted(v, shows1, skips1) ==> wanted(v, shows2, skips2)
}

proof fn lemma_step_narrower(
    m1: ScanModel,
    m2: ScanModel,
    idx: Seq<int>,
    item: XmlItemView,
    shows1: Seq<Seq<char>>,
    skips1: Seq<Seq<char>>,
    shows2: Seq<Seq<char>>,
    skips2: Seq<Seq<char>>,
) -> (idx2: Seq<int>)
    requires
        narrower(m1, m2, idx),
        wanted_implies(shows1, skips1, shows2, skips2),
    ensures
        narrower(feed_step(m1, item, shows1, skips1), feed_step(m2, item, shows2, skips2), idx2),
{
    let n1 = feed_step(m1, item, shows1, skips1);
    let n2 = feed_step(m2, item, shows2, skips2);
    match item {
        XmlItemView::Text(value) => {
            if m1.state == FeedState::InTitle {
                if wanted(value, shows1, skips1) {
                    assert(wanted(value, shows2, skips2));
                }
                idx
            } else if m1.state == FeedState::InLink {
                if m1.needed {
                    let idx2 = idx.push(m2.entries.len() as int);
                    assert forall|i: int| 0 <= i < idx2.len() implies 0 <= #[trigger] idx2[i]
                        < n2.entries.len() && n1.entries[i] == n2.entries[idx2[i]] by {
                        if i < idx.len() {
                            assert(idx2[i] == idx[i]);
                        }
                    }
                    assert forall|i: int, j: int| 0 <= i < j < idx2.len() implies #[trigger] idx2[i]
                        < #[trigger] idx2[j] by {
                        if j < idx.len() {
                            assert(idx2[i] == idx[i]);
                            assert(idx2[j] == idx[j]);
                        } else {
                            assert(idx2[i] == idx[i]);
                        }
                    }
                    idx2
                } else {
                    assert forall|i: int| 0 <= i < idx.len() implies 0 <= #[trigger] idx[i]
                        < n2.entries.len() && n1.entries[i] == n2.entries[idx[i]] by {
                        if m2.needed {
                            assert(n2.entries[idx[i]] == m2.entries[idx[i]]);
                        }
                    }
                    idx
                }
            } else {
                idx
            }
        },
        _ => idx,
    }
}

proof fn lemma_scan_narrower(
    m1: ScanModel,
    m2: ScanModel,
    idx: Seq<int>,
    items: Seq<XmlItemView>,
    shows1: Seq<Seq<char>>,
    skips1: Seq<Seq<char>>,
    shows2: Seq<Seq<char>>,
    skips2: Seq<Seq<char>>,
) -> (idx2: Seq<int>)
    requires
        narrower(m1, m2, idx),
        wanted_implies(shows1, skips1, shows2, skips2),
    ensures
        embeds(
            scan_from(m1, items, shows1, skips1).0.entries,
            scan_from(m2, items, shows2, skips2).0.entries,
            idx2,
        ),
        scan_from(m1, items, shows1, skips1).1 == scan_from(m2, items, shows2, skips2).1,
    decreases items.len(),
{
    if items.len() == 0 || items[0] is Malformed {
        idx
    } else {
        let i1 = lemma_step_narrower(m1, m2, idx, items[0], shows1, skips1, shows2, skips2);
        lemma_scan_narrower(
            feed_step(m1, items[0], shows1, skips1),
            feed_step(m2, items[0], shows2, skips2),
            i1,
            items.drop_first(),
            shows1,
            skips1,
            shows2,
            skips2,
        )
    }
}

proof fn lemma_scan_items_narrower(
    items: Seq<XmlItemView>,
    shows1: Seq<Seq<char>>,
    skips1: Seq<Seq<char>>,
    shows2: Seq<Seq<char>>,
    skips2: Seq<Seq<char>>,
)
    requires
        wanted_implies(shows1, skips1, shows2, skips2),
    ensures
        is_subsequence(scan_items(items, shows1, skips1).0, scan_items(items, shows2, skips2).0),
        scan_items(items, shows1, skips1).1 == scan_items(items, shows2, skips2).1,
{
    let e: Seq<int> = seq![];
    assert(narrower(initial_model(), initial_model(), e));
    let w = lemma_scan_narrower(initial_model(), initial_model(), e, items, shows1, skips1, shows2, skips2);
    assert(embeds(scan_items(items, shows1, skips1).0, scan_items(items, shows2, skips2).0, w));
}

/// More `skips` patterns only drop releases: the releases found with the
/// extra patterns are some of those found without them, in the same order
/// (and whether the reader failed does not change).
pub proof fn law_more_skips_fewer_releases(
    items: Seq<XmlItemView>,
    shows: Seq<Seq<char>>,
    skips: Seq<Seq<char>>,
    more: Seq<Seq<char>>,
)
    ensures
        is_subsequence(scan_items(items, shows, skips + more).0, scan_items(items, shows, skips).0),
        scan_items(items, shows, skips + more).1 == scan_items(items, shows, skips).1,
{
    assert forall|v: Seq<char>| #[trigger] wanted(v, shows, skips + more) implies wanted(v, shows, skips) by {
        if exists|j: int| 0 <= j < skips.len() && has_substring(v, #[trigger] skips[j]) {
            let j = choose|j: int| 0 <= j < skips.len() && has_substring(v, #[trigger] skips[j]);
            assert((skips + more)[j] == skips[j]);
        }
    }
    lemma_scan_items_narrower(items, shows, skips + more, shows, skips);
}

/// More `shows` patterns only add releases: the releases found without the
/// extra patterns are some of those found with them, in the same order (and
/// whether the reader failed does not change).
pub proof fn law_more_shows_more_releases(
    items: Seq<XmlItemView>,
    shows: Seq<Seq<char>>,
    more: Seq<Seq<char>>,
    skips: Seq<Seq<char>>,
)
    ensures
        is_subsequence(scan_items(items, shows, skips).0, scan_items(items, shows + more, skips).0),
        scan_items(items, shows, skips).1 == scan_items(items, shows + more, skips).1,
{
    assert forall|v: Seq<char>| #[trigger] wanted(v, shows, skips) implies wanted(v, shows + more, skips) by {
        let i = choose|i: int| 0 <= i < shows.len() && has_substring(v, #[trigger] shows[i]);
        assert((shows + more)[i] == shows[i]);
    }
    lemma_scan_items_narrower(items, shows, skips, shows + more, skips);
}

/// A title is wanted exactly when it holds some `shows` pattern and holds
/// none of the `skips` patterns: any one `skips` pattern in the title rules
/// it out, whatever its position in the list.
pub proof fn law_wanted_by_patterns(title: Seq<char>, shows: Seq<Seq<char>>, skips: Seq<Seq<char>>)
    ensures
        wanted(title, shows, skips) <==> ((exists|i: int|
            0 <= i < shows.len() && has_substring(title, #[trigger] shows[i])) && (forall|j: int|
            0 <= j < skips.len() ==> !has_substring(title, #[trigger] skips[j]))),
        forall|j: int|
            0 <= j < skips.len() && has_substring(title, #[trigger] skips[j]) ==> !wanted(
                title,
                shows,
                skips,
            ),
{
}

/// Every release the scanner reports holds some `shows` pattern in its
/// title and none of the `skips` patterns.
pub proof fn law_found_titles_hold_show_and_no_skip(
    items: Seq<XmlItemView>,
    shows: Seq<Seq<char>>,
    skips: Seq<Seq<char>>,
    k: int,
)
    requires
        0 <= k < scan_items(items, shows, skips).0.len(),
    ensures
        exists|i: int|
            0 <= i < shows.len() && has_substring(scan_items(items, shows, skips).0[k].0, #[trigger] shows[i]),
        forall|j: int|
            0 <= j < skips.len() ==> !has_substring(scan_items(items, shows, skips).0[k].0, #[trigger] skips[j]),
{
    law_found_titles_are_wanted(items, shows, skips);
    let t = scan_items(items, shows, skips).0[k].0;
    assert(wanted(t, shows, skips));
    law_wanted_by_patterns(t, shows, skips);
}

} // verus!
