//! The client side of Transmission's RPC handshake for adding a torrent:
//! each request carries a fresh tag, and a `409 Conflict` reply hands over
//! the session id to retry with.
use vstd::prelude::*;
use crate::text::decimal;
use crate::text::has_substring;
use crate::text::contains;
use crate::text::push_str;
use crate::text::string_of;
use crate::text::u32_to_decimal;

verus! {

/// The value of Transmission's `X-Transmission-Session-Id` header.
#[derive(Debug, Clone)]
pub struct TransmissionSessionId(pub String);

/// A Transmission RPC client: the session id it last received and the tag
/// of its last request.
pub struct TransmissionAPI {
    token: TransmissionSessionId,
    tag: u32,
}

/// The client's state as a mathematical value: session id and last tag.
pub struct ApiModel {
    pub session: Seq<char>,
    pub tag: nat,
}

/// What the server answered to a `torrent-add` request.
pub enum TransmissionReply {
    /// `200 OK` with the response body.
    Success(String),
    /// `409 Conflict`, with the session id header if the reply had one.
    Conflict(Option<String>),
    /// Any other status code.
    Other(u16),
}

/// The mathematical value of a reply.
pub enum ReplyView {
    Success(Seq<char>),
    Conflict(Option<Seq<char>>),
    Other(u16),
}

impl View for TransmissionReply {
    type V = ReplyView;

    open spec fn view(&self) -> ReplyView {
        match self {
            TransmissionReply::Success(b) => ReplyView::Success(b@),
            TransmissionReply::Conflict(Some(s)) => ReplyView::Conflict(Some(s@)),
            TransmissionReply::Conflict(None) => ReplyView::Conflict(None),
            TransmissionReply::Other(c) => ReplyView::Other(*c),
        }
    }
}

/// What to do after a reply.
#[derive(Debug, Clone, Copy, PartialEq, Eq, Structural)]
pub enum AddStep {
    /// The server handled the request; whether it reports `torrent-added`.
    Finished(bool),
    /// The session id was renewed: send the request again.
    Retry,
    /// A `409 Conflict` without a session id header.
    MissingSessionId,
    /// A status code the protocol does not expect.
    UnexpectedStatus(u16),
}

/// The JSON body of a `torrent-add` request with the given tag, torrent
/// URL and download directory, written as the client writes it (no
/// escaping of the strings).
pub open spec fn torrent_add_body(tag: nat, url: Seq<char>, dir: Seq<char>) -> Seq<char> {
    "{\"tag\":\""@ + decimal(tag) + "\",\"method\":\"torrent-add\",\"arguments\":{\"filename\":\""@
        + url + "\",\"download-dir\":\""@ + dir + "\"}}"@
}

/// The download directory sent for an optional one: the empty text when none.
pub open spec fn dir_text(dir: Option<Seq<char>>) -> Seq<char> {
    match dir {
        Some(d) => d,
        None => seq![],
    }
}

/// The state and body of the next request.
pub open spec fn model_request(m: ApiModel, url: Seq<char>, dir: Option<Seq<char>>) -> (ApiModel, Seq<char>) {
    let n = ApiModel { tag: m.tag + 1, ..m };
    (n, torrent_add_body(n.tag, url, dir_text(dir)))
}

/// The state and step after a reply.
pub open spec fn model_reply(m: ApiModel, reply: ReplyView) -> (ApiModel, AddStep) {
    match reply {
        ReplyView::Success(body) => (m, AddStep::Finished(has_substring(body, "torrent-added"@))),
        ReplyView::Conflict(Some(id)) => (ApiModel { session: id, ..m }, AddStep::Retry),
        ReplyView::Conflict(None) => (m, AddStep::MissingSessionId),
        ReplyView::Other(code) => (m, AddStep::UnexpectedStatus(code)),
    }
}

/// The view of an optional text.
pub open spec fn opt_text(o: Option<&str>) -> Option<Seq<char>> {
    match o {
        Some(s) => Some(s@),
        None => None,
    }
}

impl View for TransmissionAPI {
    type V = ApiModel;

    /// The client's state: session id and last tag.
    closed spec fn view(&self) -> ApiModel {
        ApiModel { session: self.token.0@, tag: self.tag as nat }
    }
}

impl TransmissionAPI {
    /// A fresh client: no session id yet, no request sent.
    pub fn new() -> (res: TransmissionAPI)
        ensures
            res@ == (ApiModel { session: seq![], tag: 0 }),
    {
        TransmissionAPI { token: TransmissionSessionId(String::new()), tag: 0 }
    }

    /// The session id to send with the next request.
    pub fn session_id(&self) -> (res: &str)
        ensures
            res@ == self@.session,
    {
        self.token.0.as_str()
    }

    /// The tag of the last request sent.
    pub fn tag(&self) -> (res: u32)
        ensures
            res as nat == self@.tag,
    {
        self.tag
    }

    /// Starts a `torrent-add` request for `url`: takes the next tag and
    /// returns the JSON body to send.
    pub fn next_request(&mut self, url: &str, download_dir: Option<&str>) -> (res: String)
        requires
            old(self)@.tag < u32::MAX,
        ensures
            (final(self)@, res@) == model_request(old(self)@, url@, opt_text(download_dir)),
    {
        self.tag = self.tag + 1;
        let dir: &str = match download_dir {
            Some(d) => d,
            None => "",
        };
        proof {
            reveal_strlit("");
        }
        let tag_text = u32_to_decimal(self.tag);
        let mut out: Vec<char> = Vec::new();
        push_str(&mut out, "{\"tag\":\"");
        push_str(&mut out, tag_text.as_str());
        push_str(&mut out, "\",\"method\":\"torrent-add\",\"arguments\":{\"filename\":\"");
        push_str(&mut out, url);
        push_str(&mut out, "\",\"download-dir\":\"");
        push_str(&mut out, dir);
        push_str(&mut out, "\"}}");
        string_of(out.as_slice())
    }

    /// Takes the server's reply to the last request: `200 OK` finishes with
    /// whether the body reports `torrent-added`; `409 Conflict` stores the
    /// new session id and asks for a retry.
    pub fn handle_reply(&mut self, reply: TransmissionReply) -> (res: AddStep)
        ensures
            (final(self)@, res) == model_reply(old(self)@, reply@),
            match reply@ {
                ReplyView::Success(body) => res == AddStep::Finished(has_substring(body, "torrent-added"@))
                    && final(self)@ == old(self)@,
                ReplyView::Conflict(Some(id)) => res == AddStep::Retry && final(self)@.session == id
                    && final(self)@.tag == old(self)@.tag,
                ReplyView::Conflict(None) => res == AddStep::MissingSessionId && final(self)@ == old(self)@,
                ReplyView::Other(code) => res == AddStep::UnexpectedStatus(code) && final(self)@ == old(self)@,
            },
    {
        match reply {
            TransmissionReply::Success(body) => AddStep::Finished(contains(body.as_str(), "torrent-added")),
            TransmissionReply::Conflict(Some(id)) => {
                self.token = TransmissionSessionId(id);
                AddStep::Retry
            },
            TransmissionReply::Conflict(None) => AddStep::MissingSessionId,
            TransmissionReply::Other(code) => AddStep::UnexpectedStatus(code),
        }
    }
}

/// A `200 OK` reply finishes the request, and the torrent counts as added
/// exactly when the body holds the text `torrent-added`: a body that only
/// reports success (a duplicate, say) counts as not added.
pub proof fn law_success_means_torrent_added(m: ApiModel, body: Seq<char>)
    ensures
        model_reply(m, ReplyView::Success(body)).1 == AddStep::Finished(has_substring(body, "torrent-added"@)),
        !has_substring(body, "torrent-added"@) ==> model_reply(m, ReplyView::Success(body)).1
            == AddStep::Finished(false),
        has_substring(body, "torrent-added"@) ==> model_reply(m, ReplyView::Success(body)).1
            == AddStep::Finished(true),
        model_reply(m, ReplyView::Success(body)).0 == m,
{
}

/// No reply changes the tag: only requests do.
pub proof fn law_reply_keeps_tag(m: ApiModel, reply: ReplyView)
    ensures
        model_reply(m, reply).0.tag == m.tag,
{
}

/// After a conflict that names a session id, the retried request is sent
/// under that id with the next tag.
pub proof fn law_conflict_then_retry(m: ApiModel, id: Seq<char>, url: Seq<char>, dir: Option<Seq<char>>)
    ensures
        model_reply(m, ReplyView::Conflict(Some(id))).1 == AddStep::Retry,
        model_request(model_reply(m, ReplyView::Conflict(Some(id))).0, url, dir).0
            == (ApiModel { session: id, tag: m.tag + 1 }),
        model_request(model_reply(m, ReplyView::Conflict(Some(id))).0, url, dir).1
            == torrent_add_body(m.tag + 1, url, dir_text(dir)),
{
}

} // verus!
