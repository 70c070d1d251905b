//! The admin endpoint: which page a request asks for, and what the short pages
//! hold.
use crate::cluster;
use crate::credentials;
use crate::domain::PeerInfo;
use crate::metrics::StoreStats;
use crate::text;
use vstd::prelude::*;
use vstd::slice::slice_subrange;
use vstd::utf8::*;

verus! {

/// A page that is served.
#[derive(Debug, Clone, Copy, PartialEq, Eq, Structural)]
pub enum Page {
    /// The Prometheus page.
    Metrics,
    /// Whether the server is up.
    Health,
    /// The store's figures and the view of the cluster, as JSON.
    Stats,
}

/// Why a request gets no page.
#[derive(Debug, Clone, Copy, PartialEq, Eq, Structural)]
pub enum Refusal {
    NotFound,
    MethodNotAllowed,
}

/// The method of a request: what stands before its first space.
pub open spec fn method_of(request: Seq<u8>) -> Seq<u8> {
    request.take(text::first_space(request) as int)
}

/// The target of a request: what stands between its first two spaces.
pub open spec fn target_of(request: Seq<u8>) -> Seq<u8> {
    let k = text::first_space(request) as int;
    if k >= request.len() {
        Seq::empty()
    } else {
        method_of(request.skip(k + 1))
    }
}

/// The page a request asks for. Pages are only read, so every other method is
/// refused, whatever it names.
pub open spec fn page_of(request: Seq<u8>) -> Result<Page, Refusal> {
    let target = target_of(request);
    if method_of(request) != encode_utf8("GET"@) {
        Err(Refusal::MethodNotAllowed)
    } else if target == encode_utf8("/metrics"@) {
        Ok(Page::Metrics)
    } else if target == encode_utf8("/health"@) {
        Ok(Page::Health)
    } else if target == encode_utf8("/stats"@) {
        Ok(Page::Stats)
    } else {
        Err(Refusal::NotFound)
    }
}

fn word(bytes: &[u8]) -> (word: &[u8])
    ensures
        word@ == method_of(bytes@),
        word@.len() == text::first_space(bytes@) <= bytes@.len(),
{
    let end = text::find_space(bytes, 0);
    proof {
        text::lemma_first_space(bytes@, end as int);
        assert(bytes@.subrange(0, end as int) =~= bytes@.take(end as int));
    }
    slice_subrange(bytes, 0, end)
}

/// Decides which page a request asks for.
pub fn route(request: &[u8]) -> (page: Result<Page, Refusal>)
    ensures
        page == page_of(request@),
{
    let method = word(request);
    let from: usize = if method.len() < request.len() {
        method.len() + 1
    } else {
        request.len()
    };
    let rest = slice_subrange(request, from, request.len());
    let target = word(rest);
    assert(target@ =~= target_of(request@)) by {
        if method@.len() < request@.len() {
            assert(rest@ =~= request@.skip(method@.len() as int + 1));
        }
    }
    if !text::same_bytes(method, "GET".as_bytes()) {
        Err(Refusal::MethodNotAllowed)
    } else if text::same_bytes(target, "/metrics".as_bytes()) {
        Ok(Page::Metrics)
    } else if text::same_bytes(target, "/health".as_bytes()) {
        Ok(Page::Health)
    } else if text::same_bytes(target, "/stats".as_bytes()) {
        Ok(Page::Stats)
    } else {
        Err(Refusal::NotFound)
    }
}

/// The status line's code and reason for what a request came to.
pub fn status(page: Result<Page, Refusal>) -> (line: &'static str)
    ensures
        line@ == (match page {
            Ok(_) => "200 OK"@,
            Err(Refusal::NotFound) => "404 Not Found"@,
            Err(Refusal::MethodNotAllowed) => "405 Method Not Allowed"@,
        }),
{
    match page {
        Ok(_) => "200 OK",
        Err(Refusal::NotFound) => "404 Not Found",
        Err(Refusal::MethodNotAllowed) => "405 Method Not Allowed",
    }
}

/// What the health page holds while the server is serving.
pub fn health() -> (page: &'static str)
    ensures
        page@ == "ok\n"@,
{
    "ok\n"
}

/// A character inside a JSON string.
pub open spec fn json_char(c: char) -> Seq<char> {
    if c == '"' {
        "\\\""@
    } else if c == '\\' {
        "\\\\"@
    } else if 0x20 > c as u32 {
        "\\u00"@ + credentials::hex_text(seq![c as u8])
    } else {
        seq![c]
    }
}

/// The inside of a JSON string.
pub open spec fn json_chars(s: Seq<char>) -> Seq<char>
    decreases s.len(),
{
    if s.len() == 0 {
        Seq::empty()
    } else {
        json_chars(s.drop_last()) + json_char(s.last())
    }
}

/// A JSON string.
pub open spec fn json_string(s: Seq<char>) -> Seq<char> {
    "\""@ + json_chars(s) + "\""@
}

fn push_json_string(out: &mut String, s: &str)
    ensures
        final(out)@ == old(out)@ + json_string(s@),
{
    let chars = text::chars_of(s);
    let ghost before = out@;
    out.append("\"");
    let mut i: usize = 0;
    while i < chars.len()
        invariant
            i <= chars@.len(),
            out@ == before + "\""@ + json_chars(chars@.take(i as int)),
        decreases chars@.len() - i,
    {
        let c = chars[i];
        let ghost so_far = json_chars(chars@.take(i as int));
        if c == '"' {
            out.append("\\\"");
        } else if c == '\\' {
            out.append("\\\\");
        } else if 0x20 > c as u32 {
            out.append("\\u00");
            let byte: [u8; 1] = [c as u8];
            assert(byte@ =~= seq![c as u8]);
            out.append(credentials::hex(&byte).as_str());
        } else {
            out.push(c);
        }
        i = i + 1;
        assert(chars@.take(i as int).drop_last() =~= chars@.take(i - 1));
        assert(out@ =~= before + "\""@ + (so_far + json_char(c)));
    }
    assert(chars@.take(i as int) =~= chars@);
    out.append("\"");
    assert(out@ =~= before + json_string(s@));
}

/// A peer, as the stats page lists it.
pub open spec fn json_peer(peer: cluster::Link) -> Seq<char> {
    "{\"addr\": "@ + json_string(peer.addr) + ", \"reachable\": "@ + (if peer.reachable {
        "true"@
    } else {
        "false"@
    }) + "}"@
}

/// The peers, as the stats page lists them.
pub open spec fn json_peers(peers: Seq<cluster::Link>) -> Seq<char>
    decreases peers.len(),
{
    if peers.len() == 0 {
        Seq::empty()
    } else if peers.len() == 1 {
        json_peer(peers[0])
    } else {
        json_peers(peers.drop_last()) + ", "@ + json_peer(peers.last())
    }
}

fn push_peer(out: &mut String, peer: &PeerInfo)
    ensures
        final(out)@ == old(out)@ + json_peer(
            cluster::Link { addr: peer.addr@, reachable: peer.reachable },
        ),
{
    let ghost before = out@;
    out.append("{\"addr\": ");
    push_json_string(out, peer.addr.as_str());
    out.append(", \"reachable\": ");
    if peer.reachable {
        out.append("true");
    } else {
        out.append("false");
    }
    out.append("}");
    assert(out@ =~= before + json_peer(
        cluster::Link { addr: peer.addr@, reachable: peer.reachable },
    ));
}

fn push_peers(out: &mut String, peers: &Vec<PeerInfo>)
    ensures
        final(out)@ == old(out)@ + json_peers(cluster::listed(peers@)),
{
    let ghost before = out@;
    let ghost links = cluster::listed(peers@);
    let mut i: usize = 0;
    while i < peers.len()
        invariant
            i <= peers@.len(),
            links == cluster::listed(peers@),
            out@ == before + json_peers(links.take(i as int)),
        decreases peers@.len() - i,
    {
        let ghost so_far = json_peers(links.take(i as int));
        if i > 0 {
            out.append(", ");
        }
        push_peer(out, &peers[i]);
        i = i + 1;
        assert(links.take(i as int).drop_last() =~= links.take(i - 1));
        if i == 1 {
            assert(out@ =~= before + json_peer(links[0]));
        } else {
            assert(out@ =~= before + (so_far + ", "@ + json_peer(links[i - 1])));
        }
    }
    assert(links.take(i as int) =~= links);
}

/// The stats page: the store's figures, and this node's view of the cluster.
/// `pressure` is the engine's own word for how close the store is to its
/// watermarks, and `mode` the word for the cluster's mode.
pub open spec fn stats_page(
    store: StoreStats,
    pressure: Seq<char>,
    mode: Seq<char>,
    peers: Seq<cluster::Link>,
) -> Seq<char> {
    "{\"shards\": "@ + text::decimal(store.shards as nat) + ", \"items\": "@ + text::decimal(
        store.entries as nat,
    ) + ", \"pressure\": "@ + json_string(pressure) + ", \"cluster\": {\"mode\": "@ + json_string(
        mode,
    ) + ", \"peers\": ["@ + json_peers(peers) + "]}}\n"@
}

/// Renders the stats page. The view of the cluster is there with no peers
/// configured too.
pub fn render_stats(store: &StoreStats, pressure: &str, mode: &str, peers: &Vec<PeerInfo>) -> (page:
    String)
    ensures
        page@ == stats_page(*store, pressure@, mode@, cluster::listed(peers@)),
{
    let mut page = "{\"shards\": ".to_owned();
    text::push_decimal(&mut page, store.shards);
    page.append(", \"items\": ");
    text::push_decimal(&mut page, store.entries);
    page.append(", \"pressure\": ");
    push_json_string(&mut page, pressure);
    page.append(", \"cluster\": {\"mode\": ");
    push_json_string(&mut page, mode);
    page.append(", \"peers\": [");
    push_peers(&mut page, peers);
    page.append("]}}\n");
    page
}

/// The stats page tells the mode of the cluster, and of every peer its address
/// and whether the last exchange with it succeeded.
pub proof fn the_stats_page_tells_of_every_peer(
    store: StoreStats,
    pressure: Seq<char>,
    mode: Seq<char>,
    peers: Seq<cluster::Link>,
)
    ensures
        credentials::holds_text(stats_page(store, pressure, mode, peers), json_string(mode)),
        forall|i: int|
            0 <= i < peers.len() ==> credentials::holds_text(
                stats_page(store, pressure, mode, peers),
                json_peer(#[trigger] peers[i]),
            ),
{
    let page = stats_page(store, pressure, mode, peers);
    let head = "{\"shards\": "@ + text::decimal(store.shards as nat) + ", \"items\": "@
        + text::decimal(store.entries as nat) + ", \"pressure\": "@ + json_string(pressure)
        + ", \"cluster\": {\"mode\": "@;
    let list = head + json_string(mode) + ", \"peers\": ["@;
    lemma_holds(head, json_string(mode), ", \"peers\": ["@ + json_peers(peers) + "]}}\n"@);
    assert(page =~= head + json_string(mode) + (", \"peers\": ["@ + json_peers(peers)
        + "]}}\n"@));
    assert forall|i: int| 0 <= i < peers.len() implies credentials::holds_text(
        page,
        json_peer(#[trigger] peers[i]),
    ) by {
        let (before, after) = lemma_peer_listed(peers, i);
        lemma_holds(list + before, json_peer(peers[i]), after + "]}}\n"@);
        assert(page =~= list + before + json_peer(peers[i]) + (after + "]}}\n"@));
    }
}

proof fn lemma_holds(before: Seq<char>, part: Seq<char>, after: Seq<char>)
    ensures
        credentials::holds_text(before + part + after, part),
{
    let at = before.len() as int;
    assert((before + part + after).subrange(at, at + part.len()) =~= part);
}

proof fn lemma_peer_listed(peers: Seq<cluster::Link>, i: int) -> (around: (Seq<char>, Seq<char>))
    requires
        0 <= i < peers.len(),
    ensures
        json_peers(peers) == around.0 + json_peer(peers[i]) + around.1,
    decreases peers.len(),
{
    let none = Seq::<char>::empty();
    if peers.len() == 1 {
        assert(json_peers(peers) =~= none + json_peer(peers[i]) + none);
        (none, none)
    } else if i == peers.len() - 1 {
        let before = json_peers(peers.drop_last()) + ", "@;
        assert(json_peers(peers) =~= before + json_peer(peers[i]) + none);
        (before, none)
    } else {
        let (before, after) = lemma_peer_listed(peers.drop_last(), i);
        let rest = after + (", "@ + json_peer(peers.last()));
        assert(json_peers(peers) =~= before + json_peer(peers[i]) + rest);
        (before, rest)
    }
}

/// A page is served to a `GET` of its own path and to nothing else. Another path is not
/// found, and another method is not allowed, whatever it names.
pub proof fn a_page_is_served_at_its_own_path(request: Seq<u8>)
    ensures
        page_of(request) is Ok ==> method_of(request) == encode_utf8("GET"@),
        page_of(request) == Ok::<Page, Refusal>(Page::Metrics) ==> target_of(request)
            == encode_utf8("/metrics"@),
        page_of(request) == Ok::<Page, Refusal>(Page::Health) ==> target_of(request)
            == encode_utf8("/health"@),
        page_of(request) == Ok::<Page, Refusal>(Page::Stats) ==> target_of(request) == encode_utf8(
            "/stats"@,
        ),
        page_of(request) == Err::<Page, Refusal>(Refusal::MethodNotAllowed) <==> method_of(request)
            != encode_utf8("GET"@),
        method_of(request) == encode_utf8("GET"@) && (target_of(request) == encode_utf8(
            "/metrics"@,
        ) || target_of(request) == encode_utf8("/health"@) || target_of(request) == encode_utf8(
            "/stats"@,
        )) ==> page_of(request) is Ok,
{
}

/// A JSON string holds no control character, and a quote in it only behind a
/// backslash.
pub proof fn a_json_character_cannot_end_its_string(c: char)
    ensures
        json_char(c).len() > 0,
        json_char(c).len() == 1 ==> json_char(c)[0] == c && c != '"' && c != '\\' && c as u32
            >= 0x20,
        json_char(c).len() > 1 ==> json_char(c)[0] == '\\',
{
    reveal_strlit("\\\"");
    reveal_strlit("\\\\");
    reveal_strlit("\\u00");
}

} // verus!
