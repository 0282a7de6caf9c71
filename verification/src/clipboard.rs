//! Clipboard synchronisation: type normalisation, loop and repeat suppression, rate limit,
//! and the hand-off of large images to the file channel.
use vstd::prelude::*;
use vstd::string::*;
use vstd::utf8::*;
use crate::json::{json_get_str, json_str_field};
use crate::protocol::binary_codec::{json_string, push_json_int_field, push_json_str_field};
use crate::sender_queue::{SendItem, SenderQueue, is_media_header_spec, prepared, kept_for};
use crate::text::{
    chars_of, contains_seq, first_index, is_prefix, lemma_first_index, lowercase, owned, push_char,
    push_str, split_once_seq, str_eq, str_starts_with, string_of, sub_chars, find_char, to_lowercase,
    dec_int,
};

verus! {

/// Window (ms) in which a change equal to what was just received is taken as an echo.
pub const ANTI_LOOP_DELAY_MS: i64 = 1000;
/// Minimum interval (ms) between two sends.
pub const FREQ_LIMIT_MS: i64 = 1000;
/// Decoded size (bytes) above which an image goes through the file channel.
pub const LARGE_CONTENT_THRESHOLD: usize = 2097152;

/// What the library remembers of the clipboard.
pub struct ClipboardState {
    pub last_content: String,
    pub last_type: String,
    pub last_sync_time: i64,
    pub last_received_content: String,
    pub last_received_type: String,
    pub last_received_time: i64,
}

/// What `on_changed` decides.
#[derive(Debug, Clone, Copy, PartialEq, Eq, Structural)]
pub enum ClipboardDecision {
    /// The normalised content is empty.
    Empty,
    /// The content is what was just received from a peer.
    FromRemote,
    /// The content was already sent (and the send is not forced).
    Unchanged,
    /// The last send was less than a second ago.
    TooFrequent,
    /// A large image: handed to the file channel.
    FileTransfer,
    /// Sent to every target.
    Send,
}

/// Internal type of a MIME type: `text/...` is `text`, `image/...` is `image`, others stay.
pub open spec fn normalize_type_spec(mime: Seq<char>) -> Seq<char> {
    if is_prefix("text/"@, mime) {
        "text"@
    } else if is_prefix("image/"@, mime) {
        "image"@
    } else {
        mime
    }
}

/// Content as sent: the part after the first comma of an image data URL, else unchanged.
pub open spec fn normalize_content_spec(c: Seq<char>) -> Seq<char> {
    if is_prefix("data:image/"@, lowercase(c)) {
        match split_once_seq(c, ',') {
            Some(parts) => parts.1,
            None => c,
        }
    } else {
        c
    }
}

/// Estimated decoded size of base64 text of `n` bytes.
pub open spec fn decoded_len_spec(n: int) -> int {
    (n * 3) / 4
}

/// The decision for a change of normalised type `t` and content `c` at time `now`.
pub open spec fn decide_spec(s: ClipboardState, t: Seq<char>, c: Seq<char>, now: i64, force: bool) -> ClipboardDecision {
    if c.len() == 0 {
        ClipboardDecision::Empty
    } else if s.last_received_content@.len() > 0 && s.last_received_type@ == t
        && s.last_received_content@ == c && now - s.last_received_time < ANTI_LOOP_DELAY_MS {
        ClipboardDecision::FromRemote
    } else if !force && s.last_content@.len() > 0 && s.last_content@ == c && s.last_type@ == t {
        ClipboardDecision::Unchanged
    } else if s.last_sync_time > 0 && now - s.last_sync_time < FREQ_LIMIT_MS {
        ClipboardDecision::TooFrequent
    } else if t == "image"@ && decoded_len_spec((encode_utf8(c).len() as usize) as int) > LARGE_CONTENT_THRESHOLD {
        ClipboardDecision::FileTransfer
    } else {
        ClipboardDecision::Send
    }
}

/// The JSON answer `{"action":"skipped","reason":...}`.
pub open spec fn skipped_json(reason: Seq<char>) -> Seq<char> {
    "{\"action\":\"skipped\",\"reason\":"@ + json_string(reason) + "}"@
}

/// The JSON answer for a decision.
pub open spec fn decision_json(d: ClipboardDecision) -> Seq<char> {
    match d {
        ClipboardDecision::Empty => skipped_json("内容为空"@),
        ClipboardDecision::FromRemote => skipped_json("内容来自远程，跳过发送"@),
        ClipboardDecision::Unchanged => skipped_json("内容未改变"@),
        ClipboardDecision::TooFrequent => skipped_json("同步过于频繁"@),
        ClipboardDecision::FileTransfer => "{\"action\":\"file_transfer\"}"@,
        ClipboardDecision::Send => "{\"action\":\"sent\"}"@,
    }
}

/// The `DATA_CLIPBOARD` payload (keys in sorted order).
pub open spec fn clipboard_payload(t: Seq<char>, c: Seq<char>, now: i64) -> Seq<char> {
    seq!['{'] + json_string("clipboardType"@) + seq![':'] + json_string(t)
        + seq![','] + json_string("content"@) + seq![':'] + json_string(c)
        + seq![','] + json_string("time"@) + seq![':'] + dec_int(now as int)
        + seq![','] + json_string("type"@) + seq![':'] + json_string("DATA_CLIPBOARD"@)
        + seq!['}']
}

/// The targets that are not empty, in order.
pub open spec fn nonempty_targets(targets: Seq<String>) -> Seq<String> {
    targets.filter(|s: String| s@.len() > 0)
}

/// `p` is the queued clipboard message for `uuid`.
pub open spec fn clipboard_item(p: SendItem, uuid: String, payload: Seq<char>) -> bool {
    &&& p.device_uuid == uuid
    &&& p.header@ == "DATA_CLIPBOARD"@
    &&& p.plaintext@ == payload
    &&& p.dedup_key is None
    &&& p.retries_left == 3
    &&& p.coalesce_key is None
}

/// The answer to a received clipboard: `{"content":...,"type":...}` (sorted keys).
pub open spec fn received_json(t: Seq<char>, c: Seq<char>) -> Seq<char> {
    seq!['{'] + json_string("content"@) + seq![':'] + json_string(c)
        + seq![','] + json_string("type"@) + seq![':'] + json_string(t) + seq!['}']
}

impl ClipboardState {
    /// Nothing sent or received yet.
    pub fn new() -> (r: ClipboardState)
        ensures
            r.last_content@.len() == 0,
            r.last_type@.len() == 0,
            r.last_sync_time == 0,
            r.last_received_content@.len() == 0,
            r.last_received_type@.len() == 0,
            r.last_received_time == 0,
    {
        ClipboardState {
            last_content: String::new(),
            last_type: String::new(),
            last_sync_time: 0,
            last_received_content: String::new(),
            last_received_type: String::new(),
            last_received_time: 0,
        }
    }
}

impl Default for ClipboardState {
    fn default() -> (r: ClipboardState)
        ensures
            r.last_content@.len() == 0,
            r.last_sync_time == 0,
            r.last_received_content@.len() == 0,
            r.last_received_time == 0,
    {
        ClipboardState::new()
    }
}

/// Normalises a MIME type: `text/...` to `text`, `image/...` to `image`.
pub fn normalize_type(mime: &str) -> (r: String)
    ensures
        r@ == normalize_type_spec(mime@),
{
    if str_starts_with(mime, "text/") {
        owned("text")
    } else if str_starts_with(mime, "image/") {
        owned("image")
    } else {
        owned(mime)
    }
}

/// Normalises content: of an image data URL (`data:image/...;base64,xxx`, prefix compared
/// case-insensitively) only the part after the first comma is kept.
pub fn normalize_content(content: &str) -> (r: String)
    ensures
        r@ == normalize_content_spec(content@),
{
    let lower = to_lowercase(content);
    let cs = chars_of(content);
    if str_starts_with(lower.as_str(), "data:image/") {
        match find_char(cs.as_slice(), ',') {
            Some(i) => {
                proof {
                    lemma_first_index(cs@, ',');
                    assert(first_index(cs@, ',') == Some(i as int));
                }
                assert(i < cs.len());
                let rest = sub_chars(cs.as_slice(), i + 1, cs.len());
                string_of(rest.as_slice())
            },
            None => owned(content),
        }
    } else {
        owned(content)
    }
}

/// Estimated decoded size of base64 text of `n` bytes: `n * 3 / 4`, computed without
/// overflow.
pub fn decoded_len(n: usize) -> (r: usize)
    ensures
        r == decoded_len_spec(n as int),
{
    let q = n / 4;
    let rem = n % 4;
    proof {
        assert(n == 4 * q + rem);
        assert((n as int * 3) / 4 == 3 * q + (rem * 3) / 4) by (nonlinear_arith)
            requires
                n == 4 * q + rem,
                0 <= rem < 4,
        ;
    }
    3 * q + (rem * 3) / 4
}

/// The decision for a change of normalised type `t` and content `c` at time `now`.
pub fn decide(state: &ClipboardState, t: &str, c: &str, now: i64, force: bool) -> (r: ClipboardDecision)
    ensures
        r == decide_spec(*state, t@, c@, now, force),
{
    let cs = chars_of(c);
    if cs.len() == 0 {
        return ClipboardDecision::Empty;
    }
    let rc = chars_of(state.last_received_content.as_str());
    if rc.len() > 0 && str_eq(state.last_received_type.as_str(), t)
        && str_eq(state.last_received_content.as_str(), c)
        && (now as i128) - (state.last_received_time as i128) < (ANTI_LOOP_DELAY_MS as i128) {
        return ClipboardDecision::FromRemote;
    }
    let lc = chars_of(state.last_content.as_str());
    if !force && lc.len() > 0 && str_eq(state.last_content.as_str(), c)
        && str_eq(state.last_type.as_str(), t) {
        return ClipboardDecision::Unchanged;
    }
    if state.last_sync_time > 0 && (now as i128) - (state.last_sync_time as i128) < (FREQ_LIMIT_MS as i128) {
        return ClipboardDecision::TooFrequent;
    }
    if str_eq(t, "image") && decoded_len(c.len()) > LARGE_CONTENT_THRESHOLD {
        return ClipboardDecision::FileTransfer;
    }
    ClipboardDecision::Send
}

/// The JSON answer for a decision.
pub fn decision_text(d: ClipboardDecision) -> (r: String)
    ensures
        r@ == decision_json(d),
{
    match d {
        ClipboardDecision::Empty => skipped("内容为空"),
        ClipboardDecision::FromRemote => skipped("内容来自远程，跳过发送"),
        ClipboardDecision::Unchanged => skipped("内容未改变"),
        ClipboardDecision::TooFrequent => skipped("同步过于频繁"),
        ClipboardDecision::FileTransfer => owned("{\"action\":\"file_transfer\"}"),
        ClipboardDecision::Send => owned("{\"action\":\"sent\"}"),
    }
}

fn skipped(reason: &str) -> (r: String)
    ensures
        r@ == skipped_json(reason@),
{
    let mut out = owned("{\"action\":\"skipped\",\"reason\":");
    let q = crate::protocol::binary_codec::json_quote(reason);
    push_str(&mut out, q.as_str());
    push_str(&mut out, "}");
    out
}

/// The `DATA_CLIPBOARD` payload for type `t`, content `c` and time `now`.
pub fn build_data_clipboard_json(t: &str, c: &str, now: i64) -> (r: String)
    ensures
        r@ == clipboard_payload(t@, c@, now),
{
    let mut out = String::new();
    push_char(&mut out, '{');
    push_json_str_field(&mut out, "clipboardType", t);
    push_char(&mut out, ',');
    push_json_str_field(&mut out, "content", c);
    push_char(&mut out, ',');
    push_json_int_field(&mut out, "time", now);
    push_char(&mut out, ',');
    push_json_str_field(&mut out, "type", "DATA_CLIPBOARD");
    push_char(&mut out, '}');
    assert(out@ =~= clipboard_payload(t@, c@, now));
    out
}

/// What `on_changed` does to the clipboard state (`before` to `after`) and the queue (`q0` to
/// `q1`), answering `r`.
pub open spec fn changed_post(
    before: ClipboardState,
    after: ClipboardState,
    q0: SenderQueue,
    q1: SenderQueue,
    targets: Seq<String>,
    mime: Seq<char>,
    content: Seq<char>,
    now: i64,
    force: bool,
    r: Seq<char>,
) -> bool {
            let t = normalize_type_spec(mime);
            let c = normalize_content_spec(content);
            let d = decide_spec(before, t, c, now, force);
            let n = q0.queued().len();
            let sent = nonempty_targets(targets);
            &&& r == decision_json(d)
            &&& (d == ClipboardDecision::Send || d == ClipboardDecision::FileTransfer) ==> {
                &&& after.last_content@ == c
                &&& after.last_type@ == t
                &&& after.last_sync_time == now
                &&& after.last_received_content == before.last_received_content
                &&& after.last_received_type == before.last_received_type
                &&& after.last_received_time == before.last_received_time
            }
            &&& !(d == ClipboardDecision::Send || d == ClipboardDecision::FileTransfer) ==> after == before
            &&& d == ClipboardDecision::Send ==> {
                &&& q1.queued().len() == n + sent.len()
                &&& q1.queued().take(n as int) == q0.queued()
                &&& forall|k: int| 0 <= k < sent.len() ==>
                    clipboard_item(#[trigger] q1.queued()[n + k], sent[k], clipboard_payload(t, c, now))
            }
            &&& d != ClipboardDecision::Send ==> q1.queued() == q0.queued()
            &&& q1.in_flight_table() == q0.in_flight_table()
            &&& q1.busy_table() == q0.busy_table()
            &&& q1.cooldown_table() == q0.cooldown_table()
            &&& q1.streak_table() == q0.streak_table()
            &&& q1.active_spec() == q0.active_spec()
        }

/// A clipboard change seen on this device (`mime`, `content`) at time `now`.
///
/// The type and content are normalised and a decision taken (see `decide_spec`). For a
/// large image the state remembers the content and the file channel is asked for; on
/// `Send` one `DATA_CLIPBOARD` message per non-empty target is queued, in order, and the
/// state remembers the content. Answers the decision as JSON.
pub fn on_changed(
    state: &mut ClipboardState,
    queue: &mut SenderQueue,
    targets: &[String],
    mime: &str,
    content: &str,
    now: i64,
    force: bool,
) -> (r: String)
    ensures
        changed_post(*old(state), *final(state), *old(queue), *final(queue), targets@, mime@, content@, now, force, r@),
{
    let ctype = normalize_type(mime);
    let ccontent = normalize_content(content);
    let d = decide(state, ctype.as_str(), ccontent.as_str(), now, force);
    match d {
        ClipboardDecision::FileTransfer => {
            state.last_content = ccontent;
            state.last_type = ctype;
            state.last_sync_time = now;
        },
        ClipboardDecision::Send => {
            let payload = build_data_clipboard_json(ctype.as_str(), ccontent.as_str(), now);
            let ghost n = queue.queued().len();
            let ghost start = queue.queued();
            let ghost pl = payload@;
            proof {
                reveal_strlit("DATA_CLIPBOARD");
                reveal_strlit("DATA_MEDIAPLAY");
                reveal_strlit("DATA_SUPERISLAND");
                assert("DATA_CLIPBOARD"@[5] != "DATA_MEDIAPLAY"@[5]);
                assert(!is_media_header_spec("DATA_CLIPBOARD"@));
            }
            let mut i: usize = 0;
            assert(targets@.take(0).filter(|s: String| s@.len() > 0) =~= Seq::<String>::empty()) by {
                reveal(Seq::filter);
            }
            assert(queue.queued().take(n as int) =~= start);
            while i < targets.len()
                invariant
                    i <= targets.len(),
                    !is_media_header_spec("DATA_CLIPBOARD"@),
                    pl == payload@,
                    queue.queued().len() == n + nonempty_targets(targets@.take(i as int)).len(),
                    queue.queued().take(n as int) == start,
                    forall|k: int| 0 <= k < nonempty_targets(targets@.take(i as int)).len() ==>
                        clipboard_item(#[trigger] queue.queued()[n + k], nonempty_targets(targets@.take(i as int))[k], pl),
                    queue.in_flight_table() == old(queue).in_flight_table(),
                    queue.busy_table() == old(queue).busy_table(),
                    queue.cooldown_table() == old(queue).cooldown_table(),
                    queue.streak_table() == old(queue).streak_table(),
                    queue.active_spec() == old(queue).active_spec(),
                    start == old(queue).queued(),
                    n == start.len(),
                decreases targets.len() - i,
            {
                let ghost prev_sent = nonempty_targets(targets@.take(i as int));
                let ghost before = queue.queued();
                proof {
                    assert(targets@.take(i + 1) =~= targets@.take(i as int).push(targets@[i as int]));
                    targets@.take(i as int).lemma_filter_push(targets@[i as int], |s: String| s@.len() > 0);
                }
                let uuid = &targets[i];
                if uuid.as_str().is_empty() {
                    i = i + 1;
                    continue;
                }
                let item = SendItem {
                    device_uuid: uuid.clone(),
                    header: owned("DATA_CLIPBOARD"),
                    plaintext: payload.clone(),
                    dedup_key: None,
                    retries_left: 0,
                    coalesce_key: None,
                };
                queue.enqueue(item);
                proof {
                    let q = queue.queued();
                    assert(kept_for(before, q.last()) == before);
                    assert(q == before.push(q.last()));
                    assert forall|k: int| 0 <= k < n + prev_sent.len() + 1 && k < n implies
                        #[trigger] q[k] == start[k] by {
                        assert(before.take(n as int)[k] == before[k]);
                    }
                    assert(q.take(n as int) =~= start);
                    let now_sent = prev_sent.push(targets@[i as int]);
                    assert forall|k: int| 0 <= k < now_sent.len() implies
                        clipboard_item(#[trigger] q[n + k], now_sent[k], pl) by {
                        if k < prev_sent.len() {
                            assert(q[n + k] == before[n + k]);
                        }
                    }
                }
                i = i + 1;
            }
            proof {
                assert(targets@.take(targets.len() as int) =~= targets@);
            }
            state.last_content = ccontent;
            state.last_type = ctype;
            state.last_sync_time = now;
        },
        _ => {},
    }
    decision_text(d)
}

fn has_target(targets: &[String]) -> (r: bool)
    ensures
        r == (nonempty_targets(targets@).len() > 0),
{
    let mut i: usize = 0;
    while i < targets.len()
        invariant
            i <= targets.len(),
            forall|j: int| 0 <= j < i ==> (#[trigger] targets@[j])@.len() == 0,
        decreases targets.len() - i,
    {
        if !targets[i].as_str().is_empty() {
            proof {
                targets@.lemma_filter_contains(|s: String| s@.len() > 0, i as int);
            }
            return true;
        }
        i = i + 1;
    }
    proof {
        let f = nonempty_targets(targets@);
        if f.len() > 0 {
            targets@.lemma_filter_pred(|s: String| s@.len() > 0, 0);
            assert(f.contains(f[0]));
            targets@.lemma_filter_contains_rev(|s: String| s@.len() > 0, f[0]);
        }
    }
    false
}

/// A clipboard change the platform reports for `targets`: with no non-empty target it is
/// skipped (`"no targets"`) and nothing changes; otherwise it is `on_changed`.
pub fn on_changed_for_targets(
    state: &mut ClipboardState,
    queue: &mut SenderQueue,
    targets: &[String],
    mime: &str,
    content: &str,
    now: i64,
    force: bool,
) -> (r: String)
    ensures
        nonempty_targets(targets@).len() == 0 ==> r@ == skipped_json("no targets"@)
            && *final(state) == *old(state) && *final(queue) == *old(queue),
        nonempty_targets(targets@).len() > 0 ==> changed_post(*old(state), *final(state), *old(queue), *final(queue),
            targets@, mime@, content@, now, force, r@),
{
    if !has_target(targets) {
        return skipped("no targets");
    }
    on_changed(state, queue, targets, mime, content, now, force)
}

/// The fields read from a received clipboard message, or `None` when it is not JSON.
/// Missing fields default to type `text` and empty content.
pub fn apply_received(
    state: &mut ClipboardState,
    fields: Option<(Option<String>, Option<String>)>,
    now: i64,
) -> (r: String)
    ensures
        match fields {
            None => r@ == "{\"type\":\"text\",\"content\":\"\"}"@ && *final(state) == *old(state),
            Some((mime, content)) => {
                let t = normalize_type_spec(match mime { Some(m) => m@, None => "text"@ });
                let c = normalize_content_spec(match content { Some(x) => x@, None => Seq::<char>::empty() });
                &&& r@ == received_json(t, c)
                &&& final(state).last_received_content@ == c
                &&& final(state).last_received_type@ == t
                &&& final(state).last_received_time == now
                &&& final(state).last_content == old(state).last_content
                &&& final(state).last_type == old(state).last_type
                &&& final(state).last_sync_time == old(state).last_sync_time
            },
        },
{
    match fields {
        None => owned("{\"type\":\"text\",\"content\":\"\"}"),
        Some((mime, content)) => {
            let m = match &mime {
                Some(x) => owned(x.as_str()),
                None => owned("text"),
            };
            let raw = match &content {
                Some(x) => owned(x.as_str()),
                None => String::new(),
            };
            let t = normalize_type(m.as_str());
            let c = normalize_content(raw.as_str());
            let mut out = String::new();
            push_char(&mut out, '{');
            push_json_str_field(&mut out, "content", c.as_str());
            push_char(&mut out, ',');
            push_json_str_field(&mut out, "type", t.as_str());
            push_char(&mut out, '}');
            assert(out@ =~= received_json(t@, c@));
            state.last_received_content = c;
            state.last_received_type = t;
            state.last_received_time = now;
            out
        },
    }
}

/// A clipboard message received from a peer (`payload_json`, with `clipboardType` and
/// `content`) at time `now`: normalised, remembered for echo suppression, and answered as
/// `{"content":...,"type":...}`.
pub fn on_received(state: &mut ClipboardState, payload_json: &str, now: i64) -> (r: String)
    ensures
        json_str_field(payload_json@, "clipboardType"@) is None ==> r@ == "{\"type\":\"text\",\"content\":\"\"}"@,
        json_str_field(payload_json@, "clipboardType"@) is Some && json_str_field(payload_json@, "content"@) is Some ==> {
            let t = normalize_type_spec(match json_str_field(payload_json@, "clipboardType"@)->0 { Some(m) => m, None => "text"@ });
            let c = normalize_content_spec(match json_str_field(payload_json@, "content"@)->0 { Some(x) => x, None => Seq::<char>::empty() });
            &&& r@ == received_json(t, c)
            &&& final(state).last_received_content@ == c
            &&& final(state).last_received_type@ == t
            &&& final(state).last_received_time == now
        },
{
    let fields = match json_get_str(payload_json, "clipboardType") {
        None => None,
        Some(mime) => match json_get_str(payload_json, "content") {
            None => None,
            Some(content) => Some((mime, content)),
        },
    };
    apply_received(state, fields, now)
}

// ===================== laws =====================

/// The state after a change was sent (or handed to the file channel) at time `now`.
pub open spec fn after_send(s: ClipboardState, t: String, c: String, now: i64) -> ClipboardState {
    ClipboardState { last_content: c, last_type: t, last_sync_time: now, ..s }
}

/// Law: once content was sent, the same content of the same type is not sent again unless
/// the send is forced.
pub proof fn law_repeat_not_resent(s: ClipboardState, t: String, c: String, now: i64, later: i64)
    requires
        decide_spec(s, t@, c@, now, false) == ClipboardDecision::Send,
    ensures
        decide_spec(after_send(s, t, c, now), t@, c@, later, false) != ClipboardDecision::Send,
{
}

/// Law: after a send at a positive time, nothing is sent again within a second.
pub proof fn law_rate_limited(s: ClipboardState, t: String, c: String, now: i64, t2: Seq<char>, c2: Seq<char>, later: i64, force: bool)
    requires
        now > 0,
        later - now < FREQ_LIMIT_MS,
    ensures
        decide_spec(after_send(s, t, c, now), t2, c2, later, force) != ClipboardDecision::Send,
{
}

/// The state after content `c` of type `t` was received at time `now`.
pub open spec fn after_receive(s: ClipboardState, t: String, c: String, now: i64) -> ClipboardState {
    ClipboardState { last_received_content: c, last_received_type: t, last_received_time: now, ..s }
}

/// Law: what was just received is not echoed back within the anti-loop window, even when
/// forced.
pub proof fn law_no_echo(s: ClipboardState, t: String, c: String, now: i64, later: i64, force: bool)
    requires
        c@.len() > 0,
        later - now < ANTI_LOOP_DELAY_MS,
    ensures
        decide_spec(after_receive(s, t, c, now), t@, c@, later, force) == ClipboardDecision::FromRemote,
{
}

/// Law: only an image whose decoded size (three bytes for every four base64 characters) is
/// above `LARGE_CONTENT_THRESHOLD` goes to the file channel; text and smaller images never do.
pub proof fn law_file_transfer_only_large_images(s: ClipboardState, t: Seq<char>, c: Seq<char>, now: i64, force: bool)
    ensures
        decide_spec(s, t, c, now, force) == ClipboardDecision::FileTransfer
            ==> t == "image"@ && (encode_utf8(c).len() * 3) / 4 > 2097152,
{
    let n = encode_utf8(c).len();
    if n <= 0xffff_ffff {
        assert((n as usize) as int == n);
    }
}

/// Law: an image of at most `LARGE_CONTENT_THRESHOLD` decoded bytes that is not empty, not an
/// echo, not a repeat and not rate-limited is sent to the targets.
pub proof fn law_small_image_sent(s: ClipboardState, c: Seq<char>, now: i64, force: bool)
    requires
        (encode_utf8(c).len() * 3) / 4 <= 2097152,
        decide_spec(s, "image"@, c, now, force) != ClipboardDecision::Empty,
        decide_spec(s, "image"@, c, now, force) != ClipboardDecision::FromRemote,
        decide_spec(s, "image"@, c, now, force) != ClipboardDecision::Unchanged,
        decide_spec(s, "image"@, c, now, force) != ClipboardDecision::TooFrequent,
    ensures
        decide_spec(s, "image"@, c, now, force) == ClipboardDecision::Send,
{
    law_file_transfer_only_large_images(s, "image"@, c, now, force);
}

/// Law: an image above `LARGE_CONTENT_THRESHOLD` decoded bytes that is not empty, not an
/// echo, not a repeat and not rate-limited goes to the file channel instead of being sent.
pub proof fn law_large_image_to_file_channel(s: ClipboardState, c: Seq<char>, now: i64, force: bool)
    requires
        (encode_utf8(c).len() * 3) / 4 > 2097152,
        encode_utf8(c).len() <= 0xffff_ffff,
        decide_spec(s, "image"@, c, now, force) != ClipboardDecision::Empty,
        decide_spec(s, "image"@, c, now, force) != ClipboardDecision::FromRemote,
        decide_spec(s, "image"@, c, now, force) != ClipboardDecision::Unchanged,
        decide_spec(s, "image"@, c, now, force) != ClipboardDecision::TooFrequent,
    ensures
        decide_spec(s, "image"@, c, now, force) == ClipboardDecision::FileTransfer,
{
    let n = encode_utf8(c).len();
    assert((n as usize) as int == n);
}

} // verus!
