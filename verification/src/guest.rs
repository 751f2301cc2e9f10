//! The agent inside a guest.
use crate::agent::{AgentReply, AgentRequest, ReplyView};
use crate::daemon::net::{first_with_prefix, word_after_prefix};
use crate::daemon::ops::shared::{hex_text, nonce_of};
use crate::daemon::qemu::{append_text, append_words, SpaceRun};
use crate::json::{
    fields_view, json_value, lemma_view, object, parse_json, put, text, Json, JsonView,
};
use crate::text::{
    char_texts, chars_equal, chars_lines, chars_of, chars_words, dec, has_prefix, hex2, hex_digit,
    is_digit, is_white, join, lemma_dec_is_decimal, lemma_trimmed_len, lemma_white_len,
    lemma_white_len_unique, lemma_word_len, lemma_word_len_unique, lines, opt_text, str_equal,
    strip_prefix, trimmed_len, u64_to_string, white_len, word_len, words,
};
use vstd::prelude::*;

verus! {

/// Requests are tiny.
pub const MAX_AGENT_REQUEST_BYTES: usize = 1024;

pub const DATA_MOUNT_POINT: &'static str = "/data";

/// The mount point in a line of the table of mounts is its second word.
pub open spec fn mounts_at(line: Seq<char>, target: Seq<char>) -> bool {
    words(line).len() > 1 && words(line)[1] == target
}

pub fn mounts_contain(mounts: &str, target: &str) -> (r: bool)
    ensures
        r == exists|i: int|
            0 <= i < lines(mounts@).len() && mounts_at(#[trigger] lines(mounts@)[i], target@),
{
    let chars = chars_of(mounts);
    let rows = chars_lines(&chars);
    let wanted = chars_of(target);
    let ghost all = char_texts(rows@);
    for i in 0..rows.len()
        invariant
            all == char_texts(rows@),
            all == lines(mounts@),
            wanted@ == target@,
            forall|j: int| 0 <= j < i ==> !mounts_at(#[trigger] all[j], target@),
    {
        assert(all[i as int] == rows@[i as int]@);
        let fields = chars_words(&rows[i]);
        assert(char_texts(fields@).len() == fields@.len());
        if fields.len() > 1 {
            assert(char_texts(fields@)[1] == fields@[1]@);
            if chars_equal(&fields[1], &wanted) {
                return true;
            }
        }
    }
    false
}

/// The nonce of the boot, from the parameters of the kernel; empty where there is none.
pub open spec fn nonce_in(cmdline: Seq<char>) -> Seq<char> {
    match first_with_prefix(words(cmdline), "MIYORI_NONCE="@) {
        Some(nonce) => nonce,
        None => seq![],
    }
}

pub fn nonce_from_cmdline(cmdline: &str) -> (r: String)
    ensures
        r@ == nonce_in(cmdline@),
{
    let chars = chars_of(cmdline);
    match word_after_prefix(&chars, "MIYORI_NONCE=") {
        Some(nonce) => nonce,
        None => String::new(),
    }
}

// ---------------------------------------------------------------------------------------------
// Requests and replies
// ---------------------------------------------------------------------------------------------

pub open spec fn command_of(request: AgentRequest) -> Seq<char> {
    match request {
        AgentRequest::Health => "health"@,
        AgentRequest::Shutdown => "shutdown"@,
        AgentRequest::ExecApp => "exec-app"@,
    }
}

/// The request that a name stands for.
pub open spec fn command_named(name: Seq<char>) -> Option<AgentRequest> {
    if name == "health"@ {
        Some(AgentRequest::Health)
    } else if name == "shutdown"@ {
        Some(AgentRequest::Shutdown)
    } else if name == "exec-app"@ {
        Some(AgentRequest::ExecApp)
    } else {
        None
    }
}

/// A frame holds the name of a request and nothing else.
pub open spec fn request_in(v: JsonView) -> Option<AgentRequest> {
    match v {
        JsonView::Object(fields) => if fields.len() == 1 && fields[0].0 == "cmd"@ {
            match fields[0].1 {
                JsonView::Str(name) => command_named(name),
                _ => None,
            }
        } else {
            None
        },
        _ => None,
    }
}

/// Reads a frame that has been parsed.
pub fn request_from(value: &Json) -> (r: Option<AgentRequest>)
    ensures
        r == request_in(value@),
{
    proof {
        lemma_view(*value);
    }
    match value {
        Json::Object(fields) => {
            if fields.len() != 1 {
                return None;
            }
            let ghost all = fields_view(fields@);
            assert(all[0] == (fields@[0].0@, fields@[0].1@));
            if !str_equal(fields[0].0.as_str(), "cmd") {
                return None;
            }
            match &fields[0].1 {
                Json::Str(name) => {
                    if str_equal(name.as_str(), "health") {
                        Some(AgentRequest::Health)
                    } else if str_equal(name.as_str(), "shutdown") {
                        Some(AgentRequest::Shutdown)
                    } else if str_equal(name.as_str(), "exec-app") {
                        Some(AgentRequest::ExecApp)
                    } else {
                        None
                    }
                },
                _ => None,
            }
        },
        _ => None,
    }
}

/// Reads a frame of the host.
pub fn read_request(line: &str) -> (r: Result<AgentRequest, String>)
    ensures
        match (json_value(line@), r) {
            (Some(v), Ok(request)) => request_in(v) == Some(request),
            (Some(v), Err(m)) => request_in(v) is None && m@ == "нераспознанный запрос от хоста"@,
            (None, Err(m)) => m@ == "нераспознанный запрос от хоста"@,
            (None, Ok(_)) => false,
        },
{
    let parsed = match parse_json(line) {
        Some(value) => request_from(&value),
        None => None,
    };
    match parsed {
        Some(request) => Ok(request),
        None => Err("нераспознанный запрос от хоста".to_owned()),
    }
}

/// The frame of a request.
pub fn request_frame(request: AgentRequest) -> (r: Json)
    ensures
        r@ == JsonView::Object(seq![("cmd"@, JsonView::Str(command_of(request)))]),
{
    let name = match request {
        AgentRequest::Health => "health",
        AgentRequest::Shutdown => "shutdown",
        AgentRequest::ExecApp => "exec-app",
    };
    let mut f: Vec<(String, Json)> = Vec::new();
    assert(fields_view(f@) =~= seq![]);
    put(&mut f, "cmd", text(name));
    assert(fields_view(f@) =~= seq![("cmd"@, JsonView::Str(command_of(request)))]);
    object(f)
}

/// The guest takes a frame of the host for what it is.
pub proof fn the_guest_understands_the_host(request: AgentRequest)
    ensures
        request_in(JsonView::Object(seq![("cmd"@, JsonView::Str(command_of(request)))])) == Some(
            request,
        ),
{
    reveal_strlit("health");
    reveal_strlit("shutdown");
    reveal_strlit("exec-app");
    assert("health"@.len() == 6 && "shutdown"@.len() == 8 && "exec-app"@.len() == 8);
    assert("shutdown"@[0] != "exec-app"@[0]);
}

pub fn health_reply(nonce: String, uptime_secs: Option<u64>) -> (r: AgentReply)
    ensures
        r@ == (ReplyView {
            nonce: nonce@,
            ok: true,
            detail: match uptime_secs {
                Some(secs) => Some("uptime="@ + dec(secs as nat) + "s"@),
                None => None,
            },
            data_unmounted: None,
        }),
{
    let detail = match uptime_secs {
        Some(secs) => Some("uptime=".to_owned().concat(u64_to_string(secs).as_str()).concat("s")),
        None => None,
    };
    AgentReply { nonce, ok: true, detail, data_unmounted: None }
}

/// What the agent does when it is asked to stop.
#[derive(Debug, Clone, Copy, PartialEq, Eq, Structural)]
pub enum GuestStep {
    StopApp,
    Sync,
    UnmountData,
}

/// The application goes first, or a file that it holds open keeps the data from being
/// unmounted; what it wrote reaches the disk before.
pub fn shutdown_steps() -> (r: Vec<GuestStep>)
    ensures
        r@ == seq![GuestStep::StopApp, GuestStep::Sync, GuestStep::UnmountData],
{
    let mut v: Vec<GuestStep> = Vec::new();
    v.push(GuestStep::StopApp);
    v.push(GuestStep::Sync);
    v.push(GuestStep::UnmountData);
    v
}

/// Whether the data is unmounted after the attempt. Where nothing was mounted there was nothing
/// to do, and that is no failure.
pub fn unmount_data(mounts: &str, umount_succeeded: bool) -> (r: bool)
    ensures
        r == (umount_succeeded || !exists|i: int|
            0 <= i < lines(mounts@).len() && mounts_at(
                #[trigger] lines(mounts@)[i],
                DATA_MOUNT_POINT@,
            )),
{
    !mounts_contain(mounts, DATA_MOUNT_POINT) || umount_succeeded
}

pub fn shutdown_reply(nonce: String, unmounted: bool) -> (r: AgentReply)
    ensures
        r@ == (ReplyView {
            nonce: nonce@,
            ok: unmounted,
            detail: Some(
                if unmounted {
                    "том отмонтирован"@
                } else {
                    "не удалось отмонтировать /data"@
                },
            ),
            data_unmounted: Some(unmounted),
        }),
{
    let detail = if unmounted {
        "том отмонтирован".to_owned()
    } else {
        "не удалось отмонтировать /data".to_owned()
    };
    AgentReply { nonce, ok: unmounted, detail: Some(detail), data_unmounted: Some(unmounted) }
}

/// The answer to the request to start the application, from the failure of the attempt.
pub fn exec_app_reply(nonce: String, failure: Option<String>) -> (r: AgentReply)
    ensures
        r@ == (ReplyView {
            nonce: nonce@,
            ok: failure is None,
            detail: opt_text(failure),
            data_unmounted: None,
        }),
{
    AgentReply { nonce, ok: failure.is_none(), detail: failure, data_unmounted: None }
}

pub fn error_reply(nonce: String, error: String) -> (r: AgentReply)
    ensures
        r@ == (ReplyView {
            nonce: nonce@,
            ok: false,
            detail: Some(error@),
            data_unmounted: None,
        }),
{
    AgentReply { nonce, ok: false, detail: Some(error), data_unmounted: None }
}

/// After it has answered the request to stop, the agent falls silent.
pub fn exits_after(request: AgentRequest) -> (r: bool)
    ensures
        r == (request == AgentRequest::Shutdown),
{
    matches!(request, AgentRequest::Shutdown)
}

// ---------------------------------------------------------------------------------------------
// The nonce reaches the guest
// ---------------------------------------------------------------------------------------------

/// A text without whitespace, and not empty.
pub open spec fn is_word(w: Seq<char>) -> bool {
    w.len() > 0 && forall|i: int| 0 <= i < w.len() ==> !is_white(#[trigger] w[i])
}

/// A word, a space and a text: the first word is the word, the others are those of the text.
pub proof fn lemma_words_first(w: Seq<char>, rest: Seq<char>)
    requires
        is_word(w),
    ensures
        words(w + " "@ + rest) == seq![w] + words(rest),
{
    reveal_strlit(" ");
    let s = w + " "@ + rest;
    assert(s.len() == w.len() + 1 + rest.len());
    assert(s[0] == w[0]);
    lemma_white_len_unique(s, 0);
    assert(s.skip(0) =~= s);
    assert forall|i: int| 0 <= i < w.len() implies !is_white(s[i]) by {
        assert(s[i] == w[i]);
    }
    assert(s[w.len() as int] == ' ');
    lemma_word_len_unique(s, w.len() as int);
    assert(s.take(w.len() as int) =~= w);
    let tail = s.skip(w.len() as int);
    assert(tail =~= " "@ + rest);
    lemma_leading_space(rest);
}

/// A space in front changes no word.
proof fn lemma_leading_space(rest: Seq<char>)
    ensures
        words(" "@ + rest) == words(rest),
{
    reveal_strlit(" ");
    let s = " "@ + rest;
    assert(s.skip(1) =~= rest);
    assert(s[0] == ' ');
    assert(white_len(s) == 1 + white_len(rest));
    lemma_white_len(rest);
    assert(s.skip(white_len(s)) =~= rest.skip(white_len(rest)));
    let t = rest.skip(white_len(rest));
    lemma_word_len(t);
    if t.len() > 0 {
        assert(!is_white(t[0]));
        assert(word_len(t) > 0);
    }
}

/// The nonce that the host puts among the parameters of the kernel is the nonce that the guest
/// answers with, as long as there is no whitespace in it; an empty one too. What follows it has no
/// say in it: neither the command of the application, nor the end that the kernel gives the line.
pub proof fn the_guest_reads_the_nonce(run: SpaceRun, end: Seq<char>)
    requires
        forall|i: int| 0 <= i < run.nonce@.len() ==> !is_white(#[trigger] run.nonce@[i]),
    ensures
        nonce_in(append_text(run) + end) == run.nonce@,
        nonce_in(append_text(run) + "\n"@) == run.nonce@,
        nonce_in(append_text(run)) == run.nonce@,
{
    let ws = append_words(run);
    let mark = "MIYORI_NONCE="@;
    let nonce_word = mark + run.nonce@;
    assert(nonce_word.subrange(0, mark.len() as int) =~= mark);
    assert(nonce_word.skip(mark.len() as int) =~= run.nonce@);
    lemma_plain_words(run);
    lemma_join_from(ws, " "@, 0);
    lemma_words_nonce(ws, " "@, 0, end);
    lemma_words_nonce(ws, " "@, 0, "\n"@);
    lemma_words_nonce(ws, " "@, 0, seq![]);
    assert(append_text(run) + Seq::<char>::empty() =~= append_text(run));
}

/// Where no parameter is a nonce, the guest has an empty one.
pub proof fn without_a_nonce_it_is_empty(cmdline: Seq<char>)
    requires
        forall|i: int|
            0 <= i < words(cmdline).len() ==> !has_prefix(
                #[trigger] words(cmdline)[i],
                "MIYORI_NONCE="@,
            ),
    ensures
        nonce_in(cmdline).len() == 0,
{
    lemma_no_prefix(words(cmdline), "MIYORI_NONCE="@);
}

proof fn lemma_no_prefix(ws: Seq<Seq<char>>, prefix: Seq<char>)
    requires
        forall|i: int| 0 <= i < ws.len() ==> !has_prefix(#[trigger] ws[i], prefix),
    ensures
        first_with_prefix(ws, prefix) is None,
    decreases ws.len(),
{
    if ws.len() > 0 {
        assert(!has_prefix(ws[0], prefix));
        assert forall|i: int| 0 <= i < ws.skip(1).len() implies !has_prefix(
            #[trigger] ws.skip(1)[i],
            prefix,
        ) by {
            assert(ws.skip(1)[i] == ws[i + 1]);
        }
        lemma_no_prefix(ws.skip(1), prefix);
    }
}

/// A nonce that was drawn is a word: the host reads it back from its file as it was, and the guest
/// answers with it.
pub proof fn a_drawn_nonce_comes_back(run: SpaceRun, random: Seq<u8>)
    requires
        random.len() > 0,
        run.nonce@ == hex_text(random),
    ensures
        run.nonce@.len() == 2 * random.len(),
        nonce_of(Ok(run.nonce@)) == Ok::<Seq<char>, Seq<char>>(run.nonce@),
        nonce_in(append_text(run) + "\n"@) == run.nonce@,
{
    let nonce = run.nonce@;
    lemma_hex_is_plain(random);
    lemma_white_len_unique(nonce, 0);
    assert(nonce.skip(0) =~= nonce);
    lemma_trimmed_len(nonce);
    assert(trimmed_len(nonce) == nonce.len()) by {
        if trimmed_len(nonce) < nonce.len() {
            assert(is_white(nonce[trimmed_len(nonce)]));
        }
    }
    assert(nonce.take(nonce.len() as int) =~= nonce);
    the_guest_reads_the_nonce(run, seq![]);
}

proof fn lemma_hex_is_plain(random: Seq<u8>)
    ensures
        hex_text(random).len() == 2 * random.len(),
        forall|i: int| 0 <= i < hex_text(random).len() ==> !is_white(#[trigger] hex_text(random)[i]),
    decreases random.len(),
{
    if random.len() > 0 {
        let front = hex_text(random.drop_last());
        lemma_hex_is_plain(random.drop_last());
        let n = random.last() as nat;
        reveal_with_fuel(crate::text::hex, 2);
        let pair = hex2(n);
        assert(pair =~= seq![hex_digit(n / 16), hex_digit(n % 16)]);
        assert forall|i: int| 0 <= i < hex_text(random).len() implies !is_white(
            #[trigger] hex_text(random)[i],
        ) by {
            if i < front.len() {
                assert(hex_text(random)[i] == front[i]);
            } else {
                assert(hex_text(random)[i] == pair[i - front.len()]);
            }
        }
    }
}

/// The words from `k` on, joined.
pub open spec fn join_tail(ws: Seq<Seq<char>>, sep: Seq<char>, k: int) -> Seq<char>
    decreases ws.len() - k,
{
    if k >= ws.len() {
        seq![]
    } else if k == ws.len() - 1 {
        ws[k]
    } else {
        ws[k] + sep + join_tail(ws, sep, k + 1)
    }
}

proof fn lemma_join_from(ws: Seq<Seq<char>>, sep: Seq<char>, k: int)
    requires
        0 <= k < ws.len(),
    ensures
        k == 0 ==> join(ws, sep) == join_tail(ws, sep, 0),
        join(ws, sep) == (if k == 0 {
            seq![]
        } else {
            join(ws.take(k), sep) + sep
        }) + join_tail(ws, sep, k),
    decreases ws.len() - k,
{
    if k == ws.len() - 1 {
        if k > 0 {
            assert(ws.drop_last() =~= ws.take(k));
        } else {
            assert(join(ws, sep) =~= join_tail(ws, sep, 0));
        }
    } else {
        lemma_join_from(ws, sep, k + 1);
        let upto = ws.take(k + 1);
        assert(upto.drop_last() =~= ws.take(k));
        assert(upto.last() == ws[k]);
        assert(join(ws, sep) =~= (if k == 0 {
            seq![]
        } else {
            join(ws.take(k), sep) + sep
        }) + (ws[k] + sep + join_tail(ws, sep, k + 1)));
    }
    if k == 0 {
        assert(join(ws, sep) =~= join_tail(ws, sep, 0));
    }
}

/// The words before the nonce are words, and none of them starts as the nonce does.
proof fn lemma_plain_words(run: SpaceRun)
    ensures
        forall|k: int|
            0 <= k < 11 ==> is_word(#[trigger] append_words(run)[k]) && !has_prefix(
                append_words(run)[k],
                "MIYORI_NONCE="@,
            ),
        (forall|i: int| 0 <= i < run.nonce@.len() ==> !is_white(#[trigger] run.nonce@[i]))
            ==> is_word(append_words(run)[11]),
{
    let ws = append_words(run);
    reveal_strlit("console=hvc0");
    reveal_strlit("root=/dev/vda");
    reveal_strlit("rw");
    reveal_strlit("init=/usr/local/bin/miyori-init");
    reveal_strlit("MIYORI_PORT=1700");
    reveal_strlit("MIYORI_CID=");
    reveal_strlit("MIYORI_FLOOD_SECONDS=0");
    reveal_strlit("MIYORI_NETROLE=none");
    reveal_strlit("MIYORI_PEER_IP=");
    reveal_strlit("MIYORI_HOST_IPS=");
    reveal_strlit("MIYORI_ECHO_URL=");
    reveal_strlit("MIYORI_NONCE=");
    let p = "MIYORI_NONCE="@;
    lemma_dec_is_decimal(run.cid as nat);
    assert forall|k: int| 0 <= k < 11 implies is_word(#[trigger] ws[k]) && !has_prefix(
        ws[k],
        p,
    ) by {
        assert forall|i: int| 0 <= i < ws[k].len() implies !is_white(#[trigger] ws[k][i]) by {
            if k == 5 && i >= 11 {
                assert(ws[k][i] == dec(run.cid as nat)[i - 11]);
                assert(is_digit(dec(run.cid as nat)[i - 11]));
            }
        }
        if has_prefix(ws[k], p) {
            assert(ws[k].subrange(0, p.len() as int)[0] == p[0]);
            assert(ws[k].subrange(0, p.len() as int)[7] == p[7]);
            assert(ws[k].subrange(0, p.len() as int)[8] == p[8]);
            assert(ws[k][0] == 'M' && ws[k][7] == 'N' && ws[k][8] == 'O');
        }
    }
    if forall|i: int| 0 <= i < run.nonce@.len() ==> !is_white(#[trigger] run.nonce@[i]) {
        assert forall|i: int| 0 <= i < ws[11].len() implies !is_white(#[trigger] ws[11][i]) by {
            if i >= 13 {
                assert(ws[11][i] == run.nonce@[i - 13]);
            }
        }
    }
}

proof fn lemma_words_nonce(ws: Seq<Seq<char>>, sep: Seq<char>, k: int, end: Seq<char>)
    requires
        sep == " "@,
        ws.len() == 14,
        0 <= k <= 11,
        forall|j: int| 0 <= j < 11 ==> is_word(#[trigger] ws[j]),
        forall|j: int| 0 <= j < 11 ==> !has_prefix(#[trigger] ws[j], "MIYORI_NONCE="@),
        is_word(ws[11]),
        has_prefix(ws[11], "MIYORI_NONCE="@),
    ensures
        first_with_prefix(words(join_tail(ws, sep, k) + end), "MIYORI_NONCE="@) == strip_prefix(
            ws[11],
            "MIYORI_NONCE="@,
        ),
    decreases 11 - k,
{
    let rest = join_tail(ws, sep, k + 1) + end;
    lemma_words_first(ws[k], rest);
    assert(join_tail(ws, sep, k) + end =~= ws[k] + sep + rest);
    let all = words(join_tail(ws, sep, k) + end);
    assert(all == seq![ws[k]] + words(rest));
    assert(all[0] == ws[k]);
    if k < 11 {
        lemma_words_nonce(ws, sep, k + 1, end);
        assert(all.skip(1) =~= words(rest));
    }
}

/// The words of a line that was joined from words, up to some place.
proof fn lemma_words_before(ws: Seq<Seq<char>>, k: int, n: int, end: Seq<char>)
    requires
        0 <= k <= n < ws.len(),
        forall|j: int| 0 <= j < n ==> is_word(#[trigger] ws[j]),
    ensures
        words(join_tail(ws, " "@, k) + end) == ws.subrange(k, n) + words(
            join_tail(ws, " "@, n) + end,
        ),
    decreases n - k,
{
    if k == n {
        assert(ws.subrange(k, n) + words(join_tail(ws, " "@, n) + end) =~= words(
            join_tail(ws, " "@, n) + end,
        ));
    } else {
        let rest = join_tail(ws, " "@, k + 1) + end;
        lemma_words_before(ws, k + 1, n, end);
        lemma_words_first(ws[k], rest);
        assert(join_tail(ws, " "@, k) + end =~= ws[k] + " "@ + rest);
        assert(seq![ws[k]] + ws.subrange(k + 1, n) =~= ws.subrange(k, n));
        assert(seq![ws[k]] + (ws.subrange(k + 1, n) + words(join_tail(ws, " "@, n) + end))
            =~= ws.subrange(k, n) + words(join_tail(ws, " "@, n) + end));
    }
}

/// What the kernel of a machine is told: to talk on the console that the machine has, to take its
/// first disk for its root, writable, and to run the first program of the image, which learns its
/// context id, the port of the windows, that it plays no role in the network and that nobody
/// tests it, and the command of the application, which it does not start by itself.
pub proof fn the_kernel_is_told_what_the_image_needs(run: SpaceRun)
    ensures
        ({
            let said = words(append_text(run) + "\n"@);
            &&& said.contains("console=hvc0"@)
            &&& said.contains("root=/dev/vda"@)
            &&& said.contains("rw"@)
            &&& said.contains("init=/usr/local/bin/miyori-init"@)
            &&& said.contains("MIYORI_PORT="@ + dec(1700))
            &&& said.contains("MIYORI_CID="@ + dec(run.cid as nat))
            &&& said.contains("MIYORI_FLOOD_SECONDS="@ + dec(0))
            &&& said.contains("MIYORI_NETROLE=none"@)
            &&& said.contains("MIYORI_PEER_IP="@)
            &&& said.contains("MIYORI_HOST_IPS="@)
            &&& said.contains("MIYORI_ECHO_URL="@)
            &&& exists|front: Seq<char>|
                #[trigger] (front + " MIYORI_APP="@ + run.app_command@
                    + " MIYORI_APP_AUTOSTART=0"@) == append_text(run)
        }),
{
    let ws = append_words(run);
    let end = "\n"@;
    lemma_plain_words(run);
    lemma_join_from(ws, " "@, 0);
    lemma_words_before(ws, 0, 11, end);
    let said = words(append_text(run) + end);
    let first = ws.subrange(0, 11);
    assert forall|k: int| 0 <= k < 11 implies said[k] == #[trigger] ws[k] by {
        assert(first[k] == ws[k]);
    }
    assert(said.len() >= 11);
    reveal_with_fuel(crate::text::dec, 5);
    reveal_strlit("MIYORI_PORT=1700");
    reveal_strlit("MIYORI_PORT=");
    reveal_strlit("MIYORI_FLOOD_SECONDS=0");
    reveal_strlit("MIYORI_FLOOD_SECONDS=");
    assert(dec(1700) =~= seq!['1', '7', '0', '0']);
    assert(dec(0) =~= seq!['0']);
    assert("MIYORI_PORT="@ + dec(1700) =~= ws[4]);
    assert("MIYORI_FLOOD_SECONDS="@ + dec(0) =~= ws[6]);
    assert(said[0] == ws[0] && said[1] == ws[1] && said[2] == ws[2] && said[3] == ws[3]);
    assert(said[4] == ws[4] && said[5] == ws[5] && said[6] == ws[6] && said[7] == ws[7]);
    assert(said[8] == ws[8] && said[9] == ws[9] && said[10] == ws[10]);
    let short = ws.drop_last();
    let front = join(short.drop_last(), " "@);
    reveal_strlit(" ");
    reveal_strlit(" MIYORI_APP=");
    reveal_strlit("MIYORI_APP=");
    reveal_strlit(" MIYORI_APP_AUTOSTART=0");
    reveal_strlit("MIYORI_APP_AUTOSTART=0");
    assert(join(ws, " "@) == join(short, " "@) + " "@ + ws.last());
    assert(join(short, " "@) == front + " "@ + short.last());
    assert(short.last() == "MIYORI_APP="@ + run.app_command@);
    assert(front + " MIYORI_APP="@ + run.app_command@ + " MIYORI_APP_AUTOSTART=0"@ =~= append_text(
        run,
    ));
}

} // verus!
