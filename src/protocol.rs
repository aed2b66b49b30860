//! Line protocol of the worker and installer processes: one JSON object per
//! line, tagged by its `type` member. Lines that do not decode are skipped.
use crate::text::{opt_view, same_text, trim_of, trimmed};
use vstd::prelude::*;

verus! {

/// A member of a JSON object, as far as the decoders look at it.
pub enum JsonMember {
    Text(String),
    /// A number, as `serde_json` prints it.
    Number(String),
    /// An object, an array or a boolean.
    Other,
}

/// Kind and text of the member `key` of the JSON object on `line`: kind 0
/// when the line is not JSON, or the member is absent or null; 1 for a
/// string, with its text; 2 for a number, with its printed text; 3 for any
/// other value.
pub uninterp spec fn json_member(line: Seq<char>, key: Seq<char>) -> (nat, Seq<char>);

pub open spec fn member_view(m: Option<JsonMember>) -> (nat, Seq<char>) {
    match m {
        None => (0, Seq::empty()),
        Some(JsonMember::Text(t)) => (1, t@),
        Some(JsonMember::Number(t)) => (2, t@),
        Some(JsonMember::Other) => (3, Seq::empty()),
    }
}

/// Relies on `serde_json::from_str` into a `serde_json::Value`,
/// `Value::get` with a string key, and `Number`'s `Display`: the member
/// `key` of the object on the line, `None` when the line is not JSON or the
/// member is absent or null.
#[verifier::external_body]
fn member(line: &str, key: &str) -> (r: Option<JsonMember>)
    ensures
        member_view(r) == json_member(line@, key@),
{
    let value = serde_json::from_str::<serde_json::Value>(line).ok()?;
    match value.get(key)? {
        serde_json::Value::Null => None,
        serde_json::Value::String(s) => Some(JsonMember::Text(s.clone())),
        serde_json::Value::Number(n) => Some(JsonMember::Number(n.to_string())),
        _ => Some(JsonMember::Other),
    }
}

/// Whether a member is absent, null or a string: what an optional text
/// field accepts.
pub open spec fn optional_text_ok(m: (nat, Seq<char>)) -> bool {
    m.0 == 0 || m.0 == 1
}

/// The text of a string member.
pub open spec fn optional_text(m: (nat, Seq<char>)) -> Option<Seq<char>> {
    if m.0 == 1 {
        Some(m.1)
    } else {
        None
    }
}

/// The text of a string member; `ok` is false for a member of another type.
fn optional_text_of(line: &str, key: &str) -> (r: (bool, Option<String>))
    ensures
        r.0 == optional_text_ok(json_member(line@, key@)),
        r.0 ==> opt_view(r.1) == optional_text(json_member(line@, key@)),
{
    match member(line, key) {
        None => (true, None),
        Some(JsonMember::Text(t)) => (true, Some(t)),
        Some(_) => (false, None),
    }
}

/// Events of the transcription worker.
pub enum WorkerEvent {
    Status { message: Option<String> },
    Partial { text: Option<String> },
    Final { text: Option<String> },
    Error { message: Option<String> },
}

/// Events of the installer.
pub enum InstallEvent {
    /// Installation goes on; `fraction` is in thousandths.
    Progress { message: Option<String>, fraction: Option<u32> },
    Ready { venv_python: Option<String>, model_path: Option<String>, model_id: Option<String> },
    Error { message: Option<String> },
}

/// The tag of the line, if it is a string.
pub open spec fn tag_of(line: Seq<char>) -> Option<Seq<char>> {
    optional_text(json_member(line, "type"@))
}

/// A worker line has a string tag, and `text` and `message` are absent,
/// null or strings.
pub open spec fn worker_line_ok(line: Seq<char>) -> bool {
    &&& tag_of(line) is Some
    &&& optional_text_ok(json_member(line, "text"@))
    &&& optional_text_ok(json_member(line, "message"@))
}

/// What decoding `line` as a worker event gives.
pub open spec fn decodes_worker(line: Seq<char>, r: Option<WorkerEvent>) -> bool {
    let msg = optional_text(json_member(line, "message"@));
    let text = optional_text(json_member(line, "text"@));
    match r {
        Some(WorkerEvent::Status { message }) => worker_line_ok(line) && tag_of(line) == Some(
            "status"@,
        ) && opt_view(message) == msg,
        Some(WorkerEvent::Partial { text: t }) => worker_line_ok(line) && tag_of(line) == Some(
            "partial"@,
        ) && opt_view(t) == text,
        Some(WorkerEvent::Final { text: t }) => worker_line_ok(line) && tag_of(line) == Some(
            "final"@,
        ) && opt_view(t) == text,
        Some(WorkerEvent::Error { message }) => worker_line_ok(line) && tag_of(line) == Some(
            "error"@,
        ) && opt_view(message) == msg,
        None => !worker_line_ok(line) || (tag_of(line) != Some("status"@) && tag_of(line) != Some(
            "partial"@,
        ) && tag_of(line) != Some("final"@) && tag_of(line) != Some("error"@)),
    }
}

/// An installer line has a string tag, `progress` is absent, null or a
/// number, and its text fields are absent, null or strings.
pub open spec fn install_line_ok(line: Seq<char>) -> bool {
    &&& tag_of(line) is Some
    &&& (json_member(line, "progress"@).0 == 0 || json_member(line, "progress"@).0 == 2)
    &&& optional_text_ok(json_member(line, "message"@))
    &&& optional_text_ok(json_member(line, "venv_python"@))
    &&& optional_text_ok(json_member(line, "model_path"@))
    &&& optional_text_ok(json_member(line, "model_id"@))
}

/// The progress fraction of an installer line, in thousandths.
pub open spec fn progress_of(line: Seq<char>) -> Option<u32> {
    if json_member(line, "progress"@).0 == 2 {
        permille_of(json_member(line, "progress"@).1)
    } else {
        None
    }
}

/// What decoding `line` as an installer event gives.
pub open spec fn decodes_install(line: Seq<char>, r: Option<InstallEvent>) -> bool {
    let msg = optional_text(json_member(line, "message"@));
    match r {
        Some(InstallEvent::Progress { message, fraction }) => install_line_ok(line) && tag_of(line)
            == Some("progress"@) && opt_view(message) == msg && fraction == progress_of(line),
        Some(InstallEvent::Ready { venv_python, model_path, model_id }) => install_line_ok(line)
            && tag_of(line) == Some("ready"@) && opt_view(venv_python) == optional_text(
            json_member(line, "venv_python"@),
        ) && opt_view(model_path) == optional_text(json_member(line, "model_path"@)) && opt_view(
            model_id,
        ) == optional_text(json_member(line, "model_id"@)),
        Some(InstallEvent::Error { message }) => install_line_ok(line) && tag_of(line) == Some(
            "error"@,
        ) && opt_view(message) == msg,
        None => !install_line_ok(line) || (tag_of(line) != Some("progress"@) && tag_of(line)
            != Some("ready"@) && tag_of(line) != Some("error"@)),
    }
}

/// Decodes one line of worker output; `None` for a line that is not JSON,
/// has a field of the wrong type, or is not an event of a known type.
pub fn decode_worker_line(line: &str) -> (r: Option<WorkerEvent>)
    ensures
        decodes_worker(line@, r),
{
    let (tag_ok, tag) = optional_text_of(line, "type");
    let (text_ok, text) = optional_text_of(line, "text");
    let (message_ok, message) = optional_text_of(line, "message");
    if !tag_ok || !text_ok || !message_ok {
        return None;
    }
    let tag = match tag {
        Some(t) => t,
        None => return None,
    };
    if same_text(tag.as_str(), "status") {
        Some(WorkerEvent::Status { message })
    } else if same_text(tag.as_str(), "partial") {
        Some(WorkerEvent::Partial { text })
    } else if same_text(tag.as_str(), "final") {
        Some(WorkerEvent::Final { text })
    } else if same_text(tag.as_str(), "error") {
        Some(WorkerEvent::Error { message })
    } else {
        None
    }
}

/// Decodes one line of installer output; `None` for a line that is not
/// JSON, has a field of the wrong type, or is not an event of a known type.
pub fn decode_install_line(line: &str) -> (r: Option<InstallEvent>)
    ensures
        decodes_install(line@, r),
{
    let (tag_ok, tag) = optional_text_of(line, "type");
    let (message_ok, message) = optional_text_of(line, "message");
    let (venv_ok, venv_python) = optional_text_of(line, "venv_python");
    let (path_ok, model_path) = optional_text_of(line, "model_path");
    let (id_ok, model_id) = optional_text_of(line, "model_id");
    let (progress_ok, fraction) = match member(line, "progress") {
        None => (true, None),
        Some(JsonMember::Number(t)) => (true, parse_permille(t.as_str())),
        Some(_) => (false, None),
    };
    if !tag_ok || !message_ok || !venv_ok || !path_ok || !id_ok || !progress_ok {
        return None;
    }
    let tag = match tag {
        Some(t) => t,
        None => return None,
    };
    if same_text(tag.as_str(), "progress") {
        Some(InstallEvent::Progress { message, fraction })
    } else if same_text(tag.as_str(), "ready") {
        Some(InstallEvent::Ready { venv_python, model_path, model_id })
    } else if same_text(tag.as_str(), "error") {
        Some(InstallEvent::Error { message })
    } else {
        None
    }
}

// ---------------------------------------------------------------------
// Fractions in thousandths
// ---------------------------------------------------------------------
/// Largest value kept while reading a fraction, in thousandths.
pub const PERMILLE_CAP: u32 = 1_000_000_000;

pub open spec fn is_digit(c: char) -> bool {
    '0' <= c <= '9'
}

pub open spec fn digit_value(c: char) -> int {
    c as int - '0' as int
}

/// Whether every character is a decimal digit.
pub open spec fn all_digits(s: Seq<char>) -> bool {
    forall|i: int| 0 <= i < s.len() ==> is_digit(#[trigger] s[i])
}

/// The number a string of decimal digits spells.
pub open spec fn digits_value(s: Seq<char>) -> int
    decreases s.len(),
{
    if s.len() == 0 {
        0
    } else {
        digits_value(s.drop_last()) * 10 + digit_value(s.last())
    }
}

/// The first three digits after the point, in thousandths.
pub open spec fn thousandths(frac: Seq<char>) -> int {
    (if frac.len() > 0 {
        digit_value(frac[0]) * 100
    } else {
        0
    }) + (if frac.len() > 1 {
        digit_value(frac[1]) * 10
    } else {
        0
    }) + (if frac.len() > 2 {
        digit_value(frac[2])
    } else {
        0
    })
}

/// Whether `s` is digits, a point at `k`, and digits.
pub open spec fn point_at(s: Seq<char>, k: int) -> bool {
    0 <= k < s.len() && s[k] == '.' && all_digits(s.take(k)) && all_digits(s.skip(k + 1))
}

/// A plain non-negative decimal (digits, or digits around one point) in
/// thousandths: the integer part times 1000 plus the first three digits
/// after the point. `None` for any other text, or above the cap.
pub open spec fn permille_of(s: Seq<char>) -> Option<u32> {
    let v: Option<int> = if s.len() > 0 && all_digits(s) {
        Some(digits_value(s) * 1000)
    } else if exists|k: int| point_at(s, k) {
        let k = choose|k: int| point_at(s, k);
        Some(digits_value(s.take(k)) * 1000 + thousandths(s.skip(k + 1)))
    } else {
        None
    };
    match v {
        Some(x) => if x <= PERMILLE_CAP {
            Some(x as u32)
        } else {
            None
        },
        None => None,
    }
}

/// A longer string of digits spells at least as much as its prefix.
proof fn lemma_digits_prefix(s: Seq<char>, i: int)
    requires
        all_digits(s),
        0 <= i <= s.len(),
    ensures
        digits_value(s.take(i)) <= digits_value(s),
        digits_value(s) >= 0,
    decreases s.len(),
{
    if s.len() > 0 {
        let d = s.drop_last();
        assert(all_digits(d)) by {
            assert forall|j: int| 0 <= j < d.len() implies is_digit(#[trigger] d[j]) by {
                assert(d[j] == s[j]);
            }
        }
        assert(is_digit(s[s.len() - 1]));
        if i < s.len() {
            assert(d.take(i) =~= s.take(i));
            lemma_digits_prefix(d, i);
        } else {
            assert(s.take(i) =~= s);
            lemma_digits_prefix(d, 0);
        }
    }
}

/// The value of the digits of `s` between `from` and `to`; `None` when one
/// of them is not a digit or the value exceeds the cap.
fn digits_between(s: &str, from: usize, to: usize) -> (r: Option<u64>)
    requires
        from <= to <= s@.len(),
    ensures
        match r {
            Some(v) => all_digits(s@.subrange(from as int, to as int)) && v == digits_value(
                s@.subrange(from as int, to as int),
            ) && v <= PERMILLE_CAP,
            None => !all_digits(s@.subrange(from as int, to as int)) || digits_value(
                s@.subrange(from as int, to as int),
            ) > PERMILLE_CAP,
        },
{
    let ghost sub = s@.subrange(from as int, to as int);
    let mut v: u64 = 0;
    let mut i: usize = from;
    while i < to
        invariant
            from <= i <= to <= s@.len(),
            sub == s@.subrange(from as int, to as int),
            all_digits(s@.subrange(from as int, i as int)),
            v == digits_value(s@.subrange(from as int, i as int)),
            v <= PERMILLE_CAP,
        decreases to - i,
    {
        let c = s.get_char(i);
        let ghost pre = s@.subrange(from as int, i + 1);
        proof {
            assert(pre.drop_last() =~= s@.subrange(from as int, i as int));
            assert(pre.last() == c);
            assert(sub.take(i + 1 - from) =~= pre);
        }
        if !('0' <= c && c <= '9') {
            proof {
                assert(sub[i - from] == c);
            }
            return None;
        }
        let d = (c as u32 - '0' as u32) as u64;
        if v * 10 + d > PERMILLE_CAP as u64 {
            proof {
                if all_digits(sub) {
                    lemma_digits_prefix(sub, i + 1 - from);
                }
            }
            return None;
        }
        v = v * 10 + d;
        proof {
            assert forall|j: int| 0 <= j < pre.len() implies is_digit(#[trigger] pre[j]) by {
                if j < pre.len() - 1 {
                    assert(pre[j] == s@.subrange(from as int, i as int)[j]);
                }
            }
        }
        i = i + 1;
    }
    Some(v)
}

/// Whether every character of `s` from `from` on is a digit.
fn digits_from(s: &str, from: usize) -> (r: bool)
    requires
        from <= s@.len(),
    ensures
        r == all_digits(s@.skip(from as int)),
{
    let n = s.unicode_len();
    let mut i: usize = from;
    while i < n
        invariant
            n == s@.len(),
            from <= i <= n,
            forall|j: int| from <= j < i ==> is_digit(#[trigger] s@[j]),
        decreases n - i,
    {
        let c = s.get_char(i);
        if !('0' <= c && c <= '9') {
            proof {
                assert(s@.skip(from as int)[i - from] == c);
            }
            return false;
        }
        i = i + 1;
    }
    proof {
        assert forall|j: int| 0 <= j < s@.skip(from as int).len() implies is_digit(
            #[trigger] s@.skip(from as int)[j],
        ) by {
            assert(s@.skip(from as int)[j] == s@[from + j]);
        }
    }
    true
}

/// Reads a plain decimal such as `0.35` or `1` as thousandths (350, 1000).
pub fn parse_permille(s: &str) -> (r: Option<u32>)
    ensures
        r == permille_of(s@),
{
    let n = s.unicode_len();
    let mut k: usize = 0;
    while k < n
        invariant
            n == s@.len(),
            k <= n,
            forall|j: int| 0 <= j < k ==> s@[j] != '.',
        ensures
            k <= n,
            forall|j: int| 0 <= j < k ==> s@[j] != '.',
            k < n ==> s@[k as int] == '.',
        decreases n - k,
    {
        if s.get_char(k) == '.' {
            break;
        }
        k = k + 1;
    }
    proof {
        assert(s@.take(n as int) =~= s@);
        assert(s@.subrange(0, n as int) =~= s@);
        assert(s@.subrange(0, k as int) =~= s@.take(k as int));
    }
    if k == n {
        if n == 0 {
            return None;
        }
        proof {
            assert(!exists|q: int| point_at(s@, q));
        }
        match digits_between(s, 0, n) {
            Some(v) => {
                if v > (PERMILLE_CAP / 1000) as u64 {
                    return None;
                }
                Some((v * 1000) as u32)
            },
            None => {
                proof {
                    if all_digits(s@) {
                        assert(digits_value(s@) * 1000 > PERMILLE_CAP);
                    }
                }
                None
            },
        }
    } else {
        proof {
            assert(!is_digit(s@[k as int]));
            assert(!all_digits(s@));
        }
        let int_part = digits_between(s, 0, k);
        let frac_ok = digits_from(s, k + 1);
        proof {
            assert forall|q: int| point_at(s@, q) implies q == k by {
                if q < k {
                    assert(s@[q] != '.');
                } else if q > k {
                    assert(s@.take(q)[k as int] == '.');
                    assert(!is_digit(s@.take(q)[k as int]));
                }
            }
        }
        if !frac_ok {
            proof {
                assert(!point_at(s@, k as int));
            }
            return None;
        }
        match int_part {
            None => {
                proof {
                    if point_at(s@, k as int) {
                        assert(digits_value(s@.take(k as int)) > PERMILLE_CAP);
                        assert(thousandths(s@.skip(k + 1)) >= 0);
                    } else {
                        assert(!all_digits(s@.take(k as int)));
                    }
                }
                None
            },
            Some(v) => {
                proof {
                    assert(point_at(s@, k as int));
                }
                let mut t: u64 = 0;
                if n - k > 1 {
                    t = t + (s.get_char(k + 1) as u32 - '0' as u32) as u64 * 100;
                }
                if n - k > 2 {
                    t = t + (s.get_char(k + 2) as u32 - '0' as u32) as u64 * 10;
                }
                if n - k > 3 {
                    t = t + (s.get_char(k + 3) as u32 - '0' as u32) as u64;
                }
                proof {
                    let f = s@.skip(k + 1);
                    if f.len() > 0 {
                        assert(f[0] == s@[k + 1]);
                        assert(is_digit(f[0]));
                    }
                    if f.len() > 1 {
                        assert(f[1] == s@[k + 2]);
                        assert(is_digit(f[1]));
                    }
                    if f.len() > 2 {
                        assert(f[2] == s@[k + 3]);
                        assert(is_digit(f[2]));
                    }
                    assert(t == thousandths(f));
                }
                let total = v * 1000 + t;
                if total > PERMILLE_CAP as u64 {
                    None
                } else {
                    Some(total as u32)
                }
            },
        }
    }
}

/// Whether `c` is `lower` or `upper`.
pub open spec fn either(c: char, lower: char, upper: char) -> bool {
    c == lower || c == upper
}

/// Whether a line read by the capture helper is the stop command: `stop`
/// in any ASCII case, with surrounding whitespace.
pub open spec fn is_stop_line(line: Seq<char>) -> bool {
    let t = trim_of(line);
    t.len() == 4 && either(t[0], 's', 'S') && either(t[1], 't', 'T') && either(t[2], 'o', 'O')
        && either(t[3], 'p', 'P')
}

/// Whether a line read by the capture helper is the stop command.
pub fn is_stop_command(line: &str) -> (r: bool)
    ensures
        r == is_stop_line(line@),
{
    let t = trimmed(line);
    let t = t.as_str();
    if t.unicode_len() != 4 {
        return false;
    }
    let c0 = t.get_char(0);
    let c1 = t.get_char(1);
    let c2 = t.get_char(2);
    let c3 = t.get_char(3);
    (c0 == 's' || c0 == 'S') && (c1 == 't' || c1 == 'T') && (c2 == 'o' || c2 == 'O') && (c3 == 'p'
        || c3 == 'P')
}

} // verus!
