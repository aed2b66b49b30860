//! Input devices: reading the device listing of the capture tool, and
//! ranking device names to pick a default microphone.
use crate::text::{trim_of, trimmed};
use vstd::prelude::*;

verus! {

#[derive(Clone, Debug)]
pub struct AudioDeviceOption {
    pub id: String,
    pub name: String,
    pub is_microphone_like: bool,
}

/// What `str::to_lowercase` gives for a text.
pub uninterp spec fn lower_of(s: Seq<char>) -> Seq<char>;

/// Whether `t` occurs in `s` as a contiguous part.
pub open spec fn has_part(s: Seq<char>, t: Seq<char>) -> bool {
    exists|i: int| 0 <= i && i + t.len() <= s.len() && #[trigger] s.subrange(i, i + t.len()) == t
}

/// Whether any of the terms occurs in `s`.
pub open spec fn has_any(s: Seq<char>, terms: Seq<&'static str>) -> bool {
    exists|k: int| 0 <= k < terms.len() && has_part(s, (#[trigger] terms[k])@)
}

/// Relies on `str::to_lowercase`: the lowercase form, which depends on the
/// characters alone.
#[verifier::external_body]
fn lowercase(s: &str) -> (r: String)
    ensures
        r@ == lower_of(s@),
{
    s.to_lowercase()
}

/// Whether `t` occurs in `s` at position `i`.
fn occurs_at(s: &str, t: &str, i: usize) -> (r: bool)
    requires
        i + t@.len() <= s@.len(),
    ensures
        r == (s@.subrange(i as int, i + t@.len()) == t@),
{
    let n = s.unicode_len();
    let m = t.unicode_len();
    let mut j: usize = 0;
    while j < m
        invariant
            n == s@.len(),
            m == t@.len(),
            i + m <= s@.len(),
            j <= m,
            forall|q: int| 0 <= q < j ==> s@[i + q] == t@[q],
        decreases m - j,
    {
        if s.get_char(i + j) != t.get_char(j) {
            proof {
                assert(s@.subrange(i as int, i + m)[j as int] != t@[j as int]);
            }
            return false;
        }
        j = j + 1;
    }
    proof {
        assert(s@.subrange(i as int, i + m) =~= t@);
    }
    true
}

/// Whether `t` occurs in `s` as a contiguous part.
fn contains(s: &str, t: &str) -> (r: bool)
    ensures
        r == has_part(s@, t@),
{
    let n = s.unicode_len();
    let m = t.unicode_len();
    if m > n {
        return false;
    }
    let last = n - m;
    let mut i: usize = 0;
    loop
        invariant
            n == s@.len(),
            m == t@.len(),
            last == n - m,
            i <= last,
            forall|q: int| 0 <= q < i ==> #[trigger] s@.subrange(q, q + m) != t@,
        decreases last - i,
    {
        if occurs_at(s, t, i) {
            return true;
        }
        if i == last {
            return false;
        }
        i = i + 1;
    }
}

pub open spec fn microphone_terms() -> Seq<&'static str> {
    seq!["microphone", "microfone", "mic", "built-in", "interno", "headset", "airpods"]
}

pub open spec fn builtin_terms() -> Seq<&'static str> {
    seq!["macbook", "built-in", "internal"]
}

pub open spec fn mobile_terms() -> Seq<&'static str> {
    seq!["iphone", "continuity", "desk view"]
}

pub open spec fn app_audio_terms() -> Seq<&'static str> {
    seq!["teams audio", "zoomaudio", "discord", "slack"]
}

/// Words that mark a device name as a microphone.
pub fn microphone_keywords() -> (r: Vec<&'static str>)
    ensures
        r@ == microphone_terms(),
{
    let r = vec!["microphone", "microfone", "mic", "built-in", "interno", "headset", "airpods"];
    proof {
        assert(r@ =~= microphone_terms());
    }
    r
}

fn builtin_keywords() -> (r: Vec<&'static str>)
    ensures
        r@ == builtin_terms(),
{
    let r = vec!["macbook", "built-in", "internal"];
    proof {
        assert(r@ =~= builtin_terms());
    }
    r
}

fn mobile_keywords() -> (r: Vec<&'static str>)
    ensures
        r@ == mobile_terms(),
{
    let r = vec!["iphone", "continuity", "desk view"];
    proof {
        assert(r@ =~= mobile_terms());
    }
    r
}

fn app_audio_keywords() -> (r: Vec<&'static str>)
    ensures
        r@ == app_audio_terms(),
{
    let r = vec!["teams audio", "zoomaudio", "discord", "slack"];
    proof {
        assert(r@ =~= app_audio_terms());
    }
    r
}

/// Whether any of the terms occurs in `input`.
pub fn contains_any(input: &str, terms: &Vec<&'static str>) -> (r: bool)
    ensures
        r == has_any(input@, terms@),
{
    let mut k: usize = 0;
    while k < terms.len()
        invariant
            k <= terms@.len(),
            forall|q: int| 0 <= q < k ==> !has_part(input@, (#[trigger] terms@[q])@),
        decreases terms@.len() - k,
    {
        if contains(input, terms[k]) {
            return true;
        }
        k = k + 1;
    }
    false
}

/// How likely a device of this name is the microphone to record from.
pub open spec fn mic_score(name: Seq<char>) -> int {
    let l = lower_of(name);
    (if has_any(l, microphone_terms()) {
        160int
    } else {
        0
    }) + (if has_any(l, builtin_terms()) {
        35int
    } else {
        0
    }) - (if has_any(l, mobile_terms()) {
        30int
    } else {
        0
    }) - (if has_any(l, app_audio_terms()) {
        130int
    } else {
        0
    })
}

/// Scores a device name: microphone words +160, built-in words +35, phone
/// words -30, app audio words -130, all matched in lowercase.
pub fn score_mic(name: &str) -> (r: i32)
    ensures
        r == mic_score(name@),
{
    let lowered = lowercase(name);
    let mut score: i32 = 0;
    if contains_any(lowered.as_str(), &microphone_keywords()) {
        score = score + 160;
    }
    if contains_any(lowered.as_str(), &builtin_keywords()) {
        score = score + 35;
    }
    if contains_any(lowered.as_str(), &mobile_keywords()) {
        score = score - 30;
    }
    if contains_any(lowered.as_str(), &app_audio_keywords()) {
        score = score - 130;
    }
    score
}

/// The id of the device with the highest score; among equal scores the
/// last one. `None` when there are no devices.
pub fn choose_default_mic(devices: &Vec<AudioDeviceOption>) -> (r: Option<String>)
    ensures
        devices@.len() == 0 ==> r is None,
        devices@.len() > 0 ==> exists|k: int|
            0 <= k < devices@.len() && r == Some(devices@[k].id) && (forall|j: int|
                0 <= j < devices@.len() ==> mic_score(#[trigger] devices@[j].name@) <= mic_score(
                    devices@[k].name@,
                )) && (forall|j: int|
                k < j < devices@.len() ==> mic_score(#[trigger] devices@[j].name@) < mic_score(
                    devices@[k].name@,
                )),
{
    if devices.len() == 0 {
        return None;
    }
    let mut best: usize = 0;
    let mut best_score = score_mic(devices[0].name.as_str());
    let mut i: usize = 1;
    while i < devices.len()
        invariant
            1 <= i <= devices@.len(),
            best < i,
            best_score == mic_score(devices@[best as int].name@),
            forall|j: int| 0 <= j < i ==> mic_score(#[trigger] devices@[j].name@) <= best_score,
            forall|j: int| best < j < i ==> mic_score(#[trigger] devices@[j].name@) < best_score,
        decreases devices@.len() - i,
    {
        let s = score_mic(devices[i].name.as_str());
        if s >= best_score {
            best = i;
            best_score = s;
        }
        i = i + 1;
    }
    Some(devices[best].id.clone())
}


// ---------------------------------------------------------------------
// Device listing
// ---------------------------------------------------------------------
/// The pieces of a text between newlines, the last one included even when empty.
pub open spec fn split_nl(s: Seq<char>) -> Seq<Seq<char>>
    decreases s.len(),
{
    if s.len() == 0 {
        seq![Seq::empty()]
    } else {
        let p = split_nl(s.drop_last());
        if s.last() == '\n' {
            p.push(Seq::empty())
        } else {
            p.update(p.len() - 1, p.last().push(s.last()))
        }
    }
}

/// A line without the carriage return of a `\r\n` ending.
pub open spec fn strip_cr(l: Seq<char>) -> Seq<char> {
    if l.len() > 0 && l.last() == '\r' {
        l.drop_last()
    } else {
        l
    }
}

/// The lines of a text: split at `\n`, dropping a `\r` just before it;
/// a text that ends with a newline has no empty last line.
pub open spec fn text_lines(s: Seq<char>) -> Seq<Seq<char>> {
    let p = split_nl(s);
    let body = p.drop_last().map_values(|l: Seq<char>| strip_cr(l));
    if p.last().len() == 0 {
        body
    } else {
        body.push(p.last())
    }
}

/// Groups 1 and 2 of the first match of the regular expression `pattern`
/// in `line`, if the pattern compiles, matches, and both groups take part.
pub uninterp spec fn regex_two_groups(pattern: Seq<char>, line: Seq<char>) -> Option<(Seq<char>, Seq<char>)>;

/// The pattern of a device line of the listing: `[<index>] <name>`.
pub open spec fn device_line_pattern() -> Seq<char> {
    "\\[(\\d+)\\]\\s+(.+)$"@
}

/// The index and the name of a device line.
pub open spec fn device_line_parts(line: Seq<char>) -> Option<(Seq<char>, Seq<char>)> {
    regex_two_groups(device_line_pattern(), line)
}

/// The lines of the text.
fn lines_of(s: &str) -> (r: Vec<String>)
    ensures
        r@.map_values(|l: String| l@) == text_lines(s@),
{
    let n = s.unicode_len();
    let mut out: Vec<String> = Vec::new();
    let ghost mut raw: Seq<Seq<char>> = Seq::empty();
    let mut start: usize = 0;
    let mut i: usize = 0;
    proof {
        assert(s@.take(0) =~= Seq::<char>::empty());
        assert(s@.subrange(0, 0) =~= Seq::<char>::empty());
        assert(split_nl(s@.take(0)) =~= raw.push(s@.subrange(0, 0)));
        assert(out@.map_values(|l: String| l@) =~= raw.map_values(|l: Seq<char>| strip_cr(l)));
    }
    while i < n
        invariant
            n == s@.len(),
            start <= i <= n,
            split_nl(s@.take(i as int)) == raw.push(s@.subrange(start as int, i as int)),
            out@.map_values(|l: String| l@) == raw.map_values(|l: Seq<char>| strip_cr(l)),
        decreases n - i,
    {
        let c = s.get_char(i);
        proof {
            assert(s@.take(i + 1).drop_last() =~= s@.take(i as int));
            assert(s@.take(i + 1).last() == c);
        }
        if c == '\n' {
            let end = if i > start && s.get_char(i - 1) == '\r' {
                i - 1
            } else {
                i
            };
            let piece = s.substring_char(start, end).to_owned();
            let ghost whole = s@.subrange(start as int, i as int);
            proof {
                if end < i {
                    assert(whole.last() == s@[i - 1]);
                    assert(whole.drop_last() =~= s@.subrange(start as int, end as int));
                }
                assert(piece@ == strip_cr(whole));
            }
            let ghost before = out@.map_values(|l: String| l@);
            out.push(piece);
            proof {
                raw = raw.push(whole);
                assert(out@.map_values(|l: String| l@) =~= before.push(piece@));
                assert(out@.map_values(|l: String| l@) =~= raw.map_values(|l: Seq<char>| strip_cr(l)));
                assert(s@.subrange(i + 1, i + 1) =~= Seq::<char>::empty());
            }
            start = i + 1;
        } else {
            proof {
                assert(s@.subrange(start as int, i + 1) =~= s@.subrange(start as int, i as int).push(c));
                let p = split_nl(s@.take(i as int));
                assert(p.update(p.len() - 1, p.last().push(c)) =~= raw.push(
                    s@.subrange(start as int, i + 1),
                ));
            }
        }
        i = i + 1;
    }
    proof {
        assert(s@.take(n as int) =~= s@);
        let p = split_nl(s@);
        assert(p.drop_last() =~= raw);
    }
    if start < n {
        let last = s.substring_char(start, n).to_owned();
        let ghost before = out@.map_values(|l: String| l@);
        out.push(last);
        proof {
            assert(out@.map_values(|l: String| l@) =~= before.push(last@));
        }
    } else {
        proof {
            assert(s@.subrange(start as int, n as int).len() == 0);
        }
    }
    out
}

/// Relies on `regex::Regex::new`, `Regex::captures` and `Captures::get`:
/// groups 1 and 2 of the first match of `pattern` in `line`.
#[verifier::external_body]
fn two_groups(pattern: &str, line: &str) -> (r: Option<(String, String)>)
    ensures
        match r {
            Some((a, b)) => regex_two_groups(pattern@, line@) == Some((a@, b@)),
            None => regex_two_groups(pattern@, line@) is None,
        },
{
    let re = regex::Regex::new(pattern).ok()?;
    let caps = re.captures(line)?;
    Some((caps.get(1)?.as_str().to_owned(), caps.get(2)?.as_str().to_owned()))
}

pub open spec fn audio_header(line: Seq<char>) -> bool {
    has_part(line, "AVFoundation audio devices"@)
}

pub open spec fn video_header(line: Seq<char>) -> bool {
    has_part(line, "AVFoundation video devices"@)
}

/// Whether the audio section is open after these lines.
pub open spec fn in_audio_section(lines: Seq<Seq<char>>) -> bool
    decreases lines.len(),
{
    if lines.len() == 0 {
        false
    } else {
        let l = trim_of(lines.last());
        if audio_header(l) {
            true
        } else if video_header(l) {
            false
        } else {
            in_audio_section(lines.drop_last())
        }
    }
}

/// A listed device: id, name and whether the name reads as a microphone.
pub open spec fn device_entry(id: Seq<char>, name: Seq<char>) -> (Seq<char>, Seq<char>, bool) {
    (id, trim_of(name), has_any(lower_of(trim_of(name)), microphone_terms()))
}

/// The devices listed in the audio section of these lines.
pub open spec fn listed_devices(lines: Seq<Seq<char>>) -> Seq<(Seq<char>, Seq<char>, bool)>
    decreases lines.len(),
{
    if lines.len() == 0 {
        Seq::empty()
    } else {
        let before = listed_devices(lines.drop_last());
        let l = trim_of(lines.last());
        if audio_header(l) || video_header(l) || !in_audio_section(lines.drop_last()) {
            before
        } else {
            match device_line_parts(l) {
                Some((id, name)) => before.push(device_entry(id, name)),
                None => before,
            }
        }
    }
}

pub open spec fn device_view(d: AudioDeviceOption) -> (Seq<char>, Seq<char>, bool) {
    (d.id@, d.name@, d.is_microphone_like)
}

/// Reads the devices of the audio section of the capture tool's device
/// listing: lines `[<index>] <name>` between the audio devices header and
/// the video devices header.
pub fn parse_device_listing(listing: &str) -> (r: Vec<AudioDeviceOption>)
    ensures
        r@.map_values(|d: AudioDeviceOption| device_view(d)) == listed_devices(text_lines(listing@)),
{
    let lines = lines_of(listing);
    let ghost ls = text_lines(listing@);
    let mut devices: Vec<AudioDeviceOption> = Vec::new();
    let mut in_audio = false;
    let mut i: usize = 0;
    while i < lines.len()
        invariant
            lines@.map_values(|l: String| l@) == ls,
            i <= lines@.len(),
            in_audio == in_audio_section(ls.subrange(0, i as int)),
            devices@.map_values(|d: AudioDeviceOption| device_view(d)) == listed_devices(
                ls.subrange(0, i as int),
            ),
        decreases lines@.len() - i,
    {
        let ghost prefix = ls.subrange(0, i + 1);
        let ghost before = devices@.map_values(|d: AudioDeviceOption| device_view(d));
        proof {
            assert(prefix.drop_last() =~= ls.subrange(0, i as int));
            assert(prefix.last() == lines@[i as int]@);
        }
        let line = trimmed(lines[i].as_str());
        if contains(line.as_str(), "AVFoundation audio devices") {
            in_audio = true;
        } else if contains(line.as_str(), "AVFoundation video devices") {
            in_audio = false;
        } else if in_audio {
            let pattern = "\\[(\\d+)\\]\\s+(.+)$";
            match two_groups(pattern, line.as_str()) {
                Some((id, raw_name)) => {
                    let name = trimmed(raw_name.as_str());
                    let lowered = lowercase(name.as_str());
                    let mic_like = contains_any(lowered.as_str(), &microphone_keywords());
                    devices.push(AudioDeviceOption { id, name, is_microphone_like: mic_like });
                    proof {
                        assert(devices@.map_values(|d: AudioDeviceOption| device_view(d)) =~= before.push(
                            device_entry(id@, raw_name@),
                        ));
                    }
                },
                None => {},
            }
        }
        i = i + 1;
    }
    proof {
        assert(ls.subrange(0, lines@.len() as int) =~= ls);
    }
    devices
}

} // verus!
