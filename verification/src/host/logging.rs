//! The session log: lines kept in memory for the user to read, and a filter
//! that lets the first of many equal warnings through.

use std::collections::VecDeque;
use vstd::prelude::*;
use vstd::slice::slice_subrange;
use vstd::string::StringExecFns;

use crate::text;
use crate::text::{characters, same_text, string_of, trim};

verus! {

/// How many lines are kept.
pub const LOG_BUFFER_LIMIT: usize = 200;

pub const SESSION_LOG_FILE_NAME: &'static str = "eternal-host-session.log";

// ---- lines -----------------------------------------------------------------

/// The lines that bytes complete, each with its line feed, and what is pending
/// behind them.
pub open spec fn fed(pending: Seq<u8>, bytes: Seq<u8>) -> (Seq<Seq<u8>>, Seq<u8>)
    decreases bytes.len(),
{
    if bytes.len() == 0 {
        (Seq::empty(), pending)
    } else {
        let (lines, rest) = fed(pending, bytes.drop_last());
        if bytes.last() == 10 {
            (lines.push(rest.push(10)), Seq::empty())
        } else {
            (lines, rest.push(bytes.last()))
        }
    }
}

/// What a list of byte strings holds.
pub open spec fn contents(v: Seq<Vec<u8>>) -> Seq<Seq<u8>> {
    Seq::new(v.len(), |i: int| v[i]@)
}

/// Takes bytes in, and gives the lines that they complete.
pub fn feed(pending: &mut Vec<u8>, bytes: &[u8]) -> (lines: Vec<Vec<u8>>)
    ensures
        (contents(lines@), final(pending)@) == fed(old(pending)@, bytes@),
{
    let ghost start = pending@;
    let mut lines: Vec<Vec<u8>> = Vec::new();
    let mut i: usize = 0;
    assert(contents(lines@) =~= Seq::empty());
    assert(bytes@.take(0) =~= Seq::empty());
    while i < bytes.len()
        invariant
            i <= bytes@.len(),
            (contents(lines@), pending@) == fed(start, bytes@.take(i as int)),
        decreases bytes@.len() - i,
    {
        let b: u8 = bytes[i];
        let ghost before = lines@;
        assert(bytes@.take(i + 1).drop_last() =~= bytes@.take(i as int));
        assert(bytes@.take(i + 1).last() == b);
        pending.push(b);
        if b == 10 {
            let ghost line = pending@;
            let mut done: Vec<u8> = Vec::new();
            done.append(pending);
            assert(done@ =~= line);
            assert(pending@ =~= Seq::empty());
            lines.push(done);
            assert(contents(lines@) =~= contents(before).push(line));
        }
        i += 1;
    }
    assert(bytes@.take(i as int) =~= bytes@);
    lines
}

/// What bytes read as where some of them are no UTF-8.
pub uninterp spec fn lossy_utf8(bytes: Seq<u8>) -> Seq<char>;

/// `String::from_utf8_lossy`: the text of some bytes. Well-formed UTF-8 is
/// decoded as it is; which replacement characters stand for malformed parts is
/// left to the name.
#[verifier::external_body]
fn lossy_text(bytes: &[u8]) -> (s: String)
    ensures
        s@ == lossy_utf8(bytes@),
        vstd::utf8::valid_utf8(bytes@) ==> s@ == vstd::utf8::decode_utf8(bytes@),
{
    String::from_utf8_lossy(bytes).into_owned()
}

/// A text without the carriage returns and line feeds at its end.
pub open spec fn without_line_end(s: Seq<char>) -> Seq<char>
    decreases s.len(),
{
    if s.len() > 0 && (s.last() == '\r' || s.last() == '\n') {
        without_line_end(s.drop_last())
    } else {
        s
    }
}

/// The lines that the log keeps.
#[derive(Debug)]
pub struct LogBuffer {
    pub lines: VecDeque<String>,
}

/// The texts of some lines.
pub open spec fn texts(lines: Seq<String>) -> Seq<Seq<char>> {
    Seq::new(lines.len(), |i: int| lines[i]@)
}

/// Lines with one more: where the log is full, the oldest goes.
pub open spec fn logged(lines: Seq<Seq<char>>, line: Seq<char>) -> Seq<Seq<char>> {
    if lines.len() >= LOG_BUFFER_LIMIT {
        lines.skip(1).push(line)
    } else {
        lines.push(line)
    }
}

/// Lines with a line feed between every two.
pub open spec fn joined(lines: Seq<Seq<char>>) -> Seq<char>
    decreases lines.len(),
{
    if lines.len() == 0 {
        Seq::empty()
    } else if lines.len() == 1 {
        lines[0]
    } else {
        joined(lines.drop_last()) + seq!['\n'] + lines.last()
    }
}

impl LogBuffer {
    /// The kept lines, oldest first.
    pub open spec fn view(&self) -> Seq<Seq<char>> {
        texts(self.lines@)
    }

    /// An empty log.
    pub fn new() -> (b: LogBuffer)
        ensures
            b@.len() == 0,
    {
        LogBuffer { lines: VecDeque::new() }
    }

    /// Logs one text. Its line end is dropped, and so is an empty line. Gives
    /// the line that was kept.
    pub fn accept(&mut self, text: &str) -> (kept: Option<String>)
        ensures
            ({
                let line = without_line_end(text@);
                &&& kept is Some <==> line.len() > 0
                &&& kept matches Some(s) ==> s@ == line
                &&& final(self)@ == (if line.len() > 0 {
                    logged(old(self)@, line)
                } else {
                    old(self)@
                })
            }),
    {
        let chars = characters(text);
        let mut end: usize = chars.len();
        assert(chars@.take(end as int) =~= chars@);
        while end > 0 && (chars[end - 1] == '\r' || chars[end - 1] == '\n')
            invariant
                end <= chars@.len(),
                without_line_end(chars@.take(end as int)) == without_line_end(chars@),
            decreases end,
        {
            assert(chars@.take(end as int).drop_last() =~= chars@.take(end - 1));
            end -= 1;
        }
        let kept = slice_subrange(chars.as_slice(), 0, end);
        assert(kept@ =~= chars@.take(end as int));
        if end == 0 {
            return None;
        }
        let line = string_of(kept);
        let ghost before = self.lines@;
        if self.lines.len() >= LOG_BUFFER_LIMIT {
            let _gone = self.lines.pop_front();
            assert(self.lines@ =~= before.skip(1));
            assert(texts(self.lines@) =~= texts(before).skip(1));
        }
        let ghost middle = self.lines@;
        self.lines.push_back(line.clone());
        assert(texts(self.lines@) =~= texts(middle).push(line@));
        Some(line)
    }

    /// Logs one line of bytes. Gives the line that was kept.
    pub fn push_line(&mut self, raw: &[u8]) -> (kept: Option<String>)
        ensures
            raw@.len() == 0 ==> kept is None && final(self)@ == old(self)@,
            raw@.len() > 0 ==> ({
                let line = without_line_end(lossy_utf8(raw@));
                &&& kept is Some <==> line.len() > 0
                &&& kept matches Some(s) ==> s@ == line
                &&& final(self)@ == (if line.len() > 0 {
                    logged(old(self)@, line)
                } else {
                    old(self)@
                })
            }),
    {
        if raw.len() == 0 {
            return None;
        }
        let text = lossy_text(raw);
        self.accept(text.as_str())
    }

    /// The last lines, at most `limit` of them but at least one; nothing from
    /// an empty log.
    pub fn recent_log_text(&self, limit: usize) -> (text: Option<String>)
        ensures
            text is Some <==> self@.len() > 0,
            text matches Some(s) ==> s@ == joined(
                self@.skip(
                    if self@.len() <= limit {
                        0
                    } else if limit == 0 {
                        self@.len() - 1
                    } else {
                        self@.len() - limit
                    },
                ),
            ),
    {
        let n: usize = self.lines.len();
        if n == 0 {
            return None;
        }
        let count: usize = if limit == 0 {
            1
        } else {
            limit
        };
        let start: usize = n.saturating_sub(count);
        let ghost all = self@.skip(start as int);
        let mut s = self.lines[start].clone();
        let mut i: usize = start + 1;
        assert(all.take(1).len() == 1 && all.take(1)[0] == s@);
        while i < n
            invariant
                start < i <= n,
                n == self.lines@.len(),
                all == self@.skip(start as int),
                s@ == joined(all.take(i - start)),
            decreases n - i,
        {
            s.push('\n');
            s.append(self.lines[i].as_str());
            proof {
                let more = all.take(i + 1 - start);
                assert(more.drop_last() =~= all.take(i - start));
                assert(more.last() == self.lines@[i as int]@);
                assert(s@ =~= joined(all.take(i - start)) + seq!['\n'] + more.last());
            }
            i += 1;
        }
        assert(all.take(i - start) =~= all);
        Some(s)
    }

    /// The text of the session: that of the log file, unless it is blank or
    /// cannot be read; then what is in memory.
    pub fn session_log_text(&self, file: Option<String>) -> (text: Option<String>)
        ensures
            match file {
                Some(t) if text::trimmed(t@).len() > 0 => text matches Some(s) && s@ == t@,
                _ => {
                    &&& text is Some <==> self@.len() > 0
                    &&& text matches Some(s) ==> s@ == joined(
                        self@.skip(
                            if self@.len() <= LOG_BUFFER_LIMIT {
                                0
                            } else {
                                self@.len() - LOG_BUFFER_LIMIT
                            },
                        ),
                    )
                },
            },
    {
        if let Some(t) = file {
            let chars = characters(t.as_str());
            if trim(chars.as_slice()).len() > 0 {
                return Some(t);
            }
        }
        self.recent_log_text(LOG_BUFFER_LIMIT)
    }
}

/// The parts of the path of the session log: below the data directory of the
/// application, else below that of the program, else here.
pub fn session_log_path(app_data: Option<&str>, exe_dir: Option<&str>) -> (parts: Vec<String>)
    ensures
        texts(parts@) == seq![
            match (app_data, exe_dir) {
                (Some(d), _) => d@,
                (None, Some(d)) => d@,
                (None, None) => "."@,
            },
            "logs"@,
            SESSION_LOG_FILE_NAME@,
        ],
{
    let base = match (app_data, exe_dir) {
        (Some(d), _) => d.to_owned(),
        (None, Some(d)) => d.to_owned(),
        (None, None) => ".".to_owned(),
    };
    let mut parts: Vec<String> = Vec::new();
    parts.push(base);
    parts.push("logs".to_owned());
    parts.push(SESSION_LOG_FILE_NAME.to_owned());
    assert(texts(parts@) =~= seq![parts@[0]@, "logs"@, SESSION_LOG_FILE_NAME@]);
    parts
}

// ---- repeated warnings -----------------------------------------------------

/// Where a text first occurs in another, from `at` on.
pub open spec fn found_from(hay: Seq<char>, needle: Seq<char>, at: int) -> Option<int>
    decreases hay.len() + 1 - at,
{
    if at < 0 || at + needle.len() > hay.len() {
        None
    } else if hay.subrange(at, at + needle.len()) == needle {
        Some(at)
    } else {
        found_from(hay, needle, at + 1)
    }
}

/// Where a text first occurs in another.
pub open spec fn found(hay: Seq<char>, needle: Seq<char>) -> Option<int> {
    found_from(hay, needle, 0)
}

fn find(hay: &[char], needle: &[char]) -> (at: Option<usize>)
    ensures
        match at {
            Some(i) => found(hay@, needle@) == Some(i as int) && i + needle@.len() <= hay@.len(),
            None => found(hay@, needle@) is None,
        },
{
    let mut at: usize = 0;
    assert(hay@.len() == hay.len());
    while needle.len() <= hay.len() - at
        invariant
            at <= hay@.len(),
            hay@.len() <= usize::MAX,
            found_from(hay@, needle@, at as int) == found(hay@, needle@),
        decreases hay@.len() - at,
    {
        let mut k: usize = 0;
        while k < needle.len() && hay[at + k] == needle[k]
            invariant
                k <= needle@.len(),
                at + needle@.len() <= hay@.len(),
                hay@.len() <= usize::MAX,
                forall|j: int| 0 <= j < k ==> hay@[at + j] == needle@[j],
            decreases needle@.len() - k,
        {
            k += 1;
        }
        let ghost here = hay@.subrange(at as int, at + needle@.len());
        if k == needle.len() {
            assert(here =~= needle@);
            return Some(at);
        }
        assert(here[k as int] == hay@[at + k] && here[k as int] != needle@[k as int]);
        at += 1;
    }
    None
}

/// Whether `char::is_alphanumeric` holds of a character.
pub uninterp spec fn alphanumeric(c: char) -> bool;

/// `char::is_alphanumeric`: whether Unicode calls the character alphabetic or
/// numeric. Of ASCII these are the letters and digits; which others they are is
/// left to the name.
#[verifier::external_body]
fn is_alphanumeric(c: char) -> (b: bool)
    ensures
        b == alphanumeric(c),
        c <= '\u{7F}' ==> b == ('0' <= c <= '9' || 'A' <= c <= 'Z' || 'a' <= c <= 'z'),
{
    c.is_alphanumeric()
}

/// The leading characters that satisfy a condition.
pub open spec fn leading(s: Seq<char>, f: spec_fn(char) -> bool) -> Seq<char>
    decreases s.len(),
{
    if s.len() > 0 && f(s[0]) {
        seq![s[0]] + leading(s.skip(1), f)
    } else {
        Seq::empty()
    }
}

/// Whether a character may stand between a label and its value.
pub open spec fn is_gap(c: char) -> bool {
    c == ':' || c == ' '
}

/// Whether a character ends the name of an interface.
pub open spec fn ends_name(c: char) -> bool {
    c == ',' || c == '"' || c == ')'
}

/// Whether a character belongs to a zone.
pub open spec fn in_zone(c: char) -> bool {
    alphanumeric(c) || c == '-' || c == '_'
}

/// What follows the label of an interface: its name.
pub open spec fn interface_name(rest: Seq<char>) -> Seq<char> {
    let value = rest.skip(leading(rest, |c: char| is_gap(c)).len() as int);
    text::trimmed(leading(value, |c: char| !ends_name(c)))
}

/// The interface that a warning speaks of: the name behind the word
/// "interface", else the zone behind a percent sign, else one name for all.
pub open spec fn bucket(message: Seq<char>) -> Seq<char> {
    match found(message, "interface"@) {
        Some(i) => interface_name(message.skip(i + "interface"@.len())),
        None => match found(message, seq!['%']) {
            Some(p) => {
                let zone = leading(message.skip(p + 1), |c: char| in_zone(c));
                if zone.len() > 0 {
                    seq!['%'] + zone
                } else {
                    "generic"@
                }
            },
            None => "generic"@,
        },
    }
}

proof fn leading_grows(s: Seq<char>, f: spec_fn(char) -> bool, k: int)
    requires
        0 <= k <= s.len(),
        forall|j: int| 0 <= j < k ==> f(#[trigger] s[j]),
        k == s.len() || !f(s[k]),
    ensures
        leading(s, f) == s.take(k),
    decreases k,
{
    if k == 0 {
        assert(s.take(0) =~= Seq::empty());
    } else {
        let rest = s.skip(1);
        assert forall|j: int| 0 <= j < k - 1 implies f(#[trigger] rest[j]) by {
            assert(rest[j] == s[j + 1]);
        }
        leading_grows(rest, f, k - 1);
        assert(f(s[0]));
        assert(seq![s[0]] + rest.take(k - 1) =~= s.take(k));
    }
}

fn name_of(rest: &[char]) -> (name: String)
    ensures
        name@ == interface_name(rest@),
{
    let mut start: usize = 0;
    while start < rest.len() && (rest[start] == ':' || rest[start] == ' ')
        invariant
            start <= rest@.len(),
            forall|j: int| 0 <= j < start ==> is_gap(#[trigger] rest@[j]),
        decreases rest@.len() - start,
    {
        start += 1;
    }
    proof {
        leading_grows(rest@, |c: char| is_gap(c), start as int);
    }
    let value = slice_subrange(rest, start, rest.len());
    assert(value@ =~= rest@.skip(start as int));
    let mut end: usize = 0;
    while end < value.len() && value[end] != ',' && value[end] != '"' && value[end] != ')'
        invariant
            end <= value@.len(),
            forall|j: int| 0 <= j < end ==> !ends_name(#[trigger] value@[j]),
        decreases value@.len() - end,
    {
        end += 1;
    }
    proof {
        leading_grows(value@, |c: char| !ends_name(c), end as int);
    }
    let name = slice_subrange(value, 0, end);
    assert(name@ =~= value@.take(end as int));
    string_of(trim(name))
}

/// The interface that a warning speaks of.
pub fn interface_bucket(message: &str) -> (name: String)
    ensures
        name@ == bucket(message@),
{
    let chars = characters(message);
    let word = characters("interface");
    if let Some(i) = find(chars.as_slice(), word.as_slice()) {
        assert(chars@.len() == chars.len());
        let rest = slice_subrange(chars.as_slice(), i + word.len(), chars.len());
        assert(rest@ =~= chars@.skip(i + word@.len()));
        return name_of(rest);
    }
    let mut percent: Vec<char> = Vec::new();
    percent.push('%');
    assert(percent@ =~= seq!['%']);
    if let Some(p) = find(chars.as_slice(), percent.as_slice()) {
        assert(chars@.len() == chars.len());
        let rest = slice_subrange(chars.as_slice(), p + 1, chars.len());
        assert(rest@ =~= chars@.skip(p + 1));
        let mut end: usize = 0;
        while end < rest.len() && (is_alphanumeric(rest[end]) || rest[end] == '-' || rest[end]
            == '_')
            invariant
                end <= rest@.len(),
                forall|j: int| 0 <= j < end ==> in_zone(#[trigger] rest@[j]),
            ensures
                end <= rest@.len(),
                forall|j: int| 0 <= j < end ==> in_zone(#[trigger] rest@[j]),
                end == rest@.len() || !in_zone(rest@[end as int]),
            decreases rest@.len() - end,
        {
            end += 1;
        }
        proof {
            leading_grows(rest@, |c: char| in_zone(c), end as int);
        }
        if end > 0 {
            let zone = slice_subrange(rest, 0, end);
            assert(zone@ =~= rest@.take(end as int));
            let mut name = "%".to_owned();
            let tail = string_of(zone);
            name.append(tail.as_str());
            proof {
                reveal_strlit("%");
                assert("%"@ =~= seq!['%']);
            }
            return name;
        }
    }
    "generic".to_owned()
}

fn is_listed(names: &Vec<String>, name: &str) -> (b: bool)
    ensures
        b == texts(names@).contains(name@),
{
    let ghost all = texts(names@);
    let mut i: usize = 0;
    while i < names.len()
        invariant
            i <= names@.len(),
            all == texts(names@),
            forall|j: int| 0 <= j < i ==> #[trigger] all[j] != name@,
        decreases names@.len() - i,
    {
        if same_text(names[i].as_str(), name) {
            assert(all[i as int] == name@);
            return true;
        }
        i += 1;
    }
    false
}

/// Lets through the first failure of every interface. A discovery daemon warns
/// of each attempt on each interface that refuses it, which would flood the
/// log.
#[derive(Debug)]
pub struct MdnsDedupFilter {
    pub seen: Vec<String>,
}

/// The log target of the discovery daemon.
pub const MDNS_TARGET: &'static str = "mdns_sd";

/// How its repeated warnings start.
pub const SEND_FAILURE: &'static str = "Failed to send";

/// Whether a message is one of those that repeat.
pub open spec fn repeats(target: Seq<char>, message: Option<Seq<char>>) -> bool {
    target == MDNS_TARGET@ && (message matches Some(m) && found(m, SEND_FAILURE@) is Some)
}

impl MdnsDedupFilter {
    /// The interfaces that have been warned of.
    pub open spec fn view(&self) -> Seq<Seq<char>> {
        texts(self.seen@)
    }

    /// A filter that has seen nothing.
    pub fn new() -> (f: MdnsDedupFilter)
        ensures
            f@.len() == 0,
            f@.no_duplicates(),
    {
        MdnsDedupFilter { seen: Vec::new() }
    }

    /// Whether a message is logged.
    pub fn event_enabled(&mut self, target: &str, message: Option<&str>) -> (log: bool)
        requires
            old(self)@.no_duplicates(),
        ensures
            final(self)@.no_duplicates(),
            ({
                let m = match message {
                    Some(t) => Some(t@),
                    None => None,
                };
                if repeats(target@, m) {
                    &&& log == !old(self)@.contains(bucket(m->0))
                    &&& final(self)@ == (if log {
                        old(self)@.push(bucket(m->0))
                    } else {
                        old(self)@
                    })
                } else {
                    log && final(self)@ == old(self)@
                }
            }),
    {
        if !same_text(target, MDNS_TARGET) {
            return true;
        }
        let message = match message {
            Some(m) => m,
            None => return true,
        };
        let chars = characters(message);
        let failure = characters(SEND_FAILURE);
        if find(chars.as_slice(), failure.as_slice()).is_none() {
            return true;
        }
        let name = interface_bucket(message);
        if is_listed(&self.seen, name.as_str()) {
            return false;
        }
        let ghost before = self@;
        self.seen.push(name);
        assert(self@ =~= before.push(bucket(message@)));
        true
    }
}

impl Default for MdnsDedupFilter {
    fn default() -> (f: MdnsDedupFilter)
        ensures
            f@.len() == 0,
            f@.no_duplicates(),
    {
        MdnsDedupFilter::new()
    }
}

/// The log never keeps more lines than its limit, and the newest is always
/// there.
pub proof fn logs_are_bounded(lines: Seq<Seq<char>>, line: Seq<char>)
    requires
        lines.len() <= LOG_BUFFER_LIMIT,
    ensures
        logged(lines, line).len() <= LOG_BUFFER_LIMIT,
        logged(lines, line).last() == line,
{
}

/// Byte strings, one after the other.
pub open spec fn concatenated(parts: Seq<Seq<u8>>) -> Seq<u8>
    decreases parts.len(),
{
    if parts.len() == 0 {
        Seq::empty()
    } else {
        concatenated(parts.drop_last()) + parts.last()
    }
}

/// Cutting bytes into lines loses nothing: the lines and what is pending, one
/// after the other, are what was pending before and the bytes. Every line ends
/// at its first line feed, and what is pending holds none.
pub proof fn lines_hold_every_byte(pending: Seq<u8>, bytes: Seq<u8>)
    requires
        !pending.contains(10),
    ensures
        concatenated(fed(pending, bytes).0) + fed(pending, bytes).1 == pending + bytes,
        !fed(pending, bytes).1.contains(10),
        forall|i: int|
            0 <= i < fed(pending, bytes).0.len() ==> {
                let line = #[trigger] fed(pending, bytes).0[i];
                line.len() > 0 && line.last() == 10 && !line.drop_last().contains(10)
            },
    decreases bytes.len(),
{
    let (lines, rest) = fed(pending, bytes);
    if bytes.len() == 0 {
        assert(concatenated(lines) + rest =~= pending + bytes);
    } else {
        let w = bytes.drop_last();
        let b = bytes.last();
        lines_hold_every_byte(pending, w);
        let (before, open) = fed(pending, w);
        if b == 10 {
            assert(lines.drop_last() =~= before);
            assert(open.push(10).drop_last() =~= open);
            assert(concatenated(lines) == concatenated(before) + open.push(10));
            assert(concatenated(before) + open.push(10) =~= (concatenated(before) + open).push(10));
            assert((pending + w).push(b) =~= pending + bytes);
            assert(concatenated(lines) + rest =~= pending + bytes);
            assert forall|i: int| 0 <= i < lines.len() implies ({
                let line = #[trigger] lines[i];
                line.len() > 0 && line.last() == 10 && !line.drop_last().contains(10)
            }) by {
                if i < before.len() {
                    assert(lines[i] == before[i]);
                }
            }
        } else {
            assert(concatenated(before) + open.push(b) =~= (concatenated(before) + open).push(b));
            assert((pending + w).push(b) =~= pending + bytes);
            assert(!rest.contains(10)) by {
                if rest.contains(10) {
                    let k = choose|k: int| 0 <= k < rest.len() && rest[k] == 10;
                    assert(open[k] == 10);
                }
            }
        }
    }
}

/// The log after some lines.
pub open spec fn all_logged(lines: Seq<Seq<char>>) -> Seq<Seq<char>>
    decreases lines.len(),
{
    if lines.len() == 0 {
        Seq::empty()
    } else {
        logged(all_logged(lines.drop_last()), lines.last())
    }
}

/// The log keeps the newest lines in their order: all of them while they are no
/// more than its limit, and then the last so many.
pub proof fn logs_keep_the_newest(lines: Seq<Seq<char>>)
    ensures
        lines.len() <= LOG_BUFFER_LIMIT ==> all_logged(lines) == lines,
        lines.len() > LOG_BUFFER_LIMIT ==> all_logged(lines) == lines.skip(
            lines.len() - LOG_BUFFER_LIMIT,
        ),
    decreases lines.len(),
{
    if lines.len() == 0 {
        assert(all_logged(lines) =~= lines);
    } else {
        let w = lines.drop_last();
        logs_keep_the_newest(w);
        if lines.len() <= LOG_BUFFER_LIMIT {
            assert(w.push(lines.last()) =~= lines);
        } else {
            let kept = all_logged(w);
            assert(kept.skip(1).push(lines.last()) =~= lines.skip(lines.len() - LOG_BUFFER_LIMIT));
        }
    }
}

/// A text loses the carriage returns and line feeds at its end, all of them and
/// nothing else.
pub proof fn line_ends_are_dropped(s: Seq<char>)
    ensures
        ({
            let t = without_line_end(s);
            &&& t.len() <= s.len()
            &&& t == s.take(t.len() as int)
            &&& t.len() > 0 ==> t.last() != '\r' && t.last() != '\n'
            &&& forall|i: int|
                t.len() <= i < s.len() ==> #[trigger] s[i] == '\r' || s[i] == '\n'
        }),
    decreases s.len(),
{
    if s.len() > 0 && (s.last() == '\r' || s.last() == '\n') {
        let w = s.drop_last();
        line_ends_are_dropped(w);
        let t = without_line_end(s);
        assert(w.take(t.len() as int) =~= s.take(t.len() as int));
        assert forall|i: int| t.len() <= i < s.len() implies #[trigger] s[i] == '\r' || s[i]
            == '\n' by {
            if i < w.len() {
                assert(w[i] == s[i]);
            }
        }
    } else {
        assert(s.take(s.len() as int) =~= s);
    }
}

/// Joined lines stand one after the other with a line feed between them, and
/// none in front or behind.
pub proof fn joined_lines_are_separated(a: Seq<Seq<char>>, b: Seq<Seq<char>>, one: Seq<char>)
    requires
        a.len() > 0,
        b.len() > 0,
    ensures
        joined(seq![one]) == one,
        joined(a + b) == joined(a) + seq!['\n'] + joined(b),
    decreases b.len(),
{
    let all = a + b;
    assert(all.drop_last() =~= a + b.drop_last());
    assert(all.last() == b.last());
    if b.len() == 1 {
        assert(a + b.drop_last() =~= a);
        assert(joined(all) =~= joined(a) + seq!['\n'] + joined(b));
    } else {
        joined_lines_are_separated(a, b.drop_last(), one);
        assert(joined(all) =~= joined(a) + seq!['\n'] + joined(b));
    }
}

/// A search finds the first place at which a text stands in another, and fails
/// only if there is none.
pub proof fn searches_find_the_first_place(hay: Seq<char>, needle: Seq<char>)
    ensures
        match found(hay, needle) {
            Some(i) => {
                &&& 0 <= i <= hay.len() - needle.len()
                &&& hay.subrange(i, i + needle.len()) == needle
                &&& forall|j: int|
                    0 <= j < i ==> #[trigger] hay.subrange(j, j + needle.len()) != needle
            },
            None => forall|j: int|
                0 <= j <= hay.len() - needle.len() ==> #[trigger] hay.subrange(
                    j,
                    j + needle.len(),
                ) != needle,
        },
{
    found_is_first(hay, needle, 0);
}

proof fn found_is_first(hay: Seq<char>, needle: Seq<char>, at: int)
    requires
        0 <= at,
    ensures
        match found_from(hay, needle, at) {
            Some(i) => {
                &&& at <= i <= hay.len() - needle.len()
                &&& hay.subrange(i, i + needle.len()) == needle
                &&& forall|j: int|
                    at <= j < i ==> #[trigger] hay.subrange(j, j + needle.len()) != needle
            },
            None => forall|j: int|
                at <= j <= hay.len() - needle.len() ==> #[trigger] hay.subrange(
                    j,
                    j + needle.len(),
                ) != needle,
        },
    decreases hay.len() + 1 - at,
{
    if at + needle.len() <= hay.len() && hay.subrange(at, at + needle.len()) != needle {
        found_is_first(hay, needle, at + 1);
    }
}

/// What a warning is filed under. If it names an interface, in the form of the
/// word, a colon and spaces, the name and a comma, then under that name.
pub proof fn warnings_are_filed_by_interface(front: Seq<char>, name: Seq<char>, behind: Seq<char>)
    requires
        name.len() > 0,
        !text::is_white(name[0]),
        !text::is_white(name.last()),
        !is_gap(name[0]),
        forall|i: int| 0 <= i < name.len() ==> !ends_name(#[trigger] name[i]),
        found(front + "interface"@ + seq![':', ' '] + name + seq![','] + behind, "interface"@)
            == Some(front.len() as int),
    ensures
        bucket(front + "interface"@ + seq![':', ' '] + name + seq![','] + behind) == name,
{
    let word = "interface"@;
    let m = front + word + seq![':', ' '] + name + seq![','] + behind;
    let rest = seq![':', ' '] + name + seq![','] + behind;
    assert(m.skip((front.len() + word.len()) as int) =~= rest);
    leading_grows(rest, |c: char| is_gap(c), 2);
    let value = name + seq![','] + behind;
    assert(rest.skip(2) =~= value);
    assert forall|j: int| 0 <= j < name.len() implies (|c: char| !ends_name(c))(
        #[trigger] value[j],
    ) by {
        assert(value[j] == name[j]);
    }
    leading_grows(value, |c: char| !ends_name(c), name.len() as int);
    assert(value.take(name.len() as int) =~= name);
    assert(text::trim_start(name) == name);
    assert(text::trim_end(name) == name);
}

/// Only the discovery daemon's failures to send count as repeating: anything
/// else that is logged is let through.
pub proof fn what_repeats(target: Seq<char>, front: Seq<char>, behind: Seq<char>)
    ensures
        repeats("mdns_sd"@, Some(front + "Failed to send"@ + behind)),
        target != "mdns_sd"@ ==> !repeats(target, Some(front + "Failed to send"@ + behind)),
        !repeats(target, None),
{
    let needle = "Failed to send"@;
    let hay = front + needle + behind;
    searches_find_the_first_place(hay, needle);
    assert(hay.subrange(front.len() as int, front.len() as int + needle.len()) =~= needle);
}

} // verus!
