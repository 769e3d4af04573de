//! Process settings: what the values of the environment variables become,
//! and the assignments of a `.env` file.

use vstd::prelude::*;

use crate::markup::space_char;
use crate::text::{chars_of, string_of};

verus! {

/// The settings the reminder runs with.
#[derive(Debug)]
pub struct Settings {
    pub db_uri: String,
    /// The database timeout, in seconds.
    pub db_timeout: u64,
    pub chat_id: i64,
    pub bot_token: String,
    /// The tracker's API address, without a trailing `/`.
    pub tracker_url: String,
    /// The tracker's web address, without a trailing `/`.
    pub tracker_web_url: String,
}

/// Why the settings could not be made.
#[derive(Clone, Copy, Debug, PartialEq, Eq, Structural)]
pub enum SettingsError {
    DatabaseUrlMissing,
    TimeoutNotInteger,
    BotTokenMissing,
    TrackerUrlMissing,
    UserIdMissing,
    UserIdNotInteger,
}

impl SettingsError {
    /// The message that reports the error.
    pub fn message(&self) -> &'static str {
        match self {
            SettingsError::DatabaseUrlMissing => "DATABASE_URL not found",
            SettingsError::TimeoutNotInteger => "DATABASE_TIMEOUT should be int",
            SettingsError::BotTokenMissing => "TG_BOT_TOKEN not found",
            SettingsError::TrackerUrlMissing => "TRACKER_URL not found",
            SettingsError::UserIdMissing => "TG_BOT_USER_ID not found",
            SettingsError::UserIdNotInteger => "User id should be int",
        }
    }
}

pub open spec fn is_digit(c: char) -> bool {
    '0' <= c <= '9'
}

/// The value of a string of decimal digits.
pub open spec fn digits_value(s: Seq<char>) -> nat
    decreases s.len(),
{
    if s.len() == 0 {
        0
    } else {
        digits_value(s.drop_last()) * 10 + (s.last() as nat - '0' as nat) as nat
    }
}

/// At least one character, all of them decimal digits.
pub open spec fn is_number(s: Seq<char>) -> bool {
    s.len() > 0 && forall|i: int| 0 <= i < s.len() ==> is_digit(#[trigger] s[i])
}

/// What `str::parse::<u64>` gives: an optional `+`, then digits whose value
/// fits in 64 bits.
pub open spec fn parse_u64(s: Seq<char>) -> Option<u64> {
    let d = if s.len() > 0 && s[0] == '+' {
        s.drop_first()
    } else {
        s
    };
    if is_number(d) && digits_value(d) <= u64::MAX {
        Some(digits_value(d) as u64)
    } else {
        None
    }
}

/// What `str::parse::<i64>` gives: an optional sign, then digits whose
/// signed value fits in 64 bits.
pub open spec fn parse_i64(s: Seq<char>) -> Option<i64> {
    if s.len() > 0 && s[0] == '-' {
        let d = s.drop_first();
        if is_number(d) && digits_value(d) <= 0x8000_0000_0000_0000 {
            Some((-(digits_value(d) as int)) as i64)
        } else {
            None
        }
    } else {
        let d = if s.len() > 0 && s[0] == '+' {
            s.drop_first()
        } else {
            s
        };
        if is_number(d) && digits_value(d) <= i64::MAX {
            Some(digits_value(d) as i64)
        } else {
            None
        }
    }
}

proof fn lemma_digits_value_grows(s: Seq<char>, c: char)
    requires
        is_digit(c),
    ensures
        digits_value(s.push(c)) >= digits_value(s),
        digits_value(s.push(c)) == digits_value(s) * 10 + (c as nat - '0' as nat),
{
    assert(s.push(c).drop_last() =~= s);
}

/// The value of the digits `s[from..]`, or `None` where one is not a digit,
/// there are none, or the value passes `limit`.
fn number_value(s: &Vec<char>, from: usize, limit: u64) -> (r: Option<u64>)
    requires
        from <= s.len(),
    ensures
        ({
            let d = s@.subrange(from as int, s@.len() as int);
            match r {
                Some(v) => is_number(d) && digits_value(d) <= limit && v == digits_value(d),
                None => !(is_number(d) && digits_value(d) <= limit),
            }
        }),
{
    if from == s.len() {
        return None;
    }
    let mut acc: u64 = 0;
    let mut i = from;
    while i < s.len()
        invariant
            from <= i <= s.len(),
            is_number(s@.subrange(from as int, i as int)) || i == from,
            acc == digits_value(s@.subrange(from as int, i as int)),
            acc <= limit,
        decreases s.len() - i,
    {
        let c = s[i];
        let ghost prev = s@.subrange(from as int, i as int);
        assert(s@.subrange(from as int, i + 1) =~= prev.push(c));
        if c < '0' || c > '9' {
            assert(!is_digit(s@.subrange(from as int, s@.len() as int)[i - from]));
            return None;
        }
        let d = (c as u32 - '0' as u32) as u64;
        proof {
            lemma_digits_value_grows(prev, c);
        }
        let next: u128 = acc as u128 * 10 + d as u128;
        if next > limit as u128 {
            proof {
                let whole = s@.subrange(from as int, s@.len() as int);
                if is_number(whole) {
                    lemma_digits_value_prefix(whole, i + 1 - from);
                    assert(whole.subrange(0, i + 1 - from) =~= prev.push(c));
                }
            }
            return None;
        }
        acc = next as u64;
        i += 1;
    }
    Some(acc)
}

/// A number's value is at least that of any of its non-empty prefixes.
proof fn lemma_digits_value_prefix(s: Seq<char>, k: int)
    requires
        0 <= k <= s.len(),
        forall|i: int| 0 <= i < s.len() ==> is_digit(#[trigger] s[i]),
    ensures
        digits_value(s) >= digits_value(s.subrange(0, k)),
    decreases s.len() - k,
{
    if k < s.len() {
        lemma_digits_value_prefix(s, k + 1);
        lemma_digits_value_grows(s.subrange(0, k), s[k]);
        assert(s.subrange(0, k + 1) =~= s.subrange(0, k).push(s[k]));
    } else {
        assert(s.subrange(0, k) =~= s);
    }
}

/// Parses a string as `str::parse::<u64>` does.
pub fn parse_unsigned(s: &str) -> (r: Option<u64>)
    ensures
        r == parse_u64(s@),
{
    let v = chars_of(s);
    let from: usize = if v.len() > 0 && v[0] == '+' {
        1
    } else {
        0
    };
    assert(v@.subrange(from as int, v@.len() as int) =~= if s@.len() > 0 && s@[0] == '+' {
        s@.drop_first()
    } else {
        s@
    });
    number_value(&v, from, u64::MAX)
}

/// Parses a string as `str::parse::<i64>` does.
pub fn parse_signed(s: &str) -> (r: Option<i64>)
    ensures
        r == parse_i64(s@),
{
    let v = chars_of(s);
    if v.len() > 0 && v[0] == '-' {
        assert(v@.subrange(1, v@.len() as int) =~= s@.drop_first());
        match number_value(&v, 1, 0x8000_0000_0000_0000) {
            Some(m) => {
                if m == 0x8000_0000_0000_0000 {
                    Some(i64::MIN)
                } else {
                    Some(-(m as i64))
                }
            },
            None => None,
        }
    } else {
        let from: usize = if v.len() > 0 && v[0] == '+' {
            1
        } else {
            0
        };
        assert(v@.subrange(from as int, v@.len() as int) =~= if s@.len() > 0 && s@[0] == '+' {
            s@.drop_first()
        } else {
            s@
        });
        match number_value(&v, from, i64::MAX as u64) {
            Some(m) => Some(m as i64),
            None => None,
        }
    }
}

/// The text without one trailing `/`, if it has one.
pub open spec fn without_trailing_slash(s: Seq<char>) -> Seq<char> {
    if s.len() > 0 && s.last() == '/' {
        s.drop_last()
    } else {
        s
    }
}

fn strip_trailing_slash(s: &String) -> (r: String)
    ensures
        r@ == without_trailing_slash(s@),
{
    let v = chars_of(s.as_str());
    if v.len() > 0 && v[v.len() - 1] == '/' {
        let mut w = v;
        w.pop();
        assert(w@ =~= s@.drop_last());
        string_of(&w)
    } else {
        string_of(&v)
    }
}

/// The database timeout: ten seconds where none is given.
pub open spec fn timeout_value(t: Option<String>) -> Option<u64> {
    match t {
        Some(v) => parse_u64(v@),
        None => Some(10),
    }
}

/// The first thing wrong with the variables, in the order they are read.
pub open spec fn settings_error(
    db_uri: Option<String>,
    db_timeout: Option<String>,
    bot_token: Option<String>,
    tracker_url: Option<String>,
    user_id: Option<String>,
) -> Option<SettingsError> {
    if db_uri is None {
        Some(SettingsError::DatabaseUrlMissing)
    } else if timeout_value(db_timeout) is None {
        Some(SettingsError::TimeoutNotInteger)
    } else if bot_token is None {
        Some(SettingsError::BotTokenMissing)
    } else if tracker_url is None {
        Some(SettingsError::TrackerUrlMissing)
    } else if user_id is None {
        Some(SettingsError::UserIdMissing)
    } else if parse_i64(user_id->Some_0@) is None {
        Some(SettingsError::UserIdNotInteger)
    } else {
        None
    }
}

impl Settings {
    /// The settings from the values of `DATABASE_URL`, `DATABASE_TIMEOUT`,
    /// `TG_BOT_TOKEN`, `TRACKER_URL`, `TRACKER_WEB_URL` and `TG_BOT_USER_ID`
    /// (`None` for a variable that is not set). The web address defaults to
    /// the API address.
    pub fn from_vars(
        db_uri: Option<String>,
        db_timeout: Option<String>,
        bot_token: Option<String>,
        tracker_url: Option<String>,
        tracker_web_url: Option<String>,
        user_id: Option<String>,
    ) -> (r: Result<Settings, SettingsError>)
        ensures
            match r {
                Err(e) => settings_error(db_uri, db_timeout, bot_token, tracker_url, user_id) == Some(
                    e,
                ),
                Ok(st) => {
                    &&& settings_error(db_uri, db_timeout, bot_token, tracker_url, user_id) is None
                    &&& st.db_uri@ == db_uri->Some_0@
                    &&& st.db_timeout == timeout_value(db_timeout)->Some_0
                    &&& st.bot_token@ == bot_token->Some_0@
                    &&& st.tracker_url@ == without_trailing_slash(tracker_url->Some_0@)
                    &&& st.tracker_web_url@ == without_trailing_slash(
                        match tracker_web_url {
                            Some(w) => w@,
                            None => tracker_url->Some_0@,
                        },
                    )
                    &&& st.chat_id == parse_i64(user_id->Some_0@)->Some_0
                },
            },
    {
        let db_uri = match db_uri {
            Some(v) => v,
            None => return Err(SettingsError::DatabaseUrlMissing),
        };
        let db_timeout = match &db_timeout {
            Some(v) => match parse_unsigned(v.as_str()) {
                Some(t) => t,
                None => return Err(SettingsError::TimeoutNotInteger),
            },
            None => 10,
        };
        let bot_token = match bot_token {
            Some(v) => v,
            None => return Err(SettingsError::BotTokenMissing),
        };
        let tracker_url = match &tracker_url {
            Some(v) => strip_trailing_slash(v),
            None => return Err(SettingsError::TrackerUrlMissing),
        };
        let chat_id = match &user_id {
            Some(v) => match parse_signed(v.as_str()) {
                Some(id) => id,
                None => return Err(SettingsError::UserIdNotInteger),
            },
            None => return Err(SettingsError::UserIdMissing),
        };
        let tracker_web_url = match &tracker_web_url {
            Some(v) => strip_trailing_slash(v),
            None => tracker_url.clone(),
        };
        Ok(Settings { db_uri, db_timeout, chat_id, bot_token, tracker_url, tracker_web_url })
    }
}

/// The first line break at or after `from`, or the end of `s`.
pub open spec fn line_end(s: Seq<char>, from: int) -> int
    decreases s.len() - from,
{
    if from < 0 || from >= s.len() || s[from] == '\n' {
        from
    } else {
        line_end(s, from + 1)
    }
}

/// The line that starts at `from`: up to the next line break, without the
/// carriage return that stands right before that break.
pub open spec fn line_at(s: Seq<char>, from: int) -> Seq<char> {
    let e = line_end(s, from);
    let raw = s.subrange(from, e);
    if e < s.len() && raw.len() > 0 && raw.last() == '\r' {
        raw.drop_last()
    } else {
        raw
    }
}

/// The lines of `s[from..]`, as `str::lines` gives them.
pub open spec fn lines_from(s: Seq<char>, from: int) -> Seq<Seq<char>>
    decreases s.len() + 1 - from,
{
    if from < 0 || from >= s.len() || line_end(s, from) < from || line_end(s, from) > s.len() {
        seq![]
    } else {
        seq![line_at(s, from)] + lines_from(s, line_end(s, from) + 1)
    }
}

/// `s` without its leading white space.
pub open spec fn trim_start(s: Seq<char>) -> Seq<char>
    decreases s.len(),
{
    if s.len() > 0 && space_char(s[0]) {
        trim_start(s.drop_first())
    } else {
        s
    }
}

/// `s` without its trailing white space.
pub open spec fn trim_end(s: Seq<char>) -> Seq<char>
    decreases s.len(),
{
    if s.len() > 0 && space_char(s.last()) {
        trim_end(s.drop_last())
    } else {
        s
    }
}

pub open spec fn trim(s: Seq<char>) -> Seq<char> {
    trim_end(trim_start(s))
}

/// The position of the first `=` in a line, if there is one.
pub open spec fn equals_at(line: Seq<char>, from: int) -> Option<int>
    decreases line.len() - from,
{
    if from < 0 || from >= line.len() {
        None
    } else if line[from] == '=' {
        Some(from)
    } else {
        equals_at(line, from + 1)
    }
}

/// The assignments of the lines: each non-empty line is a name, `=` and a
/// value, both trimmed; `None` where a non-empty line has no `=`.
pub open spec fn assignments(lines: Seq<Seq<char>>) -> Option<Seq<(Seq<char>, Seq<char>)>>
    decreases lines.len(),
{
    if lines.len() == 0 {
        Some(seq![])
    } else {
        match assignments(lines.drop_last()) {
            None => None,
            Some(done) => {
                let line = lines.last();
                if line.len() == 0 {
                    Some(done)
                } else {
                    match equals_at(line, 0) {
                        Some(k) => Some(
                            done.push(
                                (trim(line.subrange(0, k)), trim(line.subrange(k + 1, line.len() as int))),
                            ),
                        ),
                        None => None,
                    }
                }
            },
        }
    }
}

proof fn lemma_assignments_fail_on(a: Seq<Seq<char>>, b: Seq<Seq<char>>)
    requires
        assignments(a) is None,
    ensures
        assignments(a + b) is None,
    decreases b.len(),
{
    if b.len() == 0 {
        assert(a + b =~= a);
    } else {
        lemma_assignments_fail_on(a, b.drop_last());
        assert((a + b).drop_last() =~= a + b.drop_last());
    }
}

fn trimmed(v: &Vec<char>, from: usize, to: usize) -> (r: Vec<char>)
    requires
        from <= to <= v.len(),
    ensures
        r@ == trim(v@.subrange(from as int, to as int)),
{
    let mut a = from;
    while a < to && crate::markup::is_space(v[a])
        invariant
            from <= a <= to <= v.len(),
            trim_start(v@.subrange(from as int, to as int)) == trim_start(v@.subrange(a as int, to as int)),
        decreases to - a,
    {
        assert(v@.subrange(a as int, to as int).drop_first() =~= v@.subrange(a + 1, to as int));
        a += 1;
    }
    let mut b = to;
    while b > a && crate::markup::is_space(v[b - 1])
        invariant
            from <= a <= b <= to <= v.len(),
            trim_start(v@.subrange(from as int, to as int)) == v@.subrange(a as int, to as int),
            trim(v@.subrange(from as int, to as int)) == trim_end(v@.subrange(a as int, b as int)),
        decreases b - a,
    {
        assert(v@.subrange(a as int, b as int).drop_last() =~= v@.subrange(a as int, b - 1));
        b -= 1;
    }
    let mut r: Vec<char> = Vec::new();
    let mut k = a;
    while k < b
        invariant
            a <= k <= b <= v.len(),
            r@ == v@.subrange(a as int, k as int),
        decreases b - k,
    {
        r.push(v[k]);
        k += 1;
        assert(r@ =~= v@.subrange(a as int, k as int));
    }
    r
}

/// The assignments of a `.env` file, in order; `None` where a non-empty line
/// has no `=`.
pub fn env_assignments(content: &str) -> (r: Option<Vec<(String, String)>>)
    ensures
        match r {
            Some(v) => assignments(lines_from(content@, 0)) matches Some(a) && v@.len() == a.len()
                && forall|i: int|
                0 <= i < a.len() ==> (#[trigger] v@[i]).0@ == a[i].0 && v@[i].1@ == a[i].1,
            None => assignments(lines_from(content@, 0)) is None,
        },
{
    let s = chars_of(content);
    let mut out: Vec<(String, String)> = Vec::new();
    let ghost mut done: Seq<Seq<char>> = seq![];
    let mut from: usize = 0;
    while from < s.len()
        invariant
            from <= s.len(),
            s@ == content@,
            lines_from(s@, 0) == done + lines_from(s@, from as int),
            assignments(done) matches Some(a) && out@.len() == a.len() && forall|i: int|
                0 <= i < a.len() ==> (#[trigger] out@[i]).0@ == a[i].0 && out@[i].1@ == a[i].1,
        decreases s.len() - from,
    {
        let mut e = from;
        while e < s.len() && s[e] != '\n'
            invariant
                from <= e <= s.len(),
                line_end(s@, from as int) == line_end(s@, e as int),
            decreases s.len() - e,
        {
            e += 1;
        }
        let mut end = e;
        if e < s.len() && e > from && s[e - 1] == '\r' {
            end = e - 1;
        }
        let ghost line = s@.subrange(from as int, end as int);
        assert(line =~= line_at(s@, from as int));
        assert(lines_from(s@, from as int) == seq![line] + lines_from(s@, e + 1));
        proof {
            assert(done.push(line).drop_last() =~= done);
            assert(done + lines_from(s@, from as int) =~= done.push(line) + lines_from(s@, e + 1));
            done = done.push(line);
        }
        if end > from {
            let mut k = from;
            while k < end && s[k] != '='
                invariant
                    from <= k <= end <= s.len(),
                    line == s@.subrange(from as int, end as int),
                    equals_at(line, 0) == equals_at(line, k - from),
                decreases end - k,
            {
                k += 1;
            }
            if k == end {
                proof {
                    lemma_assignments_fail_on(done, lines_from(s@, e + 1));
                }
                return None;
            }
            assert(line.subrange(0, k - from) =~= s@.subrange(from as int, k as int));
            assert(line.subrange(k - from + 1, line.len() as int) =~= s@.subrange(k + 1, end as int));
            let name = trimmed(&s, from, k);
            let value = trimmed(&s, k + 1, end);
            out.push((string_of(&name), string_of(&value)));
        }
        from = if e < s.len() {
            e + 1
        } else {
            e
        };
        assert(lines_from(s@, e + 1) == lines_from(s@, from as int));
    }
    assert(lines_from(s@, from as int) == Seq::<Seq<char>>::empty());
    assert(done + lines_from(s@, from as int) =~= done);
    Some(out)
}

} // verus!
