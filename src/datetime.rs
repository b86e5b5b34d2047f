use vstd::prelude::*;

verus! {

/// A wall-clock moment in UTC, broken into calendar fields, with the same
/// moment as whole seconds since the Unix epoch.
#[derive(Clone, Copy, Debug, PartialEq, Eq)]
pub struct Timestamp {
    pub year: i32,
    pub month: u8,
    pub day: u8,
    pub hour: u8,
    pub minute: u8,
    pub second: u8,
    pub nanosecond: u32,
    pub unix: i64,
}

impl Timestamp {
    pub open spec fn wf(&self) -> bool {
        &&& -9999 <= self.year <= 9999
        &&& 1 <= self.month <= 12
        &&& 1 <= self.day <= 31
        &&& self.hour < 24
        &&& self.minute < 60
        &&& self.second < 60
        &&& self.nanosecond < 1_000_000_000
    }
}

/// Relies on time::OffsetDateTime::now_utc and its field getters: the year
/// lies in -9999..=9999 (no large-dates feature), the month converts to
/// 1..=12, the day lies in 1..=31, hour, minute and second in their ranges,
/// the nanosecond below one billion.
#[verifier::external_body]
fn get_now() -> (r: Timestamp)
    ensures
        r.wf(),
{
    let now = time::OffsetDateTime::now_utc();
    Timestamp {
        year: now.year(),
        month: u8::from(now.month()),
        day: now.day(),
        hour: now.hour(),
        minute: now.minute(),
        second: now.second(),
        nanosecond: now.nanosecond(),
        unix: now.unix_timestamp(),
    }
}

pub open spec fn digit_char(d: nat) -> char {
    if d == 0 {
        '0'
    } else if d == 1 {
        '1'
    } else if d == 2 {
        '2'
    } else if d == 3 {
        '3'
    } else if d == 4 {
        '4'
    } else if d == 5 {
        '5'
    } else if d == 6 {
        '6'
    } else if d == 7 {
        '7'
    } else if d == 8 {
        '8'
    } else {
        '9'
    }
}

pub open spec fn is_digit(c: char) -> bool {
    '0' <= c && c <= '9'
}

/// The last `width` decimal digits of `n`, most significant first.
pub open spec fn digits(n: nat, width: nat) -> Seq<char>
    decreases width,
{
    if width == 0 {
        Seq::empty()
    } else {
        digits(n / 10, (width - 1) as nat).push(digit_char(n % 10))
    }
}

pub proof fn lemma_digits_are_digits(n: nat, width: nat)
    ensures
        digits(n, width).len() == width,
        forall|i: int| 0 <= i < width ==> is_digit(#[trigger] digits(n, width)[i]),
    decreases width,
{
    if width > 0 {
        lemma_digits_are_digits(n / 10, (width - 1) as nat);
    }
}

/// `YYYY-MM-DD HH:MM:SS.NNNNNNNNN`, the year preceded by `-` before year zero.
pub open spec fn timestamp_text(t: Timestamp) -> Seq<char> {
    let sign = if t.year < 0 {
        seq!['-']
    } else {
        Seq::<char>::empty()
    };
    let year = if t.year < 0 {
        -t.year
    } else {
        t.year as int
    };
    sign + digits(year as nat, 4) + seq!['-'] + digits(t.month as nat, 2) + seq!['-'] + digits(
        t.day as nat,
        2,
    ) + seq![' '] + digits(t.hour as nat, 2) + seq![':'] + digits(t.minute as nat, 2) + seq![':']
        + digits(t.second as nat, 2) + seq!['.'] + digits(t.nanosecond as nat, 9)
}

/// A line of a task's output as it is stored: `[<timestamp>] <line>`.
pub open spec fn log_line_text(t: Timestamp, line: Seq<char>) -> Seq<char> {
    seq!['['] + timestamp_text(t) + seq![']', ' '] + line
}

fn digit_str(d: u32) -> (r: &'static str)
    requires
        d < 10,
    ensures
        r@ == seq![digit_char(d as nat)],
{
    proof {
        reveal_strlit("0");
        reveal_strlit("1");
        reveal_strlit("2");
        reveal_strlit("3");
        reveal_strlit("4");
        reveal_strlit("5");
        reveal_strlit("6");
        reveal_strlit("7");
        reveal_strlit("8");
        reveal_strlit("9");
    }
    if d == 0 {
        "0"
    } else if d == 1 {
        "1"
    } else if d == 2 {
        "2"
    } else if d == 3 {
        "3"
    } else if d == 4 {
        "4"
    } else if d == 5 {
        "5"
    } else if d == 6 {
        "6"
    } else if d == 7 {
        "7"
    } else if d == 8 {
        "8"
    } else {
        "9"
    }
}

/// Appends the last `width` decimal digits of `n`.
fn push_digits(s: &mut String, n: u32, width: u32)
    requires
        width <= 10,
    ensures
        final(s)@ == old(s)@ + digits(n as nat, width as nat),
    decreases width,
{
    if width > 0 {
        push_digits(s, n / 10, width - 1);
        let d = digit_str(n % 10);
        s.append(d);
    }
}

fn push_char(s: &mut String, c: char)
    requires
        c == '-' || c == ' ' || c == ':' || c == '.' || c == '[' || c == ']',
    ensures
        final(s)@ == old(s)@.push(c),
{
    proof {
        reveal_strlit("-");
        reveal_strlit(" ");
        reveal_strlit(":");
        reveal_strlit(".");
        reveal_strlit("[");
        reveal_strlit("]");
    }
    let text = if c == '-' {
        "-"
    } else if c == ' ' {
        " "
    } else if c == ':' {
        ":"
    } else if c == '.' {
        "."
    } else if c == '[' {
        "["
    } else {
        "]"
    };
    s.append(text);
    proof {
        assert(seq![c] =~= text@);
        assert(old(s)@ + seq![c] =~= old(s)@.push(c));
    }
}

impl Timestamp {
    pub fn to_text(&self) -> (r: String)
        requires
            self.wf(),
        ensures
            r@ == timestamp_text(*self),
    {
        let mut s = String::new();
        let year: u32 = if self.year < 0 {
            push_char(&mut s, '-');
            (-self.year) as u32
        } else {
            self.year as u32
        };
        push_digits(&mut s, year, 4);
        push_char(&mut s, '-');
        push_digits(&mut s, self.month as u32, 2);
        push_char(&mut s, '-');
        push_digits(&mut s, self.day as u32, 2);
        push_char(&mut s, ' ');
        push_digits(&mut s, self.hour as u32, 2);
        push_char(&mut s, ':');
        push_digits(&mut s, self.minute as u32, 2);
        push_char(&mut s, ':');
        push_digits(&mut s, self.second as u32, 2);
        push_char(&mut s, '.');
        push_digits(&mut s, self.nanosecond, 9);
        proof {
            let t = *self;
            let sign = if t.year < 0 {
                seq!['-']
            } else {
                Seq::<char>::empty()
            };
            assert(s@ =~= timestamp_text(t));
        }
        s
    }
}

/// Prefixes one line of a task's output with the moment it was read.
pub fn log_line(now: &Timestamp, line: &str) -> (r: String)
    requires
        now.wf(),
    ensures
        r@ == log_line_text(*now, line@),
{
    let mut s = String::new();
    push_char(&mut s, '[');
    let text = now.to_text();
    s.append(text.as_str());
    push_char(&mut s, ']');
    push_char(&mut s, ' ');
    s.append(line);
    proof {
        assert(s@ =~= log_line_text(*now, line@));
    }
    s
}

/// Prefixes one line of a task's output with the current moment.
pub fn stamp_line(line: &str) -> (r: String)
    ensures
        exists|t: Timestamp| t.wf() && r@ == log_line_text(t, line@),
{
    let now = get_now();
    let r = log_line(&now, line);
    assert(now.wf() && r@ == log_line_text(now, line@));
    r
}

/// `s` opens with `[`, a four-digit year, `-`, two digits, `-`, two digits,
/// and holds `] ` somewhere after that.
pub open spec fn has_dated_prefix(s: Seq<char>) -> bool {
    &&& s.len() >= 11
    &&& s[0] == '['
    &&& is_digit(s[1]) && is_digit(s[2]) && is_digit(s[3]) && is_digit(s[4])
    &&& s[5] == '-'
    &&& is_digit(s[6]) && is_digit(s[7])
    &&& s[8] == '-'
    &&& is_digit(s[9]) && is_digit(s[10])
    &&& exists|k: int| 11 <= k && k + 1 < s.len() && #[trigger] s[k] == ']' && s[k + 1] == ' '
}

/// Every stored output line of a moment from year zero on opens with a dated
/// prefix of the form `[YYYY-MM-DD...] `.
pub proof fn lemma_log_line_prefix(t: Timestamp, line: Seq<char>)
    requires
        t.wf(),
        t.year >= 0,
    ensures
        has_dated_prefix(log_line_text(t, line)),
{
    let s = log_line_text(t, line);
    lemma_digits_are_digits(t.year as nat, 4);
    lemma_digits_are_digits(t.month as nat, 2);
    lemma_digits_are_digits(t.day as nat, 2);
    let y = digits(t.year as nat, 4);
    let m = digits(t.month as nat, 2);
    let d = digits(t.day as nat, 2);
    let text = timestamp_text(t);
    assert(text =~= y + seq!['-'] + m + seq!['-'] + d + seq![' '] + digits(t.hour as nat, 2)
        + seq![':'] + digits(t.minute as nat, 2) + seq![':'] + digits(t.second as nat, 2) + seq![
        '.',
    ] + digits(t.nanosecond as nat, 9));
    assert(s[1] == y[0] && s[2] == y[1] && s[3] == y[2] && s[4] == y[3]);
    assert(s[5] == '-');
    assert(s[6] == m[0] && s[7] == m[1]);
    assert(s[8] == '-');
    assert(s[9] == d[0] && s[10] == d[1]);
    let k: int = 1 + text.len() as int;
    assert(s[k] == ']' && s[k + 1] == ' ');
}

} // verus!
