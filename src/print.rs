//! Match records handed to the report renderer, and the age column's text.
use vstd::prelude::*;

verus! {

/// The kind of identity a binding's subject names.
#[derive(Debug, Clone, Copy, PartialEq, Eq, Structural)]
pub enum SubKind {
    User,
    Group,
    ServiceAccount,
}

/// The recognised subject kinds by their literal names.
pub open spec fn subkind_of(s: Seq<char>) -> Option<SubKind> {
    if s == "User"@ {
        Some(SubKind::User)
    } else if s == "Group"@ {
        Some(SubKind::Group)
    } else if s == "ServiceAccount"@ {
        Some(SubKind::ServiceAccount)
    } else {
        None
    }
}

impl SubKind {
    /// Reads a subject kind literal; `None` for an unrecognised one.
    pub fn from_kind(s: &String) -> (r: Option<SubKind>)
        ensures
            r == subkind_of(s@),
    {
        if *s == String::from_str("User") {
            Some(SubKind::User)
        } else if *s == String::from_str("Group") {
            Some(SubKind::Group)
        } else if *s == String::from_str("ServiceAccount") {
            Some(SubKind::ServiceAccount)
        } else {
            None
        }
    }
}

/// A namespaced match: role binding, its namespace, the role, the binding's
/// creation time (seconds since the Unix epoch) and its first subject.
#[derive(Debug)]
pub struct OutR {
    pub rb: String,
    pub ns: String,
    pub r: String,
    pub age: Option<i64>,
    pub subject: String,
    pub sub_kind: SubKind,
}

/// A cluster-scoped match: cluster role binding, the cluster role, the
/// binding's creation time (seconds since the Unix epoch) and its first subject.
#[derive(Debug)]
pub struct OutCR {
    pub crb: String,
    pub r: String,
    pub age: Option<i64>,
    pub subject: String,
    pub sub_kind: SubKind,
}

impl OutR {
    pub fn new(
        rb: String,
        ns: String,
        r: String,
        age: Option<i64>,
        subject: String,
        sub_kind: SubKind,
    ) -> (out: Self)
        ensures
            out == (OutR { rb, ns, r, age, subject, sub_kind }),
    {
        OutR { rb, ns, r, age, subject, sub_kind }
    }
}

impl OutCR {
    pub fn new(crb: String, r: String, age: Option<i64>, subject: String, sub_kind: SubKind) -> (out:
        Self)
        ensures
            out == (OutCR { crb, r, age, subject, sub_kind }),
    {
        OutCR { crb, r, age, subject, sub_kind }
    }
}

pub const SECS_PER_MINUTE: i64 = 60;
pub const SECS_PER_HOUR: i64 = 3600;
pub const SECS_PER_DAY: i64 = 86400;

/// Division truncating toward zero, as Rust's integer `/` does.
pub open spec fn trunc_div(a: int, b: int) -> int {
    if a >= 0 {
        a / b
    } else {
        -((-a) / b)
    }
}

/// The character of a decimal digit.
pub open spec fn digit_char(d: nat) -> char {
    seq!['0', '1', '2', '3', '4', '5', '6', '7', '8', '9'][d as int]
}

/// Decimal digits of `n`, most significant first, without leading zeros.
pub open spec fn decimal(n: nat) -> Seq<char>
    decreases n,
{
    if n < 10 {
        seq![digit_char(n)]
    } else {
        decimal(n / 10).push(digit_char(n % 10))
    }
}

/// Decimal text of an integer, with a leading '-' when negative.
pub open spec fn signed_decimal(n: int) -> Seq<char> {
    if n < 0 {
        seq!['-'] + decimal((-n) as nat)
    } else {
        decimal(n as nat)
    }
}

/// The age column: whole days if any, else whole hours if any, else whole
/// minutes, each followed by its unit letter.
pub open spec fn age_text(secs: int) -> Seq<char> {
    if trunc_div(secs, 86400) > 0 {
        decimal(trunc_div(secs, 86400) as nat).push('d')
    } else if trunc_div(secs, 3600) > 0 {
        decimal(trunc_div(secs, 3600) as nat).push('h')
    } else {
        signed_decimal(trunc_div(secs, 60)).push('m')
    }
}

/// The age of an object created at `created`, seen at `now`.
pub open spec fn age_at(created: int, now: int) -> Seq<char> {
    age_text(now - created)
}

fn digit_str(d: u64) -> (r: &'static str)
    requires
        d < 10,
    ensures
        r@ == seq![digit_char(d as nat)],
{
    proof {
        reveal_strlit("0");
        reveal_strlit("1");
        reveal_strlit("2");
        reveal_strlit("3");
        reveal_strlit("4");
        reveal_strlit("5");
        reveal_strlit("6");
        reveal_strlit("7");
        reveal_strlit("8");
        reveal_strlit("9");
    }
    match d {
        0 => "0",
        1 => "1",
        2 => "2",
        3 => "3",
        4 => "4",
        5 => "5",
        6 => "6",
        7 => "7",
        8 => "8",
        _ => "9",
    }
}

fn push_decimal(s: &mut String, n: u64)
    ensures
        final(s)@ == old(s)@ + decimal(n as nat),
    decreases n,
{
    if n >= 10 {
        push_decimal(s, n / 10);
    }
    s.append(digit_str(n % 10));
    proof {
        if n < 10 {
            assert(decimal(n as nat) == seq![digit_char(n as nat)]);
        }
    }
    assert(s@ =~= old(s)@ + decimal(n as nat));
}

/// Renders an elapsed time in seconds as the largest whole unit among days,
/// hours and minutes ("3d", "5h", "12m"); a zero count of a larger unit
/// falls through to the next smaller one.
pub fn format_duration(secs: i64) -> (r: String)
    ensures
        r@ == age_text(secs as int),
{
    let mut out = String::new();
    if secs >= SECS_PER_DAY {
        push_decimal(&mut out, (secs / SECS_PER_DAY) as u64);
        out.append("d");
    } else if secs >= SECS_PER_HOUR {
        push_decimal(&mut out, (secs / SECS_PER_HOUR) as u64);
        out.append("h");
    } else {
        if secs <= -SECS_PER_MINUTE {
            let mins: i64 = secs / SECS_PER_MINUTE;
            out.append("-");
            push_decimal(&mut out, (-mins) as u64);
        } else if secs >= 0 {
            push_decimal(&mut out, (secs / SECS_PER_MINUTE) as u64);
        } else {
            push_decimal(&mut out, 0);
        }
        out.append("m");
    }
    proof {
        reveal_strlit("d");
        reveal_strlit("h");
        reveal_strlit("m");
        reveal_strlit("-");
    }
    assert(out@ =~= age_text(secs as int));
    out
}

/// Renders the age of an object created at `created` as seen at `now`, both
/// in seconds since the Unix epoch; `None` when the elapsed time does not fit
/// in an `i64`.
pub fn format_age(created: i64, now: i64) -> (r: Option<String>)
    ensures
        i64::MIN <= now - created <= i64::MAX ==> (r matches Some(s) && s@ == age_text(now - created)),
        !(i64::MIN <= now - created <= i64::MAX) ==> r is None,
{
    match now.checked_sub(created) {
        Some(elapsed) => Some(format_duration(elapsed)),
        None => None,
    }
}

/// Earliest and latest whole second that jiff's `Timestamp` can hold
/// (the years -9999 and 9999).
pub const CLOCK_MIN_SECOND: i64 = -377_705_116_800;
pub const CLOCK_MAX_SECOND: i64 = 253_402_300_799;

/// Relies on jiff's `Timestamp::now` and `Timestamp::as_second` (jiff as
/// re-exported by k8s_openapi): the system clock in whole seconds since the
/// Unix epoch, within the range a jiff `Timestamp` can hold. jiff panics only
/// on a system clock outside the years -9999 to 9999.
#[verifier::external_body]
fn now_seconds() -> (r: i64)
    ensures
        CLOCK_MIN_SECOND <= r <= CLOCK_MAX_SECOND,
{
    k8s_openapi::jiff::Timestamp::now().as_second()
}

/// Renders the age, as of now, of an object created at `created` (seconds
/// since the Unix epoch). The age is rendered whenever the elapsed time fits
/// in an `i64` for every clock value jiff can report; otherwise `None` is
/// returned when it does not fit for the clock value read.
pub fn format_creation_since(created: i64) -> (r: Option<String>)
    ensures
        i64::MIN + CLOCK_MAX_SECOND + 1 <= created <= i64::MAX + CLOCK_MIN_SECOND ==> r is Some,
        r matches Some(s) ==> exists|now: i64|
            CLOCK_MIN_SECOND <= now <= CLOCK_MAX_SECOND && s@ == #[trigger] age_at(
                created as int,
                now as int,
            ),
        r is None ==> exists|now: i64|
            CLOCK_MIN_SECOND <= now <= CLOCK_MAX_SECOND && !(i64::MIN <= #[trigger] (now - created)
                <= i64::MAX),
{
    let now = now_seconds();
    let r = format_age(created, now);
    assert(r matches Some(s) ==> s@ == age_at(created as int, now as int));
    r
}

} // verus!
