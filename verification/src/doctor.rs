//! Diagnosing a host: what checks say, how they are summed up and shown, and
//! the rules by which their raw observations are judged.
//!
//! A warning is not fatal; a failure makes the exit code nonzero. Checks keep
//! the order in which they were made.

use crate::ip::{ip_view, CidrSet, IpAddr};
use crate::json::{json_of, json_unsigned, models, Json, JsonView};
use crate::text::{
    all_digits, at, decimal, decimal_text, digits_value, find, from_chars, has_text, holds, is_digit, is_white, lines,
    lower, lowered, occurs_at, parse_unsigned, same, split_lines, stands_in, texts, to_chars, trim,
    trimmed, white,
};
use crate::time::{rfc3339, time_text, utc_now, Timestamp};
use vstd::prelude::*;
use vstd::string::*;

verus! {

// ── Checks ──────────────────────────────────────────────────────────────────

/// What a check came to.
#[derive(Clone, Copy, Debug, PartialEq, Eq, Structural)]
pub enum CheckStatus {
    Pass,
    Fail,
    Warn,
    Skipped,
}

impl CheckStatus {
    /// The name in reports.
    pub open spec fn name(self) -> Seq<char> {
        match self {
            CheckStatus::Pass => "pass"@,
            CheckStatus::Fail => "fail"@,
            CheckStatus::Warn => "warn"@,
            CheckStatus::Skipped => "skipped"@,
        }
    }

    /// The sign in front of a shown check.
    pub open spec fn sign(self) -> Seq<char> {
        match self {
            CheckStatus::Pass => "\u{2713}"@,
            CheckStatus::Fail => "\u{2717}"@,
            CheckStatus::Warn => "\u{26a0}"@,
            CheckStatus::Skipped => "\u{2013}"@,
        }
    }

    /// The name in reports.
    pub fn as_str(&self) -> (r: &'static str)
        ensures
            r@ == self.name(),
    {
        match self {
            CheckStatus::Pass => "pass",
            CheckStatus::Fail => "fail",
            CheckStatus::Warn => "warn",
            CheckStatus::Skipped => "skipped",
        }
    }

    /// The sign in front of a shown check.
    pub fn icon(&self) -> (r: &'static str)
        ensures
            r@ == self.sign(),
    {
        match self {
            CheckStatus::Pass => "\u{2713}",
            CheckStatus::Fail => "\u{2717}",
            CheckStatus::Warn => "\u{26a0}",
            CheckStatus::Skipped => "\u{2013}",
        }
    }
}

/// The result of one check.
#[derive(Debug)]
pub struct VerificationCheck {
    /// A stable identifier.
    pub name: String,
    /// A label for people.
    pub label: String,
    pub status: CheckStatus,
    pub detail: String,
    /// What to do about it.
    pub remedy: Option<String>,
}

impl VerificationCheck {
    /// A result.
    pub fn new(name: &str, label: &str, status: CheckStatus, detail: &str, remedy: Option<String>) -> (r: Self)
        ensures
            r.name@ == name@,
            r.label@ == label@,
            r.status == status,
            r.detail@ == detail@,
            r.remedy == remedy,
    {
        VerificationCheck {
            name: name.to_owned(),
            label: label.to_owned(),
            status,
            detail: detail.to_owned(),
            remedy,
        }
    }
}

/// How many checks came to what.
#[derive(Debug)]
pub struct Summary {
    pub pass: usize,
    pub warn: usize,
    pub fail: usize,
    pub skipped: usize,
}

/// How many checks have a status.
pub open spec fn count_of(checks: Seq<VerificationCheck>, status: CheckStatus) -> nat
    decreases checks.len(),
{
    if checks.len() == 0 {
        0
    } else {
        count_of(checks.drop_last(), status) + if checks.last().status == status {
            1nat
        } else {
            0
        }
    }
}

/// Every check is counted once.
pub proof fn counts_add_up(checks: Seq<VerificationCheck>)
    ensures
        count_of(checks, CheckStatus::Pass) + count_of(checks, CheckStatus::Warn) + count_of(
            checks,
            CheckStatus::Fail,
        ) + count_of(checks, CheckStatus::Skipped) == checks.len(),
    decreases checks.len(),
{
    if checks.len() > 0 {
        counts_add_up(checks.drop_last());
    }
}

impl Summary {
    /// Whether the summary counts checks.
    pub open spec fn counts(self, checks: Seq<VerificationCheck>) -> bool {
        &&& self.pass == count_of(checks, CheckStatus::Pass)
        &&& self.warn == count_of(checks, CheckStatus::Warn)
        &&& self.fail == count_of(checks, CheckStatus::Fail)
        &&& self.skipped == count_of(checks, CheckStatus::Skipped)
    }

    /// Counts checks.
    pub fn from_checks(checks: &[VerificationCheck]) -> (r: Summary)
        ensures
            r.counts(checks@),
    {
        let mut s = Summary { pass: 0, warn: 0, fail: 0, skipped: 0 };
        let mut i: usize = 0;
        while i < checks.len()
            invariant
                i <= checks@.len(),
                s.counts(checks@.take(i as int)),
                s.pass <= i,
                s.warn <= i,
                s.fail <= i,
                s.skipped <= i,
            decreases checks@.len() - i,
        {
            assert(checks@.take(i + 1).drop_last() =~= checks@.take(i as int));
            assert(checks@.take(i + 1).last() == checks@[i as int]);
            match checks[i].status {
                CheckStatus::Pass => {
                    s.pass = s.pass + 1;
                },
                CheckStatus::Warn => {
                    s.warn = s.warn + 1;
                },
                CheckStatus::Fail => {
                    s.fail = s.fail + 1;
                },
                CheckStatus::Skipped => {
                    s.skipped = s.skipped + 1;
                },
            }
            i = i + 1;
        }
        assert(checks@.take(i as int) =~= checks@);
        s
    }
}

/// The exit code of a run: 6 if the time was up, as the report is incomplete
/// then; else 1 if any check failed; else 0.
pub fn aggregate_exit(summary: &Summary, timed_out: bool) -> (r: i32)
    ensures
        r == if timed_out {
            6i32
        } else if summary.fail > 0 {
            1
        } else {
            0
        },
{
    if timed_out {
        6
    } else if summary.fail > 0 {
        1
    } else {
        0
    }
}

// ── Showing checks ──────────────────────────────────────────────────────────

/// The lines of one check.
pub open spec fn check_text(c: VerificationCheck) -> Seq<char> {
    "  "@ + c.status.sign() + " "@ + c.label@ + " \u{2014} "@ + c.detail@ + "\n"@ + (match c.remedy {
        Some(r) => "     \u{2192} "@ + r@ + "\n"@,
        None => seq![],
    })
}

/// The lines of checks.
pub open spec fn checks_text(checks: Seq<VerificationCheck>) -> Seq<char>
    decreases checks.len(),
{
    if checks.len() == 0 {
        seq![]
    } else {
        checks_text(checks.drop_last()) + check_text(checks.last())
    }
}

/// The whole text: a heading, the checks, and how many came to what.
pub open spec fn report_text(checks: Seq<VerificationCheck>) -> Seq<char> {
    "\nVerification:\n"@ + checks_text(checks) + "\n"@ + decimal(count_of(checks, CheckStatus::Pass)) + " passed, "@
        + decimal(count_of(checks, CheckStatus::Warn)) + " warn, "@ + decimal(count_of(checks, CheckStatus::Fail))
        + " failed, "@ + decimal(count_of(checks, CheckStatus::Skipped)) + " skipped"@
}

fn write_check(c: &VerificationCheck) -> (r: String)
    ensures
        r@ == check_text(*c),
{
    let line = "  ".to_owned().concat(c.status.icon()).concat(" ").concat(c.label.as_str()).concat(
        " \u{2014} ",
    ).concat(c.detail.as_str()).concat("\n");
    match &c.remedy {
        Some(m) => {
            let hint = "     \u{2192} ".to_owned().concat(m.as_str()).concat("\n");
            line.concat(hint.as_str())
        },
        None => {
            assert(line@ + Seq::<char>::empty() =~= line@);
            line
        },
    }
}

/// Shows checks to people.
pub fn render_human(checks: &[VerificationCheck]) -> (r: String)
    ensures
        r@ == report_text(checks@),
{
    let mut body: String = String::new();
    let mut i: usize = 0;
    while i < checks.len()
        invariant
            i <= checks@.len(),
            body@ == checks_text(checks@.take(i as int)),
        decreases checks@.len() - i,
    {
        assert(checks@.take(i + 1).drop_last() =~= checks@.take(i as int));
        assert(checks@.take(i + 1).last() == checks@[i as int]);
        let part = write_check(&checks[i]);
        body.append(part.as_str());
        i = i + 1;
    }
    assert(checks@.take(i as int) =~= checks@);
    let summary = Summary::from_checks(checks);
    "\nVerification:\n".to_owned().concat(body.as_str()).concat("\n").concat(
        decimal_text(summary.pass as u64).as_str(),
    ).concat(" passed, ").concat(decimal_text(summary.warn as u64).as_str()).concat(" warn, ").concat(
        decimal_text(summary.fail as u64).as_str(),
    ).concat(" failed, ").concat(decimal_text(summary.skipped as u64).as_str()).concat(" skipped")
}

// ── Reports ─────────────────────────────────────────────────────────────────

/// A change that was planned or made.
#[derive(Debug)]
pub struct DoctorAction {
    pub name: String,
    pub command: String,
    /// `pending`, `applied`, `already_present` or `failed`.
    pub status: String,
    /// The command that undoes it.
    pub rollback: Option<String>,
}

/// A report on a host.
#[derive(Debug)]
pub struct DoctorReport {
    pub schema: &'static str,
    pub generated_at: Timestamp,
    pub summary: Summary,
    pub checks: Vec<VerificationCheck>,
    /// What was planned or made; absent where changes were not asked for.
    pub actions: Option<Vec<DoctorAction>>,
}

/// An object with a key set, if there is a text for it.
pub open spec fn with_text(
    m: Map<Seq<char>, JsonView>,
    key: Seq<char>,
    value: Option<String>,
) -> Map<Seq<char>, JsonView> {
    match value {
        Some(s) => m.insert(key, JsonView::Str(s@)),
        None => m,
    }
}

/// A number of checks as a JSON number.
pub open spec fn count_view(n: usize) -> JsonView {
    JsonView::Number(json_unsigned(n as u64))
}

/// A check as a JSON object; without a remedy there is no key for it.
pub open spec fn check_view(c: VerificationCheck) -> JsonView {
    JsonView::Object(
        with_text(
            Map::empty().insert("name"@, JsonView::Str(c.name@)).insert("label"@, JsonView::Str(c.label@)).insert(
                "status"@,
                JsonView::Str(c.status.name()),
            ).insert("detail"@, JsonView::Str(c.detail@)),
            "remedy"@,
            c.remedy,
        ),
    )
}

/// An action as a JSON object.
pub open spec fn action_view(a: DoctorAction) -> JsonView {
    JsonView::Object(
        with_text(
            Map::empty().insert("name"@, JsonView::Str(a.name@)).insert("command"@, JsonView::Str(a.command@)).insert(
                "status"@,
                JsonView::Str(a.status@),
            ),
            "rollback"@,
            a.rollback,
        ),
    )
}

/// A report as a JSON object; without actions there is no key for them.
pub open spec fn report_view(r: DoctorReport) -> JsonView {
    let summary = Map::empty().insert("pass"@, count_view(r.summary.pass)).insert(
        "warn"@,
        count_view(r.summary.warn),
    ).insert("fail"@, count_view(r.summary.fail)).insert("skipped"@, count_view(r.summary.skipped));
    let base = Map::empty().insert("schema"@, JsonView::Str(r.schema@)).insert(
        "generated_at"@,
        JsonView::Str(rfc3339(r.generated_at.secs, r.generated_at.nanos)),
    ).insert("summary"@, JsonView::Object(summary)).insert(
        "checks"@,
        JsonView::Array(r.checks@.map_values(|c: VerificationCheck| check_view(c))),
    );
    JsonView::Object(
        match r.actions {
            Some(a) => base.insert("actions"@, JsonView::Array(a@.map_values(|x: DoctorAction| action_view(x)))),
            None => base,
        },
    )
}

fn set_text(o: &mut Json, key: &str, value: &Option<String>)
    requires
        *old(o) is Object,
    ensures
        *final(o) is Object,
        final(o)@ == JsonView::Object(with_text(old(o)@->Object_0, key@, *value)),
{
    proof {
        o.unfold();
    }
    match value {
        Some(s) => {
            o.set(key, Json::text(s.as_str()));
        },
        None => {},
    }
}

impl DoctorReport {
    /// A report without changes, made now.
    pub fn detection(checks: Vec<VerificationCheck>) -> (r: DoctorReport)
        ensures
            r.schema@ == "slip.doctor/v1"@,
            r.generated_at.wf(),
            r.summary.counts(checks@),
            r.checks == checks,
            r.actions is None,
    {
        let summary = Summary::from_checks(checks.as_slice());
        DoctorReport { schema: "slip.doctor/v1", generated_at: utc_now(), summary, checks, actions: None }
    }

    /// A report with the changes that were planned or made, made now.
    pub fn with_actions(checks: Vec<VerificationCheck>, actions: Vec<DoctorAction>) -> (r: DoctorReport)
        ensures
            r.schema@ == "slip.doctor/v1"@,
            r.generated_at.wf(),
            r.summary.counts(checks@),
            r.checks == checks,
            r.actions == Some(actions),
    {
        let summary = Summary::from_checks(checks.as_slice());
        DoctorReport {
            schema: "slip.doctor/v1",
            generated_at: utc_now(),
            summary,
            checks,
            actions: Some(actions),
        }
    }

    /// The report as a JSON value.
    pub fn to_json(&self) -> (r: serde_json::Value)
        requires
            self.generated_at.wf(),
        ensures
            json_of(r) == report_view(*self),
    {
        let mut checks: Vec<Json> = Vec::new();
        let mut i: usize = 0;
        while i < self.checks.len()
            invariant
                i <= self.checks@.len(),
                checks@.len() == i,
                forall|k: int| 0 <= k < i ==> (#[trigger] checks@[k])@ == check_view(self.checks@[k]),
            decreases self.checks@.len() - i,
        {
            let c = &self.checks[i];
            let mut o = Json::object();
            o.set("name", Json::text(c.name.as_str()));
            o.set("label", Json::text(c.label.as_str()));
            o.set("status", Json::text(c.status.as_str()));
            o.set("detail", Json::text(c.detail.as_str()));
            set_text(&mut o, "remedy", &c.remedy);
            checks.push(o);
            i = i + 1;
        }
        assert(models(checks@) =~= self.checks@.map_values(|c: VerificationCheck| check_view(c)));
        let check_array = Json::Array(checks);
        proof {
            check_array.unfold();
        }
        let mut summary = Json::object();
        summary.set("pass", Json::unsigned(self.summary.pass as u64));
        summary.set("warn", Json::unsigned(self.summary.warn as u64));
        summary.set("fail", Json::unsigned(self.summary.fail as u64));
        summary.set("skipped", Json::unsigned(self.summary.skipped as u64));
        let moment: String = match time_text(&self.generated_at) {
            Some(t) => t,
            None => String::new(),
        };
        let mut out = Json::object();
        out.set("schema", Json::text(self.schema));
        out.set("generated_at", Json::text(moment.as_str()));
        out.set("summary", summary);
        out.set("checks", check_array);
        match &self.actions {
            Some(a) => {
                let mut list: Vec<Json> = Vec::new();
                let mut j: usize = 0;
                while j < a.len()
                    invariant
                        j <= a@.len(),
                        list@.len() == j,
                        forall|k: int| 0 <= k < j ==> (#[trigger] list@[k])@ == action_view(a@[k]),
                    decreases a@.len() - j,
                {
                    let mut o = Json::object();
                    o.set("name", Json::text(a[j].name.as_str()));
                    o.set("command", Json::text(a[j].command.as_str()));
                    o.set("status", Json::text(a[j].status.as_str()));
                    set_text(&mut o, "rollback", &a[j].rollback);
                    list.push(o);
                    j = j + 1;
                }
                assert(models(list@) =~= a@.map_values(|x: DoctorAction| action_view(x)));
                let array = Json::Array(list);
                proof {
                    array.unfold();
                }
                out.set("actions", array);
            },
            None => {},
        }
        out.to_value()
    }
}

/// What a command printed, and its exit code.
#[derive(Debug)]
pub struct CommandOutput {
    pub stdout: String,
    pub stderr: String,
    pub status: i32,
}

// ── Firewall ────────────────────────────────────────────────────────────────

/// How the firewall is judged.
#[derive(Debug)]
pub struct UfwClass {
    pub status: CheckStatus,
    pub detail: String,
    pub remedy: Option<String>,
}

/// A judgement: status, detail and remedy.
pub ghost struct Judgement {
    pub status: CheckStatus,
    pub detail: Seq<char>,
    pub remedy: Option<Seq<char>>,
}

/// What a judgement of the firewall says.
pub open spec fn ufw_view(c: UfwClass) -> Judgement {
    Judgement { status: c.status, detail: c.detail@, remedy: crate::text::opt_text(c.remedy) }
}

/// Whether a word stands in a line at an index, with nothing but space around
/// it.
pub open spec fn stands_alone(line: Seq<char>, word: Seq<char>, at: int) -> bool {
    &&& occurs_at(line, word, at)
    &&& at == 0 || is_white(line[at - 1])
    &&& at + word.len() == line.len() || is_white(line[at + word.len()])
}

/// Whether a line names an interface.
pub open spec fn names_interface(line: Seq<char>, name: Seq<char>) -> bool {
    exists|at: int| #[trigger] stands_alone(line, name, at)
}

/// Whether an entry of a list of ports is 53, or a range of ports that holds it.
pub open spec fn covers_dns(s: Seq<char>) -> bool {
    ||| all_digits(s) && digits_value(s) == 53
    ||| exists|m: int|
        0 <= m < s.len() && #[trigger] s[m] == ':' && all_digits(s.take(m)) && all_digits(s.skip(m + 1))
            && digits_value(s.take(m)) <= 53 <= digits_value(s.skip(m + 1))
}

/// Whether a character can stand in a list of ports.
pub open spec fn in_ports(c: char) -> bool {
    is_digit(c) || c == ':' || c == ','
}

/// Whether an entry that lets the port 53 in stands in a line from `at` to `mid`,
/// with the rest of its list up to `end`. Before it is the beginning of the line,
/// a space, the bracket of the rule's number or the comma of the list. After the
/// list is the slash of a protocol; or a space, which counts up to where the line
/// says what the rule does.
pub open spec fn is_dns_port(line: Seq<char>, at: int, mid: int, end: int) -> bool {
    &&& 0 <= at < mid <= end < line.len()
    &&& at == 0 || is_white(line[at - 1]) || line[at - 1] == ']' || line[at - 1] == ','
    &&& covers_dns(line.subrange(at, mid))
    &&& mid == end || line[mid] == ','
    &&& forall|k: int| mid <= k < end ==> in_ports(#[trigger] line[k])
    &&& line[end] == '/' || is_white(line[end]) && !has_text(line.take(at), "allow in"@)
}

/// Whether a line names the port 53, alone or in a list or range of ports.
pub open spec fn names_dns_port(line: Seq<char>) -> bool {
    exists|at: int, mid: int, end: int| #[trigger] is_dns_port(line, at, mid, end)
}

fn has_interface(line: &str, name: &str) -> (r: bool)
    ensures
        r == names_interface(line@, name@),
{
    let v = to_chars(line);
    let w = to_chars(name);
    if w.len() > v.len() {
        assert forall|k: int| !#[trigger] stands_alone(line@, name@, k) by {}
        return false;
    }
    let n: usize = v.len();
    let last: usize = n - w.len();
    let mut i: usize = 0;
    loop
        invariant
            v@ == line@,
            w@ == name@,
            n == v@.len(),
            last + w@.len() == n,
            i <= last,
            forall|k: int| 0 <= k < i ==> !#[trigger] stands_alone(line@, name@, k),
        decreases last - i,
    {
        if at(&v, &w, i) && (i == 0 || white(v[i - 1])) && (i == last || white(v[i + w.len()])) {
            assert(stands_alone(line@, name@, i as int));
            return true;
        }
        if i == last {
            assert forall|k: int| !#[trigger] stands_alone(line@, name@, k) by {}
            return false;
        }
        i = i + 1;
    }
}

fn only_digits(v: &Vec<char>, from: usize, to: usize) -> (r: bool)
    requires
        from <= to <= v@.len(),
    ensures
        r == all_digits(v@.subrange(from as int, to as int)),
{
    let ghost s = v@.subrange(from as int, to as int);
    let mut i: usize = from;
    while i < to
        invariant
            from <= i <= to <= v@.len(),
            s == v@.subrange(from as int, to as int),
            forall|k: int| 0 <= k < i - from ==> is_digit(#[trigger] s[k]),
        decreases to - i,
    {
        assert(s[i - from] == v@[i as int]);
        if !('0' <= v[i] && v[i] <= '9') {
            return false;
        }
        i = i + 1;
    }
    from < to
}

/// The first place at or after an index where no digit, no colon and, with
/// `commas`, no comma stands.
fn run_end(v: &Vec<char>, from: usize, commas: bool) -> (r: usize)
    requires
        from <= v@.len(),
    ensures
        from <= r <= v@.len(),
        forall|k: int| from <= k < r ==> in_ports(#[trigger] v@[k]) && (commas || v@[k] != ','),
        r < v@.len() ==> !(in_ports(v@[r as int]) && (commas || v@[r as int] != ',')),
{
    let mut i: usize = from;
    while i < v.len()
        invariant
            from <= i <= v@.len(),
            forall|k: int| from <= k < i ==> in_ports(#[trigger] v@[k]) && (commas || v@[k] != ','),
        decreases v@.len() - i,
    {
        let c = v[i];
        if !('0' <= c && c <= '9' || c == ':' || c == ',' && commas) {
            return i;
        }
        i = i + 1;
    }
    i
}

fn lets_dns_in(v: &Vec<char>, from: usize, to: usize) -> (r: bool)
    requires
        from <= to <= v@.len(),
    ensures
        r == covers_dns(v@.subrange(from as int, to as int)),
{
    let ghost s = v@.subrange(from as int, to as int);
    if only_digits(v, from, to) {
        assert forall|m: int| 0 <= m < s.len() implies #[trigger] s[m] != ':' by {
            assert(is_digit(s[m]));
        }
        return match parse_unsigned(from_chars(v, from, to).as_str(), 53) {
            Some(n) => n == 53,
            None => false,
        };
    }
    let mut m: usize = from;
    while m < to && v[m] != ':'
        invariant
            from <= m <= to <= v@.len(),
            s == v@.subrange(from as int, to as int),
            forall|k: int| 0 <= k < m - from ==> #[trigger] s[k] != ':',
        ensures
            m < to ==> v@[m as int] == ':',
        decreases to - m,
    {
        assert(s[m - from] == v@[m as int]);
        m = m + 1;
    }
    if m == to {
        return false;
    }
    let ghost c = m - from;
    let ghost low = v@.subrange(from as int, m as int);
    let ghost high = v@.subrange(m + 1, to as int);
    assert(s[c] == ':');
    assert(s.take(c) =~= low);
    assert(s.skip(c + 1) =~= high);
    assert forall|k: int| 0 <= k < s.len() && #[trigger] s[k] == ':' && all_digits(s.take(k)) implies k == c by {
        if c < k {
            assert(s.take(k)[c] == ':');
        }
    }
    if !only_digits(v, from, m) || !only_digits(v, m + 1, to) {
        return false;
    }
    let r = parse_unsigned(from_chars(v, from, m).as_str(), 53).is_some() && parse_unsigned(
        from_chars(v, m + 1, to).as_str(),
        52,
    ).is_none();
    proof {
        assert(is_digit(low[0]) && is_digit(high[0]));
        if r {
            assert(s[c] == ':' && digits_value(s.take(c)) <= 53 <= digits_value(s.skip(c + 1)));
        }
    }
    r
}

/// Whether an entry that lets the port 53 in begins in a line at an index.
pub open spec fn begins_dns_port(line: Seq<char>, at: int) -> bool {
    exists|mid: int, end: int| #[trigger] is_dns_port(line, at, mid, end)
}

fn dns_port_at(v: &Vec<char>, i: usize) -> (r: bool)
    requires
        i < v@.len(),
    ensures
        r == begins_dns_port(v@, i as int),
{
    let mid: usize = run_end(v, i, false);
    let end: usize = run_end(v, mid, true);
    proof {
        assert forall|m: int, e: int| #[trigger] is_dns_port(v@, i as int, m, e) implies m == mid && e == end by {
            entry_has_no_comma(v@.subrange(i as int, m));
            assert forall|k: int| i <= k < m implies in_ports(#[trigger] v@[k]) && v@[k] != ',' by {
                assert(v@.subrange(i as int, m)[k - i] == v@[k]);
            }
            if m < mid {
                assert(in_ports(v@[m]) && v@[m] != ',');
            }
            if e < end {
                assert(in_ports(v@[e]));
            }
        }
    }
    if mid == i || end >= v.len() || !(i == 0 || white(v[i - 1]) || v[i - 1] == ']' || v[i - 1] == ',') {
        return false;
    }
    if !lets_dns_in(v, i, mid) {
        return false;
    }
    let closed = v[end] == '/' || white(v[end]) && !holds(from_chars(v, 0, i).as_str(), "allow in");
    proof {
        assert(v@.subrange(0, i as int) =~= v@.take(i as int));
        if closed {
            assert(is_dns_port(v@, i as int, mid as int, end as int));
        }
    }
    closed
}

proof fn entry_has_no_comma(s: Seq<char>)
    requires
        covers_dns(s),
    ensures
        forall|k: int| 0 <= k < s.len() ==> in_ports(#[trigger] s[k]) && s[k] != ',',
{
    assert forall|k: int| 0 <= k < s.len() implies in_ports(#[trigger] s[k]) && s[k] != ',' by {
        if !(all_digits(s) && digits_value(s) == 53) {
            let m = choose|m: int|
                0 <= m < s.len() && #[trigger] s[m] == ':' && all_digits(s.take(m)) && all_digits(s.skip(m + 1))
                    && digits_value(s.take(m)) <= 53 <= digits_value(s.skip(m + 1));
            if k < m {
                assert(is_digit(s.take(m)[k]));
            } else if k > m {
                assert(is_digit(s.skip(m + 1)[k - m - 1]));
            }
        }
    }
}

fn has_dns_port(line: &str) -> (r: bool)
    ensures
        r == names_dns_port(line@),
{
    let v = to_chars(line);
    let n: usize = v.len();
    let mut i: usize = 0;
    while i < n
        invariant
            v@ == line@,
            n == v@.len(),
            i <= n,
            forall|k: int| 0 <= k < i ==> !#[trigger] begins_dns_port(line@, k),
        decreases n - i,
    {
        if dns_port_at(&v, i) {
            return true;
        }
        i = i + 1;
    }
    assert forall|k: int, m: int, e: int| !#[trigger] is_dns_port(line@, k, m, e) by {
        if is_dns_port(line@, k, m, e) {
            assert(begins_dns_port(line@, k));
        }
    }
    false
}

/// Whether a line of the firewall's status lets DNS in on a bridge.
pub open spec fn is_dns_rule(line: Seq<char>, bridge: Seq<char>) -> bool {
    names_interface(line, bridge) && names_dns_port(line) && has_text(line, "allow in"@)
}

/// Whether some line of the firewall's status lets DNS in on a bridge.
pub open spec fn has_dns_rule(ls: Seq<Seq<char>>, bridge: Seq<char>) -> bool {
    exists|i: int| 0 <= i < ls.len() && is_dns_rule(#[trigger] ls[i], bridge)
}

/// How the firewall is judged, in letters of either case: a warning if it is
/// off, a failure without a bridge or without a rule that lets DNS in on it.
pub open spec fn ufw_judged(bridge: Seq<char>, output: Seq<char>) -> Judgement {
    let text = lowered(output);
    if has_text(text, "status: inactive"@) {
        Judgement {
            status: CheckStatus::Warn,
            detail: "UFW is inactive; bridge DNS rule not needed but firewall is off"@,
            remedy: Some("enable UFW (`ufw enable`) or leave it off intentionally"@),
        }
    } else if bridge.len() == 0 {
        Judgement {
            status: CheckStatus::Fail,
            detail: "slip network bridge interface not found"@,
            remedy: Some("run slipd once to create the slip network, then re-run `slip doctor`"@),
        }
    } else if has_dns_rule(lines(text), lowered(bridge)) {
        Judgement {
            status: CheckStatus::Pass,
            detail: "UFW allows DNS (port 53) on bridge "@ + bridge,
            remedy: None,
        }
    } else {
        Judgement {
            status: CheckStatus::Fail,
            detail: "UFW is active but no rule allows DNS (port 53) on bridge "@ + bridge
                + " \u{2014} container\u{2192}service lookups will be silently dropped (FR \u{a7}3.8)"@,
            remedy: Some("ufw allow in on "@ + bridge + " to any port 53"@),
        }
    }
}

/// Judges the firewall by what `ufw status numbered` prints.
pub fn classify_ufw(bridge: &str, ufw_status_output: &str) -> (r: UfwClass)
    ensures
        ufw_view(r) == ufw_judged(bridge@, ufw_status_output@),
{
    let text = lower(ufw_status_output);
    if holds(text.as_str(), "status: inactive") {
        return UfwClass {
            status: CheckStatus::Warn,
            detail: "UFW is inactive; bridge DNS rule not needed but firewall is off".to_owned(),
            remedy: Some("enable UFW (`ufw enable`) or leave it off intentionally".to_owned()),
        };
    }
    if bridge.is_empty() {
        return UfwClass {
            status: CheckStatus::Fail,
            detail: "slip network bridge interface not found".to_owned(),
            remedy: Some("run slipd once to create the slip network, then re-run `slip doctor`".to_owned()),
        };
    }
    let small = lower(bridge);
    let ls = split_lines(text.as_str());
    let ghost all = texts(ls@);
    let mut found: bool = false;
    let mut i: usize = 0;
    while i < ls.len()
        invariant
            i <= ls@.len(),
            all == texts(ls@),
            small@ == lowered(bridge@),
            found == exists|k: int| 0 <= k < i && is_dns_rule(#[trigger] all[k], small@),
        decreases ls@.len() - i,
    {
        let l = ls[i].as_str();
        assert(all[i as int] == ls@[i as int]@);
        if has_interface(l, small.as_str()) && has_dns_port(l) && holds(l, "allow in") {
            assert(is_dns_rule(all[i as int], small@));
            found = true;
        }
        i = i + 1;
    }
    if found {
        UfwClass {
            status: CheckStatus::Pass,
            detail: "UFW allows DNS (port 53) on bridge ".to_owned().concat(bridge),
            remedy: None,
        }
    } else {
        UfwClass {
            status: CheckStatus::Fail,
            detail: "UFW is active but no rule allows DNS (port 53) on bridge ".to_owned().concat(bridge).concat(
                " \u{2014} container\u{2192}service lookups will be silently dropped (FR \u{a7}3.8)",
            ),
            remedy: Some("ufw allow in on ".to_owned().concat(bridge).concat(" to any port 53")),
        }
    }
}

// ── Proxy modules ───────────────────────────────────────────────────────────

/// Judges by what `caddy list-modules` prints whether the plugin of a DNS
/// provider is there. Without a provider there is nothing to judge.
pub fn parse_caddy_modules(modules_output: &str, required_provider: Option<&str>) -> (r: CheckStatus)
    ensures
        r == (match required_provider {
            Some(p) => if p@.len() == 0 {
                CheckStatus::Skipped
            } else if has_text(modules_output@, "dns.providers."@ + p@) {
                CheckStatus::Pass
            } else {
                CheckStatus::Fail
            },
            None => CheckStatus::Skipped,
        }),
{
    match required_provider {
        Some(p) => {
            if p.is_empty() {
                return CheckStatus::Skipped;
            }
            let needle = "dns.providers.".to_owned().concat(p);
            if holds(modules_output, needle.as_str()) {
                CheckStatus::Pass
            } else {
                CheckStatus::Fail
            }
        },
        None => CheckStatus::Skipped,
    }
}

/// A line without the carriage returns at its end.
pub open spec fn without_returns(s: Seq<char>) -> Seq<char>
    decreases s.len(),
{
    if s.len() > 0 && s.last() == '\r' {
        without_returns(s.drop_last())
    } else {
        s
    }
}

/// The first field of a line with tabs.
pub open spec fn first_field(line: Seq<char>) -> Seq<char> {
    let s = without_returns(line);
    match s.index_of_first('\t') {
        Some(i) => s.take(i),
        None => s,
    }
}

/// Whether some line names a module in its first field.
pub open spec fn lists_module(ls: Seq<Seq<char>>, id: Seq<char>) -> bool {
    exists|i: int| 0 <= i < ls.len() && first_field(#[trigger] ls[i]) == id
}

fn field_of(line: &str) -> (r: String)
    ensures
        r@ == first_field(line@),
{
    let v = to_chars(line);
    let mut n: usize = v.len();
    assert(line@.take(n as int) =~= line@);
    while n > 0 && v[n - 1] == '\r'
        invariant
            n <= v@.len(),
            v@ == line@,
            without_returns(line@) == without_returns(line@.take(n as int)),
        decreases n,
    {
        assert(line@.take(n as int).drop_last() =~= line@.take(n - 1));
        n = n - 1;
    }
    let ghost s = line@.take(n as int);
    assert(without_returns(line@) == s);
    let head = from_chars(&v, 0, n);
    assert(head@ =~= s);
    let w = to_chars(head.as_str());
    match find(&w, '\t') {
        Some(i) => {
            assert(w@.subrange(0, i as int) =~= s.take(i as int));
            from_chars(&w, 0, i)
        },
        None => head,
    }
}

/// Judges by what `caddy list-modules` prints whether a module is there, by its
/// whole id. Without an id there is nothing to judge.
pub fn module_present_exact(modules_output: &str, module_id: &str) -> (r: CheckStatus)
    ensures
        r == if module_id@.len() == 0 {
            CheckStatus::Skipped
        } else if lists_module(lines(modules_output@), module_id@) {
            CheckStatus::Pass
        } else {
            CheckStatus::Fail
        },
{
    if module_id.is_empty() {
        return CheckStatus::Skipped;
    }
    let ls = split_lines(modules_output);
    let ghost all = texts(ls@);
    let mut i: usize = 0;
    while i < ls.len()
        invariant
            i <= ls@.len(),
            all == texts(ls@),
            all == lines(modules_output@),
            module_id@.len() > 0,
            forall|k: int| 0 <= k < i ==> first_field(#[trigger] all[k]) != module_id@,
        decreases ls@.len() - i,
    {
        assert(all[i as int] == ls@[i as int]@);
        if same(field_of(ls[i].as_str()).as_str(), module_id) {
            assert(first_field(all[i as int]) == module_id@);
            assert(lists_module(lines(modules_output@), module_id@));
            return CheckStatus::Pass;
        }
        i = i + 1;
    }
    CheckStatus::Fail
}

/// What to do about a missing plugin of a DNS provider.
pub fn dns_plugin_remedy(provider: &str) -> (r: String)
    ensures
        r@ == "build a Caddy binary with the DNS plugin: `xcaddy build --with github.com/caddy-dns/"@ + provider@
            + "` and replace the system caddy binary, then restart caddy"@,
{
    "build a Caddy binary with the DNS plugin: `xcaddy build --with github.com/caddy-dns/".to_owned().concat(
        provider,
    ).concat("` and replace the system caddy binary, then restart caddy")
}

// ── Addresses ───────────────────────────────────────────────────────────────

/// The ranges that Cloudflare's proxy answers from, as published in July 2026.
pub const CLOUDFLARE_RANGE_SNAPSHOT: [&'static str; 22] = [
    "103.21.244.0/22",
    "103.22.200.0/22",
    "103.31.4.0/22",
    "104.16.0.0/13",
    "104.24.0.0/14",
    "108.162.192.0/18",
    "131.0.72.0/22",
    "141.101.64.0/18",
    "162.158.0.0/15",
    "172.64.0.0/13",
    "173.245.48.0/20",
    "188.114.96.0/20",
    "190.93.240.0/20",
    "197.234.240.0/22",
    "198.41.128.0/17",
    "2400:cb00::/32",
    "2606:4700::/32",
    "2803:f800::/32",
    "2405:b500::/32",
    "2405:8100::/32",
    "2a06:98c0::/29",
    "2c0f:f248::/32",
];

/// Where a host's address leads.
#[derive(Clone, Copy, Debug, PartialEq, Eq, Structural)]
pub enum DnsClass {
    /// To Cloudflare's proxy.
    Proxied,
    /// To a public host.
    Direct,
    /// To a host that the public internet does not reach.
    PrivateOrigin,
}

/// Whether an address is private: loopback, link-local, of a private network,
/// or of carrier-grade NAT.
pub open spec fn is_private(ip: IpAddr) -> bool {
    match ip {
        IpAddr::V4(n) => {
            ||| 0x7f00_0000 <= n <= 0x7fff_ffff
            ||| 0xa9fe_0000 <= n <= 0xa9fe_ffff
            ||| 0x0a00_0000 <= n <= 0x0aff_ffff
            ||| 0xac10_0000 <= n <= 0xac1f_ffff
            ||| 0xc0a8_0000 <= n <= 0xc0a8_ffff
            ||| 0x6440_0000 <= n <= 0x647f_ffff
        },
        IpAddr::V6(n) => {
            ||| n == 1
            ||| n == 0
            ||| 0xfc00_0000_0000_0000_0000_0000_0000_0000 <= n <= 0xfdff_ffff_ffff_ffff_ffff_ffff_ffff_ffff
            ||| 0xfe80_0000_0000_0000_0000_0000_0000_0000 <= n <= 0xfebf_ffff_ffff_ffff_ffff_ffff_ffff_ffff
        },
    }
}

/// Tests whether an address is private.
pub fn is_private_or_cgnat(ip: &IpAddr) -> (r: bool)
    ensures
        r == is_private(*ip),
{
    match *ip {
        IpAddr::V4(n) => {
            (0x7f00_0000 <= n && n <= 0x7fff_ffff) || (0xa9fe_0000 <= n && n <= 0xa9fe_ffff) || (0x0a00_0000 <= n && n
                <= 0x0aff_ffff) || (0xac10_0000 <= n && n <= 0xac1f_ffff) || (0xc0a8_0000 <= n && n <= 0xc0a8_ffff) || (
            0x6440_0000 <= n && n <= 0x647f_ffff)
        },
        IpAddr::V6(n) => {
            n == 1 || n == 0 || (0xfc00_0000_0000_0000_0000_0000_0000_0000 <= n && n
                <= 0xfdff_ffff_ffff_ffff_ffff_ffff_ffff_ffff) || (0xfe80_0000_0000_0000_0000_0000_0000_0000 <= n && n
                <= 0xfebf_ffff_ffff_ffff_ffff_ffff_ffff_ffff)
        },
    }
}

/// Where an address leads, given the proxy's ranges.
pub open spec fn leads_to(ip: IpAddr, cf: CidrSet) -> DnsClass {
    if cf.covers(ip_view(ip)) {
        DnsClass::Proxied
    } else if is_private(ip) {
        DnsClass::PrivateOrigin
    } else {
        DnsClass::Direct
    }
}

/// Finds out where an address leads.
pub fn classify_ip(ip: &IpAddr, cf: &CidrSet) -> (r: DnsClass)
    ensures
        r == leads_to(*ip, *cf),
{
    if cf.contains(ip) {
        return DnsClass::Proxied;
    }
    if is_private_or_cgnat(ip) {
        return DnsClass::PrivateOrigin;
    }
    DnsClass::Direct
}

/// How a host's DNS records are judged.
#[derive(Debug)]
pub struct DnsExpectation {
    pub status: CheckStatus,
    pub detail: String,
    pub remedy: Option<String>,
}

/// What a judgement of DNS records says.
pub open spec fn dns_view(c: DnsExpectation) -> Judgement {
    Judgement { status: c.status, detail: c.detail@, remedy: crate::text::opt_text(c.remedy) }
}

/// Whether some address leads to the proxy.
pub open spec fn any_proxied(ips: Seq<IpAddr>, cf: CidrSet) -> bool {
    exists|i: int| 0 <= i < ips.len() && cf.covers(ip_view(#[trigger] ips[i]))
}

/// Whether some address is private.
pub open spec fn any_private(ips: Seq<IpAddr>) -> bool {
    exists|i: int| 0 <= i < ips.len() && is_private(#[trigger] ips[i])
}

/// Whether a way of getting certificates implies that the host is not public.
pub open spec fn implies_private(tls: Seq<char>) -> bool {
    tls == "internal"@ || tls == "tailscale"@
}

/// How the DNS records of a host are judged.
pub open spec fn dns_judged(
    host: Seq<char>,
    ips: Seq<IpAddr>,
    tls: Seq<char>,
    proxied_hint: Option<bool>,
    cf: CidrSet,
    dns_error: bool,
) -> Judgement {
    if dns_error {
        Judgement {
            status: CheckStatus::Fail,
            detail: "DNS resolver returned an error for "@ + host,
            remedy: Some(
                "check upstream DNS / resolver config for "@ + host
                    + " \u{2014} the resolver itself is broken (SERVFAIL/timeout)"@,
            ),
        }
    } else if ips.len() == 0 {
        Judgement {
            status: CheckStatus::Warn,
            detail: host + " does not resolve to any A/AAAA record"@,
            remedy: Some(
                "create a DNS record for "@ + host
                    + " pointing at this host (A/AAAA), or grey-cloud an existing Cloudflare record so it resolves to the origin"@,
            ),
        }
    } else if any_proxied(ips, cf) {
        if proxied_hint == Some(false) {
            Judgement {
                status: CheckStatus::Fail,
                detail: host
                    + " resolves to a Cloudflare proxy IP but the manifest declares `dns = { proxied = false }` (grey cloud expected)"@,
                remedy: Some(
                    "in the Cloudflare dashboard, set the DNS record for "@ + host
                        + " to 'DNS only' (grey cloud) so traffic reaches the origin directly"@,
                ),
            }
        } else if implies_private(tls) || any_private(ips) {
            Judgement {
                status: CheckStatus::Fail,
                detail: host
                    + " resolves to a Cloudflare proxy IP (orange cloud) but the origin is on a tailnet/private network (tls="@
                    + tls + ") \u{2014} Cloudflare's proxy cannot reach a 100.x / RFC1918 origin"@,
                remedy: Some(
                    "in the Cloudflare dashboard, set the DNS record for "@ + host
                        + " to 'DNS only' (grey cloud) so traffic reaches the tailnet origin directly, or move the origin to a publicly routable address"@,
                ),
            }
        } else {
            Judgement {
                status: CheckStatus::Pass,
                detail: host + " resolves to a Cloudflare proxy IP (orange cloud) \u{2014} origin is public"@,
                remedy: None,
            }
        }
    } else if any_private(ips) {
        Judgement {
            status: CheckStatus::Warn,
            detail: host
                + " resolves to a private/CGNAT origin \u{2014} not reachable from the public internet (fine behind Cloudflare proxy; problematic if served directly)"@,
            remedy: Some(
                "if "@ + host
                    + " should be public, point its DNS at a public IP or grey-cloud a Cloudflare record; if it is intentionally tailnet-only, this is expected"@,
            ),
        }
    } else {
        Judgement {
            status: CheckStatus::Pass,
            detail: host + " resolves to a direct public origin IP"@,
            remedy: None,
        }
    }
}

fn some_proxied(ips: &[IpAddr], cf: &CidrSet) -> (r: bool)
    ensures
        r == any_proxied(ips@, *cf),
{
    let mut i: usize = 0;
    while i < ips.len()
        invariant
            i <= ips@.len(),
            forall|k: int| 0 <= k < i ==> !cf.covers(ip_view(#[trigger] ips@[k])),
        decreases ips@.len() - i,
    {
        if cf.contains(&ips[i]) {
            return true;
        }
        i = i + 1;
    }
    false
}

fn some_private(ips: &[IpAddr]) -> (r: bool)
    ensures
        r == any_private(ips@),
{
    let mut i: usize = 0;
    while i < ips.len()
        invariant
            i <= ips@.len(),
            forall|k: int| 0 <= k < i ==> !is_private(#[trigger] ips@[k]),
        decreases ips@.len() - i,
    {
        if is_private_or_cgnat(&ips[i]) {
            return true;
        }
        i = i + 1;
    }
    false
}

/// Judges the DNS records of a host: `ips` are the addresses it resolves to,
/// `tls_strategy` is how it gets certificates, `proxied_hint` whether it is
/// meant to be proxied, and `dns_error` whether resolving failed.
pub fn classify_dns_expectation(
    host: &str,
    ips: &[IpAddr],
    tls_strategy: &str,
    proxied_hint: Option<bool>,
    cf: &CidrSet,
    dns_error: bool,
) -> (r: DnsExpectation)
    ensures
        dns_view(r) == dns_judged(host@, ips@, tls_strategy@, proxied_hint, *cf, dns_error),
{
    if dns_error {
        return DnsExpectation {
            status: CheckStatus::Fail,
            detail: "DNS resolver returned an error for ".to_owned().concat(host),
            remedy: Some(
                "check upstream DNS / resolver config for ".to_owned().concat(host).concat(
                    " \u{2014} the resolver itself is broken (SERVFAIL/timeout)",
                ),
            ),
        };
    }
    if ips.len() == 0 {
        return DnsExpectation {
            status: CheckStatus::Warn,
            detail: host.to_owned().concat(" does not resolve to any A/AAAA record"),
            remedy: Some(
                "create a DNS record for ".to_owned().concat(host).concat(
                    " pointing at this host (A/AAAA), or grey-cloud an existing Cloudflare record so it resolves to the origin",
                ),
            ),
        };
    }
    let private: bool = some_private(ips);
    if some_proxied(ips, cf) {
        let wants_direct: bool = match proxied_hint {
            Some(hint) => !hint,
            None => false,
        };
        if wants_direct {
            return DnsExpectation {
                status: CheckStatus::Fail,
                detail: host.to_owned().concat(
                    " resolves to a Cloudflare proxy IP but the manifest declares `dns = { proxied = false }` (grey cloud expected)",
                ),
                remedy: Some(
                    "in the Cloudflare dashboard, set the DNS record for ".to_owned().concat(host).concat(
                        " to 'DNS only' (grey cloud) so traffic reaches the origin directly",
                    ),
                ),
            };
        }
        if same(tls_strategy, "internal") || same(tls_strategy, "tailscale") || private {
            return DnsExpectation {
                status: CheckStatus::Fail,
                detail: host.to_owned().concat(
                    " resolves to a Cloudflare proxy IP (orange cloud) but the origin is on a tailnet/private network (tls=",
                ).concat(tls_strategy).concat(
                    ") \u{2014} Cloudflare's proxy cannot reach a 100.x / RFC1918 origin",
                ),
                remedy: Some(
                    "in the Cloudflare dashboard, set the DNS record for ".to_owned().concat(host).concat(
                        " to 'DNS only' (grey cloud) so traffic reaches the tailnet origin directly, or move the origin to a publicly routable address",
                    ),
                ),
            };
        }
        return DnsExpectation {
            status: CheckStatus::Pass,
            detail: host.to_owned().concat(
                " resolves to a Cloudflare proxy IP (orange cloud) \u{2014} origin is public",
            ),
            remedy: None,
        };
    }
    if private {
        return DnsExpectation {
            status: CheckStatus::Warn,
            detail: host.to_owned().concat(
                " resolves to a private/CGNAT origin \u{2014} not reachable from the public internet (fine behind Cloudflare proxy; problematic if served directly)",
            ),
            remedy: Some(
                "if ".to_owned().concat(host).concat(
                    " should be public, point its DNS at a public IP or grey-cloud a Cloudflare record; if it is intentionally tailnet-only, this is expected",
                ),
            ),
        };
    }
    DnsExpectation {
        status: CheckStatus::Pass,
        detail: host.to_owned().concat(" resolves to a direct public origin IP"),
        remedy: None,
    }
}

/// Every judgement that is not a pass says what to do about it, and a pass does
/// not.
pub proof fn every_problem_has_a_remedy(
    bridge: Seq<char>,
    output: Seq<char>,
    host: Seq<char>,
    ips: Seq<IpAddr>,
    tls: Seq<char>,
    proxied_hint: Option<bool>,
    cf: CidrSet,
    dns_error: bool,
)
    ensures
        ufw_judged(bridge, output).status != CheckStatus::Pass <==> ufw_judged(bridge, output).remedy is Some,
        dns_judged(host, ips, tls, proxied_hint, cf, dns_error).status != CheckStatus::Pass <==> dns_judged(
            host,
            ips,
            tls,
            proxied_hint,
            cf,
            dns_error,
        ).remedy is Some,
{
}

// ── The proxy's ranges ──────────────────────────────────────────────────────

/// Ranges with those of the lines of a text behind them.
pub open spec fn with_lines(
    list: Seq<crate::ip::RangeView>,
    ls: Seq<Seq<char>>,
    v6: bool,
) -> Seq<crate::ip::RangeView>
    decreases ls.len(),
{
    if ls.len() == 0 {
        list
    } else {
        crate::ip::with_range(
            with_lines(list, ls.drop_last(), v6),
            crate::ip::cidr_range(trimmed(ls.last())),
            v6,
        )
    }
}

fn add_lines(set: &mut CidrSet, text: &str)
    ensures
        final(set).v4_ranges() == with_lines(old(set).v4_ranges(), lines(text@), false),
        final(set).v6_ranges() == with_lines(old(set).v6_ranges(), lines(text@), true),
{
    let ls = split_lines(text);
    let ghost all = texts(ls@);
    let mut i: usize = 0;
    while i < ls.len()
        invariant
            i <= ls@.len(),
            all == texts(ls@),
            set.v4_ranges() == with_lines(old(set).v4_ranges(), all.take(i as int), false),
            set.v6_ranges() == with_lines(old(set).v6_ranges(), all.take(i as int), true),
        decreases ls@.len() - i,
    {
        assert(all.take(i + 1).drop_last() =~= all.take(i as int));
        assert(all.take(i + 1).last() == ls@[i as int]@);
        let line = trim(ls[i].as_str());
        let _skipped = set.add(line.as_str());
        i = i + 1;
    }
    assert(all.take(i as int) =~= all);
}

/// The ranges of a kind in what was fetched.
pub open spec fn fetched_ranges(v4: Seq<char>, v6: Seq<char>, kind: bool) -> Seq<crate::ip::RangeView> {
    with_lines(with_lines(seq![], lines(v4), kind), lines(v6), kind)
}

/// The proxy's ranges from the two lists that it publishes, and whether the
/// bundled ones were taken instead: when a list could not be had, or neither
/// holds a range.
pub fn ranges_from(v4: Option<&str>, v6: Option<&str>) -> (r: (CidrSet, bool))
    ensures
        r.1 <==> v4 is None || v6 is None || (fetched_ranges(v4->0@, v6->0@, false).len() == 0 && fetched_ranges(
            v4->0@,
            v6->0@,
            true,
        ).len() == 0),
        !r.1 ==> r.0.v4_ranges() == fetched_ranges(v4->0@, v6->0@, false) && r.0.v6_ranges() == fetched_ranges(
            v4->0@,
            v6->0@,
            true,
        ),
        r.1 ==> r.0.v4_ranges() == crate::ip::ranges_of(CLOUDFLARE_RANGE_SNAPSHOT@, false) && r.0.v6_ranges()
            == crate::ip::ranges_of(CLOUDFLARE_RANGE_SNAPSHOT@, true),
{
    match (v4, v6) {
        (Some(a), Some(b)) => {
            let mut set = CidrSet::new();
            add_lines(&mut set, a);
            add_lines(&mut set, b);
            if !set.is_empty() {
                return (set, false);
            }
        },
        _ => {},
    }
    (CidrSet::from_cidrs(&CLOUDFLARE_RANGE_SNAPSHOT), true)
}

// ── Laws ────────────────────────────────────────────────────────────────────

/// As many checks are counted for a status as have it.
pub proof fn a_count_is_of_those_that_have_it(checks: Seq<VerificationCheck>, status: CheckStatus)
    ensures
        count_of(checks, status) == checks.filter(|c: VerificationCheck| c.status == status).len(),
    decreases checks.len(),
{
    reveal(Seq::filter);
    if checks.len() > 0 {
        a_count_is_of_those_that_have_it(checks.drop_last(), status);
    }
}

/// The text of checks is that of those before a check, its own, and that of
/// those behind it.
proof fn checks_are_shown_in_order(checks: Seq<VerificationCheck>, i: int)
    requires
        0 <= i < checks.len(),
    ensures
        exists|rest: Seq<char>|
            checks_text(checks) == checks_text(checks.take(i)) + check_text(checks[i]) + rest,
    decreases checks.len(),
{
    let init = checks.drop_last();
    if i == checks.len() - 1 {
        let none: Seq<char> = seq![];
        assert(checks.take(i) =~= init);
        assert(checks_text(checks) =~= checks_text(checks.take(i)) + check_text(checks[i]) + none);
    } else {
        checks_are_shown_in_order(init, i);
        assert(init.take(i) =~= checks.take(i));
        assert(init[i] == checks[i]);
        let part = checks_text(checks.take(i)) + check_text(checks[i]);
        let rest = choose|rest: Seq<char>| checks_text(init) == part + rest;
        let more = rest + check_text(checks.last());
        assert(checks_text(checks) =~= part + more);
    }
}

/// Every check is shown, with its sign, its label, its detail and its remedy.
pub proof fn every_check_is_shown(checks: Seq<VerificationCheck>, i: int)
    requires
        0 <= i < checks.len(),
    ensures
        exists|front: Seq<char>, back: Seq<char>| #[trigger]
            stands_in(
                report_text(checks),
                front,
                "  "@ + checks[i].status.sign() + " "@ + checks[i].label@ + " \u{2014} "@ + checks[i].detail@ + "\n"@,
                back,
            ) && (checks[i].remedy matches Some(r) ==> exists|rest: Seq<char>|
                back == "     \u{2192} "@ + r@ + "\n"@ + rest),
{
    checks_are_shown_in_order(checks, i);
    let c = checks[i];
    let before = checks_text(checks.take(i));
    let rest = choose|rest: Seq<char>| checks_text(checks) == before + check_text(c) + rest;
    let line = "  "@ + c.status.sign() + " "@ + c.label@ + " \u{2014} "@ + c.detail@ + "\n"@;
    let hint: Seq<char> = match c.remedy {
        Some(r) => "     \u{2192} "@ + r@ + "\n"@,
        None => seq![],
    };
    let heading = "\nVerification:\n"@;
    let tail = choose|tail: Seq<char>| report_text(checks) == heading + checks_text(checks) + tail;
    a_report_begins_with_its_checks(checks);
    assert(check_text(c) == line + hint);
    regrouped(heading, before, line, hint, rest, tail);
    let front = heading + before;
    let end = rest + tail;
    let back = hint + end;
    assert(stands_in(report_text(checks), front, line, back));
    if let Some(r) = c.remedy {
        assert(back == "     \u{2192} "@ + r@ + "\n"@ + end);
    }
}

proof fn regrouped(
    heading: Seq<char>,
    before: Seq<char>,
    line: Seq<char>,
    hint: Seq<char>,
    rest: Seq<char>,
    tail: Seq<char>,
)
    ensures
        heading + (before + (line + hint) + rest) + tail == heading + before + line + (hint + (rest + tail)),
{
    assert(heading + (before + (line + hint) + rest) + tail =~= heading + before + line + (hint + (rest + tail)));
}

proof fn appended(front: Seq<char>, part: Seq<char>, more: Seq<char>)
    ensures
        front + part + more == front + (part + more),
{
    assert(front + part + more =~= front + (part + more));
}

proof fn a_report_begins_with_its_checks(checks: Seq<VerificationCheck>)
    ensures
        exists|tail: Seq<char>| report_text(checks) == "\nVerification:\n"@ + checks_text(checks) + tail,
{
    let x = "\nVerification:\n"@ + checks_text(checks);
    let pass = decimal(count_of(checks, CheckStatus::Pass));
    let warn = decimal(count_of(checks, CheckStatus::Warn));
    let fail = decimal(count_of(checks, CheckStatus::Fail));
    let skipped = decimal(count_of(checks, CheckStatus::Skipped));
    let a = "\n"@ + pass;
    appended(x, "\n"@, pass);
    appended(x, a, " passed, "@);
    let b = a + " passed, "@;
    appended(x, b, warn);
    let c = b + warn;
    appended(x, c, " warn, "@);
    let d = c + " warn, "@;
    appended(x, d, fail);
    let e = d + fail;
    appended(x, e, " failed, "@);
    let f = e + " failed, "@;
    appended(x, f, skipped);
    let g = f + skipped;
    appended(x, g, " skipped"@);
    let tail = g + " skipped"@;
    assert(report_text(checks) == x + tail);
}

/// An entry of a list of ports lets DNS in if it is the port 53, or a range
/// with the port 53 in it.
pub proof fn which_ports_let_dns_in(port: nat, first: nat, last: nat)
    ensures
        covers_dns(decimal(port)) <==> port == 53,
        covers_dns(decimal(first) + seq![':'] + decimal(last)) <==> first <= 53 <= last,
{
    crate::text::decimal_reads_back(port);
    crate::text::decimal_reads_back(first);
    crate::text::decimal_reads_back(last);
    let one = decimal(port);
    assert forall|m: int| 0 <= m < one.len() implies #[trigger] one[m] != ':' by {
        assert(is_digit(one[m]));
    }
    let a = decimal(first);
    let b = decimal(last);
    let range = a + seq![':'] + b;
    let at: int = a.len() as int;
    assert(range[at] == ':');
    assert(!is_digit(range[at]));
    assert(!all_digits(range));
    assert(range.take(at) =~= a);
    assert(range.skip(at + 1) =~= b);
    assert forall|m: int| 0 <= m < range.len() && #[trigger] range[m] == ':' implies m == at by {
        if m < at {
            assert(is_digit(a[m]));
            assert(range[m] == a[m]);
        } else if m > at {
            assert(is_digit(b[m - at - 1]));
            assert(range[m] == b[m - at - 1]);
        }
    }
}

/// A firewall that is on passes exactly if a line of its status lets DNS in on
/// the bridge; without a bridge, or without such a line, it fails. One that is
/// off is warned of.
pub proof fn a_firewall_needs_a_rule(bridge: Seq<char>, output: Seq<char>)
    ensures
        ({
            let status = ufw_judged(bridge, output).status;
            let off = has_text(lowered(output), "status: inactive"@);
            &&& off <==> status == CheckStatus::Warn
            &&& !off && bridge.len() == 0 ==> status == CheckStatus::Fail
            &&& !off && bridge.len() > 0 ==> (status == CheckStatus::Pass <==> exists|i: int|
                0 <= i < lines(lowered(output)).len() && is_dns_rule(
                    #[trigger] lines(lowered(output))[i],
                    lowered(bridge),
                ))
            &&& status == CheckStatus::Pass || status == CheckStatus::Warn || status == CheckStatus::Fail
        }),
{
}

/// The private networks, by the octets of an address.
pub proof fn which_addresses_are_private(a: nat, b: nat, c: nat, d: nat, n: u32)
    requires
        a < 256 && b < 256 && c < 256 && d < 256,
        n == a * 0x100_0000 + b * 0x1_0000 + c * 0x100 + d,
    ensures
        is_private(IpAddr::V4(n)) <==> {
            ||| a == 127
            ||| a == 10
            ||| a == 172 && 16 <= b < 32
            ||| a == 192 && b == 168
            ||| a == 169 && b == 254
            ||| a == 100 && 64 <= b < 128
        },
{
}

/// The private networks of addresses of groups, by the first group; the address
/// of the host itself and the one that stands for any are private too.
pub proof fn which_groups_are_private(first: nat, rest: nat, n: u128)
    requires
        first < 0x1_0000,
        rest < 0x1_0000_0000_0000_0000_0000_0000_0000,
        n == first * 0x1_0000_0000_0000_0000_0000_0000_0000 + rest,
    ensures
        is_private(IpAddr::V6(n)) <==> n <= 1 || 0xfc00 <= first < 0xfe00 || 0xfe80 <= first < 0xfec0,
{
}

/// How a host is judged, by where its addresses lead: one that does not resolve
/// is warned of; one behind the proxy fails if it is meant not to be proxied, or
/// if the proxy cannot reach it, and else passes; one that only leads to private
/// addresses is warned of, and any other passes. A broken resolver fails.
pub proof fn how_a_host_is_judged(
    host: Seq<char>,
    ips: Seq<IpAddr>,
    tls: Seq<char>,
    proxied_hint: Option<bool>,
    cf: CidrSet,
    i: int,
    k: int,
)
    ensures
        dns_judged(host, ips, tls, proxied_hint, cf, true).status == CheckStatus::Fail,
        ips.len() == 0 ==> dns_judged(host, ips, tls, proxied_hint, cf, false).status == CheckStatus::Warn,
        0 <= i < ips.len() && leads_to(ips[i], cf) == DnsClass::Proxied ==> {
            let status = dns_judged(host, ips, tls, proxied_hint, cf, false).status;
            &&& proxied_hint == Some(false) ==> status == CheckStatus::Fail
            &&& tls == "internal"@ || tls == "tailscale"@ ==> status == CheckStatus::Fail
            &&& 0 <= k < ips.len() && is_private(ips[k]) ==> status == CheckStatus::Fail
            &&& proxied_hint != Some(false) && tls != "internal"@ && tls != "tailscale"@ && (forall|j: int|
                0 <= j < ips.len() ==> !is_private(#[trigger] ips[j])) ==> status == CheckStatus::Pass
        },
        (forall|j: int| 0 <= j < ips.len() ==> leads_to(#[trigger] ips[j], cf) != DnsClass::Proxied) ==> {
            let status = dns_judged(host, ips, tls, proxied_hint, cf, false).status;
            &&& 0 <= k < ips.len() && leads_to(ips[k], cf) == DnsClass::PrivateOrigin ==> status == CheckStatus::Warn
            &&& ips.len() > 0 && (forall|j: int|
                0 <= j < ips.len() ==> leads_to(#[trigger] ips[j], cf) == DnsClass::Direct) ==> status
                == CheckStatus::Pass
        },
{
    let status = dns_judged(host, ips, tls, proxied_hint, cf, false).status;
    if 0 <= i < ips.len() && leads_to(ips[i], cf) == DnsClass::Proxied {
        assert(cf.covers(ip_view(ips[i])));
        assert(any_proxied(ips, cf));
        if 0 <= k < ips.len() && is_private(ips[k]) {
            assert(any_private(ips));
        }
    }
    if forall|j: int| 0 <= j < ips.len() ==> leads_to(#[trigger] ips[j], cf) != DnsClass::Proxied {
        assert(!any_proxied(ips, cf)) by {
            if any_proxied(ips, cf) {
                let j = choose|j: int| 0 <= j < ips.len() && cf.covers(ip_view(#[trigger] ips[j]));
                assert(leads_to(ips[j], cf) == DnsClass::Proxied);
            }
        }
        if 0 <= k < ips.len() && leads_to(ips[k], cf) == DnsClass::PrivateOrigin {
            assert(is_private(ips[k]));
            assert(any_private(ips));
        }
        if forall|j: int| 0 <= j < ips.len() ==> leads_to(#[trigger] ips[j], cf) == DnsClass::Direct {
            assert(!any_private(ips)) by {
                if any_private(ips) {
                    let j = choose|j: int| 0 <= j < ips.len() && is_private(#[trigger] ips[j]);
                    assert(leads_to(ips[j], cf) == DnsClass::Direct);
                }
            }
        }
    }
}

/// What a report says of a check stands under the keys that name it.
pub proof fn a_check_is_reported(c: VerificationCheck)
    ensures
        check_view(c) is Object,
        ({
            let o = check_view(c)->Object_0;
            &&& o.contains_key("name"@) && o["name"@] == JsonView::Str(c.name@)
            &&& o.contains_key("label"@) && o["label"@] == JsonView::Str(c.label@)
            &&& o.contains_key("status"@) && o["status"@] == JsonView::Str(c.status.name())
            &&& o.contains_key("detail"@) && o["detail"@] == JsonView::Str(c.detail@)
            &&& o.contains_key("remedy"@) <==> c.remedy is Some
            &&& c.remedy matches Some(r) ==> o["remedy"@] == JsonView::Str(r@)
        }),
{
    reveal_strlit("name");
    reveal_strlit("label");
    reveal_strlit("status");
    reveal_strlit("detail");
    reveal_strlit("remedy");
    assert("name"@.len() == 4 && "label"@.len() == 5 && "status"@.len() == 6 && "detail"@.len() == 6 && "remedy"@.len()
        == 6);
    assert("status"@[0] == 's' && "detail"@[0] == 'd' && "remedy"@[0] == 'r');
}

/// What a report says of an action stands under the keys that name it.
pub proof fn an_action_is_reported(a: DoctorAction)
    ensures
        action_view(a) is Object,
        ({
            let o = action_view(a)->Object_0;
            &&& o.contains_key("name"@) && o["name"@] == JsonView::Str(a.name@)
            &&& o.contains_key("command"@) && o["command"@] == JsonView::Str(a.command@)
            &&& o.contains_key("status"@) && o["status"@] == JsonView::Str(a.status@)
            &&& o.contains_key("rollback"@) <==> a.rollback is Some
            &&& a.rollback matches Some(r) ==> o["rollback"@] == JsonView::Str(r@)
        }),
{
    reveal_strlit("name");
    reveal_strlit("command");
    reveal_strlit("status");
    reveal_strlit("rollback");
    assert("name"@.len() == 4 && "command"@.len() == 7 && "status"@.len() == 6 && "rollback"@.len() == 8);
}

/// A report holds every check and every action, in order, and the counts under
/// the names of their statuses.
pub proof fn a_report_holds_its_checks(r: DoctorReport)
    ensures
        report_view(r) is Object,
        ({
            let o = report_view(r)->Object_0;
            &&& o.contains_key("schema"@) && o["schema"@] == JsonView::Str(r.schema@)
            &&& o.contains_key("checks"@) && (o["checks"@] matches JsonView::Array(v) && v.len() == r.checks@.len()
                && forall|i: int| 0 <= i < r.checks@.len() ==> #[trigger] v[i] == check_view(r.checks@[i]))
            &&& o.contains_key("actions"@) <==> r.actions is Some
            &&& r.actions matches Some(a) ==> (o["actions"@] matches JsonView::Array(v) && v.len() == a@.len()
                && forall|i: int| 0 <= i < a@.len() ==> #[trigger] v[i] == action_view(a@[i]))
            &&& o.contains_key("summary"@) && (o["summary"@] matches JsonView::Object(s) && {
                &&& s.contains_key("pass"@) && s["pass"@] == count_view(r.summary.pass)
                &&& s.contains_key("warn"@) && s["warn"@] == count_view(r.summary.warn)
                &&& s.contains_key("fail"@) && s["fail"@] == count_view(r.summary.fail)
                &&& s.contains_key("skipped"@) && s["skipped"@] == count_view(r.summary.skipped)
            })
        }),
{
    reveal_strlit("schema");
    reveal_strlit("generated_at");
    reveal_strlit("summary");
    reveal_strlit("checks");
    reveal_strlit("actions");
    reveal_strlit("pass");
    reveal_strlit("warn");
    reveal_strlit("fail");
    reveal_strlit("skipped");
    assert("schema"@.len() == 6 && "generated_at"@.len() == 12 && "summary"@.len() == 7 && "checks"@.len() == 6
        && "actions"@.len() == 7);
    assert("schema"@[0] == 's' && "checks"@[0] == 'c' && "summary"@[0] == 's' && "actions"@[0] == 'a');
    assert("pass"@.len() == 4 && "warn"@.len() == 4 && "fail"@.len() == 4 && "skipped"@.len() == 7);
    assert("pass"@[0] == 'p' && "warn"@[0] == 'w' && "fail"@[0] == 'f');
}

proof fn returns_stay_behind_a_tab(head: Seq<char>, rest: Seq<char>)
    requires
        head.len() > 0,
        head.last() != '\r',
    ensures
        exists|n: int| 0 <= n <= rest.len() && without_returns(head + rest) == head + rest.take(n),
    decreases rest.len(),
{
    let s = head + rest;
    if rest.len() == 0 {
        assert(s =~= head);
        assert(s == head + rest.take(0));
    } else if rest.last() == '\r' {
        let init = rest.drop_last();
        assert(s.drop_last() =~= head + init);
        assert(s.last() == '\r');
        returns_stay_behind_a_tab(head, init);
        let n = choose|n: int| 0 <= n <= init.len() && without_returns(head + init) == head + init.take(n);
        assert(init.take(n) =~= rest.take(n));
        assert(without_returns(s) == head + rest.take(n));
    } else {
        assert(s.last() == rest.last());
        assert(s == head + rest.take(rest.len() as int)) by {
            assert(rest.take(rest.len() as int) =~= rest);
        }
    }
}

/// A module is listed by the whole of what precedes the first tab of a line, or
/// by the whole line.
pub proof fn a_module_is_listed_by_its_whole_id(id: Seq<char>, rest: Seq<char>)
    requires
        !id.contains('\t'),
        id.len() > 0 ==> id.last() != '\r',
    ensures
        first_field(id) == id,
        first_field(id.push('\t') + rest) == id,
{
    id.index_of_first_ensures('\t');
    let head = id.push('\t');
    returns_stay_behind_a_tab(head, rest);
    let n = choose|n: int| 0 <= n <= rest.len() && without_returns(head + rest) == head + rest.take(n);
    let s = head + rest.take(n);
    assert(s[id.len() as int] == '\t');
    assert(s.contains('\t'));
    s.index_of_first_ensures('\t');
    let i = s.index_of_first('\t')->0;
    if i < id.len() {
        assert(id[i] == s[i]);
        assert(id.contains('\t'));
    }
    assert(i <= id.len()) by {
        if i > id.len() {
            assert(s[id.len() as int] != '\t');
        }
    }
    assert(s.take(i) =~= id);
}

} // verus!
