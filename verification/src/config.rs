//! Settings from the environment.

use crate::scan;
use crate::scan::{chars_of, text_of, trim_text, CharClass};
use crate::text;
use vstd::prelude::*;

verus! {

/// Texts that mean yes.
pub const YES: [&'static str; 4] = ["1", "true", "yes", "on"];

/// Where the notes service is by default.
pub const DEFAULT_NOTES_URL: &'static str = "http://elowen-notes:8080";

/// The model that answers by default.
pub const DEFAULT_ASSISTANT_MODEL: &'static str = "gpt-4.1-mini";

/// Where the assistant is by default.
pub const DEFAULT_ASSISTANT_URL: &'static str = "https://api.openai.com/v1";

/// What the operator is called by default.
pub const DEFAULT_OPERATOR_LABEL: &'static str = "Operator";

/// The cookie by default.
pub const DEFAULT_COOKIE_NAME: &'static str = "elowen_session";

/// How many days a session lasts by default.
pub const DEFAULT_SESSION_DAYS: u64 = 14;

/// The port by default.
pub const DEFAULT_PORT: u16 = 8080;

/// Whether the text means yes.
pub open spec fn means_yes(value: Seq<char>) -> bool {
    text::is_any(text::lower(text::trim(value)), YES@)
}

/// Whether the text means yes.
pub fn parse_bool(value: &str) -> (r: bool)
    ensures
        r == means_yes(value@),
{
    let yes = YES;
    scan::is_any(scan::lower_text(trim_text(value).as_str()).as_str(), yes.as_slice())
}

// ---------------------------------------------------------------------------
// Numbers
// ---------------------------------------------------------------------------

/// The value of a decimal digit.
pub open spec fn digit_value(c: char) -> Option<nat> {
    if '0' <= c <= '9' {
        Some((c as u32 - 48) as nat)
    } else {
        None
    }
}

/// The number that the digits stand for; `None` where one is no digit.
pub open spec fn digits_value(s: Seq<char>) -> Option<nat>
    decreases s.len(),
{
    if s.len() == 0 {
        Some(0)
    } else {
        match (digits_value(s.drop_last()), digit_value(s.last())) {
            (Some(n), Some(d)) => Some(n * 10 + d),
            _ => None,
        }
    }
}

/// The digits of a number, behind the plus sign that it may have.
pub open spec fn unsigned_digits(s: Seq<char>) -> Seq<char> {
    if s.len() > 0 && s[0] == '+' {
        s.drop_first()
    } else {
        s
    }
}

/// The number that a text stands for, where it is at most `max`.
pub open spec fn unsigned_value(s: Seq<char>, max: nat) -> Option<nat> {
    let digits = unsigned_digits(s);
    if digits.len() == 0 {
        None
    } else {
        match digits_value(digits) {
            Some(n) => if n <= max {
                Some(n)
            } else {
                None
            },
            None => None,
        }
    }
}

proof fn lemma_no_number(s: Seq<char>, n: int)
    requires
        0 <= n <= s.len(),
        digits_value(s.take(n)) is None,
    ensures
        digits_value(s) is None,
    decreases s.len() - n,
{
    if n < s.len() {
        assert(s.take(n + 1).drop_last() =~= s.take(n));
        lemma_no_number(s, n + 1);
    } else {
        assert(s.take(n) =~= s);
    }
}

proof fn lemma_number_grows(s: Seq<char>, n: int)
    requires
        0 <= n <= s.len(),
        digits_value(s.take(n)) is Some,
    ensures
        digits_value(s) matches Some(v) ==> v >= digits_value(s.take(n)).unwrap(),
    decreases s.len() - n,
{
    if n < s.len() {
        assert(s.take(n + 1).drop_last() =~= s.take(n));
        if digits_value(s.take(n + 1)) is None {
            lemma_no_number(s, n + 1);
        } else {
            lemma_number_grows(s, n + 1);
        }
    } else {
        assert(s.take(n) =~= s);
    }
}

/// The number that a text stands for, where it is at most `max`.
pub fn parse_unsigned(value: &str, max: u64) -> (r: Option<u64>)
    ensures
        match r {
            Some(n) => unsigned_value(value@, max as nat) == Some(n as nat),
            None => unsigned_value(value@, max as nat) is None,
        },
{
    let chars = chars_of(value);
    let ghost digits = unsigned_digits(value@);
    let start: usize = if chars.len() > 0 && chars[0] == '+' {
        1
    } else {
        0
    };
    assert(digits =~= chars@.skip(start as int));
    if start == chars.len() {
        return None;
    }
    let mut total: u64 = 0;
    let mut i: usize = start;
    assert(digits.take(0) =~= Seq::<char>::empty());
    while i < chars.len()
        invariant
            start <= i <= chars@.len(),
            start < chars@.len(),
            digits == unsigned_digits(value@),
            digits == chars@.skip(start as int),
            digits_value(digits.take(i - start)) == Some(total as nat),
            total <= max,
        decreases chars@.len() - i,
    {
        let ghost done = (i - start) as int;
        assert(digits.take(done + 1).drop_last() =~= digits.take(done));
        assert(digits[done] == chars@[i as int]);
        let c = chars[i];
        if !('0' <= c && c <= '9') {
            proof {
                lemma_no_number(digits, done + 1);
            }
            return None;
        }
        let digit: u64 = (c as u32 - 48) as u64;
        if total > (u64::MAX - digit) / 10 || total * 10 + digit > max {
            proof {
                assert(digits_value(digits.take(done + 1)) == Some(
                    (total * 10 + digit) as nat,
                ));
                lemma_number_grows(digits, done + 1);
            }
            return None;
        }
        total = total * 10 + digit;
        i += 1;
    }
    assert(digits.take(i - start) =~= digits);
    Some(total)
}

// ---------------------------------------------------------------------------
// Lists
// ---------------------------------------------------------------------------

/// What `serde_json::from_str` reads as a list of strings.
pub uninterp spec fn string_array(value: Seq<char>) -> Option<Seq<Seq<char>>>;

/// Calls `serde_json::from_str` for a `Vec<String>`. The result depends on the
/// text alone.
#[verifier::external_body]
fn read_string_array(value: &str) -> (r: Option<Vec<String>>)
    ensures
        match r {
            Some(list) => string_array(value@) == Some(text::views(list@)),
            None => string_array(value@) is None,
        },
{
    serde_json::from_str::<Vec<String>>(value).ok()
}

/// The texts of a list that say anything, trimmed.
pub open spec fn said(list: text::Texts) -> text::Texts {
    text::non_empty(text::trimmed(list))
}

/// The texts of a list: a JSON array where it begins like one, else texts with
/// commas between them. `array` is what was read as an array.
pub open spec fn listed(value: Seq<char>, array: Option<text::Texts>) -> Option<text::Texts> {
    if text::starts_with(text::trim(value), "["@) {
        match array {
            Some(list) => Some(said(list)),
            None => None,
        }
    } else {
        Some(said(text::split_by(value, text::just(','))))
    }
}

fn said_texts(parts: Vec<Vec<char>>) -> (r: Vec<String>)
    ensures
        text::views(r@) == said(scan::lists(parts@)),
{
    let kept = scan::non_empty(scan::trimmed(parts));
    let ghost model = scan::lists(kept@);
    let mut out: Vec<String> = Vec::new();
    let mut i: usize = 0;
    assert(text::views(out@) =~= model.take(0));
    while i < kept.len()
        invariant
            i <= kept@.len(),
            model == scan::lists(kept@),
            text::views(out@) == model.take(i as int),
        decreases kept@.len() - i,
    {
        let item = text_of(kept[i].as_slice());
        assert(model.take(i + 1) =~= model.take(i as int).push(item@));
        scan::push_line(&mut out, item);
        i += 1;
    }
    assert(model.take(i as int) =~= model);
    out
}

/// The texts of a list. `array` is what was read of it as a JSON array.
pub fn list_from(value: &str, array: Option<Vec<String>>) -> (r: Option<Vec<String>>)
    ensures
        match r {
            Some(list) => listed(
                value@,
                match array {
                    Some(a) => Some(text::views(a@)),
                    None => None,
                },
            ) == Some(text::views(list@)),
            None => listed(
                value@,
                match array {
                    Some(a) => Some(text::views(a@)),
                    None => None,
                },
            ) is None,
        },
{
    let trimmed = trim_text(value);
    if scan::starts_with(chars_of(trimmed.as_str()).as_slice(), chars_of("[").as_slice()) {
        let array = match array {
            Some(array) => array,
            None => return None,
        };
        let mut parts: Vec<Vec<char>> = Vec::new();
        let mut i: usize = 0;
        assert(scan::lists(parts@) =~= text::views(array@).take(0));
        while i < array.len()
            invariant
                i <= array@.len(),
                scan::lists(parts@) == text::views(array@).take(i as int),
            decreases array@.len() - i,
        {
            let ghost before = scan::lists(parts@);
            let item = chars_of(array[i].as_str());
            parts.push(item);
            assert(scan::lists(parts@) =~= before.push(item@));
            assert(text::views(array@).take(i + 1) =~= text::views(array@).take(i as int).push(
                item@,
            ));
            i += 1;
        }
        assert(text::views(array@).take(i as int) =~= text::views(array@));
        Some(said_texts(parts))
    } else {
        Some(said_texts(scan::split_by(chars_of(value).as_slice(), &CharClass::Just(','))))
    }
}

/// The texts of a list that is written as a JSON array or with commas; `None`
/// where it begins like an array and is none.
pub fn parse_list(value: &str) -> (r: Option<Vec<String>>)
    ensures
        match r {
            Some(list) => listed(value@, string_array(value@)) == Some(text::views(list@)),
            None => listed(value@, string_array(value@)) is None,
        },
{
    let array = read_string_array(value);
    list_from(value, array)
}

/// One text and the texts of a list, one after the other.
pub open spec fn one_and_many(one: Option<Seq<char>>, many: text::Texts) -> text::Texts {
    text::with_line(Seq::empty(), text::present(one)) + many
}

/// One text and the texts of a list, one after the other.
pub fn join_settings(one: Option<&str>, many: Vec<String>) -> (r: Vec<String>)
    ensures
        text::views(r@) == one_and_many(text::opt_str(one), text::views(many@)),
{
    let mut out: Vec<String> = Vec::new();
    assert(text::views(out@) =~= Seq::empty());
    if let Some(one) = one {
        let trimmed = trim_text(one);
        if chars_of(trimmed.as_str()).len() > 0 {
            scan::push_line(&mut out, trimmed);
        }
    }
    let ghost before = text::views(out@);
    let mut many = many;
    let ghost rest = text::views(many@);
    out.append(&mut many);
    assert(text::views(out@) =~= before + rest);
    out
}

// ---------------------------------------------------------------------------
// All settings
// ---------------------------------------------------------------------------

/// The settings as they stand in the environment.
#[derive(Debug)]
pub struct RawSettings {
    pub notes_url: Option<String>,
    pub assistant_api_key: Option<String>,
    pub assistant_model: Option<String>,
    pub assistant_base_url: Option<String>,
    pub auth_config_path: Option<String>,
    pub auth_password: Option<String>,
    pub auth_operator_label: Option<String>,
    pub auth_cookie_name: Option<String>,
    pub auth_cookie_secure: Option<String>,
    pub auth_session_days: Option<String>,
    pub require_trusted_edge_registration: Option<String>,
    pub port: Option<String>,
}

/// The settings that the service runs with.
#[derive(Debug)]
pub struct Settings {
    pub notes_url: String,
    pub assistant_api_key: Option<String>,
    pub assistant_model: String,
    pub assistant_base_url: String,
    pub auth_config_path: Option<String>,
    pub auth_password: Option<String>,
    pub auth_operator_label: String,
    pub auth_cookie_name: String,
    pub auth_cookie_secure: bool,
    pub auth_session_days: u64,
    pub require_trusted_edge_registration: bool,
    pub port: u16,
}

/// An address without the slashes at its end.
pub open spec fn base_url(value: Option<String>, fallback: Seq<char>) -> Seq<char> {
    text::trim_end_by(text::or_value(text::opt(value), fallback), text::just('/'))
}

/// A trimmed text, which may be empty.
pub open spec fn label(value: Option<String>, fallback: Seq<char>) -> Seq<char> {
    text::trim(text::or_value(text::opt(value), fallback))
}

/// Whether the setting is there and means yes.
pub open spec fn switched_on(value: Option<String>) -> bool {
    value matches Some(v) && means_yes(v@)
}

/// The number of a setting, or another where it is no number.
pub open spec fn number(value: Option<String>, max: nat, fallback: nat) -> nat {
    match value {
        Some(v) => text::or_value(unsigned_value(v@, max), fallback),
        None => fallback,
    }
}

fn read_base_url(value: Option<String>, fallback: &str) -> (r: String)
    ensures
        r@ == base_url(value, fallback@),
{
    let chars = match value {
        Some(value) => chars_of(value.as_str()),
        None => chars_of(fallback),
    };
    text_of(scan::trim_end_by(chars.as_slice(), &CharClass::Just('/')))
}

fn read_label(value: Option<String>, fallback: &str) -> (r: String)
    ensures
        r@ == label(value, fallback@),
{
    match value {
        Some(value) => trim_text(value.as_str()),
        None => trim_text(fallback),
    }
}

fn read_optional(value: Option<String>) -> (r: Option<String>)
    ensures
        text::opt(r) == text::present(text::opt(value)),
{
    crate::formatting::sanitize_optional_string(value)
}

fn read_switch(value: Option<String>) -> (r: bool)
    ensures
        r == switched_on(value),
{
    match value {
        Some(value) => parse_bool(value.as_str()),
        None => false,
    }
}

fn read_number(value: Option<String>, max: u64, fallback: u64) -> (r: u64)
    requires
        fallback <= max,
    ensures
        r == number(value, max as nat, fallback as nat),
        r <= max,
{
    match value {
        Some(value) => match parse_unsigned(value.as_str(), max) {
            Some(n) => n,
            None => fallback,
        },
        None => fallback,
    }
}

impl Settings {
    /// The settings that the environment asks for.
    pub fn read(raw: RawSettings) -> (r: Settings)
        ensures
            r.notes_url@ == base_url(raw.notes_url, DEFAULT_NOTES_URL@),
            text::opt(r.assistant_api_key) == text::present(text::opt(raw.assistant_api_key)),
            r.assistant_model@ == label(raw.assistant_model, DEFAULT_ASSISTANT_MODEL@),
            r.assistant_base_url@ == base_url(raw.assistant_base_url, DEFAULT_ASSISTANT_URL@),
            text::opt(r.auth_config_path) == text::present(text::opt(raw.auth_config_path)),
            text::opt(r.auth_password) == text::present(text::opt(raw.auth_password)),
            r.auth_operator_label@ == label(raw.auth_operator_label, DEFAULT_OPERATOR_LABEL@),
            r.auth_cookie_name@ == label(raw.auth_cookie_name, DEFAULT_COOKIE_NAME@),
            r.auth_cookie_secure == switched_on(raw.auth_cookie_secure),
            r.auth_session_days == number(
                raw.auth_session_days,
                u64::MAX as nat,
                DEFAULT_SESSION_DAYS as nat,
            ),
            r.require_trusted_edge_registration == switched_on(
                raw.require_trusted_edge_registration,
            ),
            r.port == number(raw.port, u16::MAX as nat, DEFAULT_PORT as nat),
    {
        Settings {
            notes_url: read_base_url(raw.notes_url, DEFAULT_NOTES_URL),
            assistant_api_key: read_optional(raw.assistant_api_key),
            assistant_model: read_label(raw.assistant_model, DEFAULT_ASSISTANT_MODEL),
            assistant_base_url: read_base_url(raw.assistant_base_url, DEFAULT_ASSISTANT_URL),
            auth_config_path: read_optional(raw.auth_config_path),
            auth_password: read_optional(raw.auth_password),
            auth_operator_label: read_label(raw.auth_operator_label, DEFAULT_OPERATOR_LABEL),
            auth_cookie_name: read_label(raw.auth_cookie_name, DEFAULT_COOKIE_NAME),
            auth_cookie_secure: read_switch(raw.auth_cookie_secure),
            auth_session_days: read_number(raw.auth_session_days, u64::MAX, DEFAULT_SESSION_DAYS),
            require_trusted_edge_registration: read_switch(raw.require_trusted_edge_registration),
            port: read_number(raw.port, u16::MAX as u64, DEFAULT_PORT as u64) as u16,
        }
    }
}

/// The address of a service: the setting of this program, else the common one.
pub fn service_url(own: Option<String>, common: Option<String>) -> (r: Option<String>)
    ensures
        text::opt(r) == text::or_else(text::opt(own), text::opt(common)),
{
    match own {
        Some(url) => Some(url),
        None => common,
    }
}

/// How many seconds a session of some days lasts.
pub fn session_ttl(days: u64) -> (r: u64)
    requires
        days * 86_400 <= u64::MAX,
    ensures
        r == days * 86_400,
{
    days * 86_400
}

/// Whether the log is written as JSON.
pub fn logs_json(format: Option<&str>) -> (r: bool)
    ensures
        r == (format matches Some(f) && text::lower(f@) == "json"@),
{
    match format {
        Some(format) => scan::same_text(scan::lower_text(format).as_str(), "json"),
        None => false,
    }
}

// ---------------------------------------------------------------------------
// Laws
// ---------------------------------------------------------------------------

/// A number that was written in decimal notation is read back.
pub proof fn law_number_comes_back(n: nat, max: nat)
    requires
        n <= max,
    ensures
        unsigned_value(text::decimal(n), max) == Some(n),
{
    lemma_decimal_digits(n);
    assert(text::decimal(n).len() > 0);
    assert(text::decimal(n)[0] != '+');
}

proof fn lemma_decimal_digits(n: nat)
    ensures
        digits_value(text::decimal(n)) == Some(n),
        text::decimal(n).len() > 0,
        '0' <= text::decimal(n)[0] <= '9',
    decreases n,
{
    let s = text::decimal(n);
    if n < 10 {
        assert(s.drop_last() =~= Seq::<char>::empty());
        assert(digits_value(s.drop_last()) == Some(0nat));
        assert(digit_value(s.last()) == Some(n));
    } else {
        lemma_decimal_digits(n / 10);
        assert(s.drop_last() =~= text::decimal(n / 10));
        assert(s[0] == text::decimal(n / 10)[0]);
        assert(digit_value(s.last()) == Some(n % 10));
    }
}

} // verus!
