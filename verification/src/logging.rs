//! Names of the log files and the filter directives of the logging set-up.

use vstd::prelude::*;
use vstd::string::StringExecFns;

verus! {

/// The decimal digit character of `d`.
pub open spec fn digit(d: nat) -> char {
    ((d % 10) + 48) as char
}

/// The decimal text of `n`, without leading zeros.
pub open spec fn decimal(n: nat) -> Seq<char>
    decreases n,
{
    if n < 10 {
        seq![digit(n)]
    } else {
        decimal(n / 10).push(digit(n % 10))
    }
}

/// `n` written with at least four digits, padded with zeros on the left.
pub open spec fn four_digits(n: nat) -> Seq<char> {
    if n < 10000 {
        seq![digit(n / 1000), digit(n / 100), digit(n / 10), digit(n)]
    } else {
        decimal(n)
    }
}

/// `n` (below one hundred) written with two digits.
pub open spec fn two_digits(n: nat) -> Seq<char> {
    seq![digit(n / 10), digit(n)]
}

/// A year as the `%Y` field of a timestamp: four digits, zero-padded, for
/// years from 0 to 9999; a sign and at least four digits otherwise.
pub open spec fn year_text(year: int) -> Seq<char> {
    if 0 <= year <= 9999 {
        four_digits(year as nat)
    } else if year < 0 {
        seq!['-'] + four_digits((-year) as nat)
    } else {
        seq!['+'] + four_digits(year as nat)
    }
}

/// A year counts 366 days in the proleptic Gregorian calendar.
pub open spec fn is_leap_year(year: int) -> bool {
    year % 4 == 0 && (year % 100 != 0 || year % 400 == 0)
}

/// The number of days of a month.
pub open spec fn days_in_month(year: int, month: nat) -> nat {
    if month == 2 {
        if is_leap_year(year) {
            29
        } else {
            28
        }
    } else if month == 4 || month == 6 || month == 9 || month == 11 {
        30
    } else {
        31
    }
}

/// A calendar date that chrono can hold: a year from -262143 to 262142, a
/// month from 1 to 12 and a day of that month.
pub open spec fn is_valid_date(year: int, month: nat, day: nat) -> bool {
    &&& -262143 <= year <= 262142
    &&& 1 <= month <= 12
    &&& 1 <= day <= days_in_month(year, month)
}

/// A timestamp in the form `%Y-%m-%dZ%H:%M:%S`: `YYYY-MM-DDZhh:mm:ss`.
pub open spec fn timestamp_text(
    year: int,
    month: nat,
    day: nat,
    hour: nat,
    minute: nat,
    second: nat,
) -> Seq<char> {
    year_text(year) + seq!['-'] + two_digits(month) + seq!['-'] + two_digits(day) + seq!['Z']
        + two_digits(hour) + seq![':'] + two_digits(minute) + seq![':'] + two_digits(second)
}

/// The name of the log file opened at the given time:
/// `YYYY-MM-DDZhh:mm:ss.log`.
pub open spec fn log_file_name_text(
    year: int,
    month: nat,
    day: nat,
    hour: nat,
    minute: nat,
    second: nat,
) -> Seq<char> {
    timestamp_text(year, month, day, hour, minute, second) + ".log"@
}

/// chrono's `NaiveDate::from_ymd_opt(..).and_hms_nano_opt(..)` on the given
/// fields, formatted with `format("%Y-%m-%dZ%H:%M:%S")`. The `requires` are
/// chrono's conditions for both constructors to give a value (a nanosecond
/// count of one second or more marks a leap second, allowed only on second
/// 59). The claim is chrono's `%Y` rule (four zero-padded digits for years 0
/// to 9999, else a sign and at least four digits), two zero-padded digits for
/// the other fields, and a leap second shown as second 60.
#[verifier::external_body]
fn format_timestamp(
    year: i32,
    month: u32,
    day: u32,
    hour: u32,
    minute: u32,
    second: u32,
    nanosecond: u32,
) -> (text: String)
    requires
        is_valid_date(year as int, month as nat, day as nat),
        hour < 24,
        minute < 60,
        second < 60,
        nanosecond < 2_000_000_000,
        nanosecond >= 1_000_000_000 ==> second == 59,
    ensures
        text@ == timestamp_text(
            year as int,
            month as nat,
            day as nat,
            hour as nat,
            minute as nat,
            (second + nanosecond / 1_000_000_000) as nat,
        ),
{
    chrono::NaiveDate::from_ymd_opt(year, month, day)
        .unwrap()
        .and_hms_nano_opt(hour, minute, second, nanosecond)
        .unwrap()
        .format("%Y-%m-%dZ%H:%M:%S")
        .to_string()
}

/// The name of the timestamped log file opened at start-up, from the local
/// date and time: `YYYY-MM-DDZhh:mm:ss.log`. A leap second is given and shown
/// as second 60.
pub fn log_file_name(year: i32, month: u32, day: u32, hour: u32, minute: u32, second: u32) -> (name: String)
    requires
        is_valid_date(year as int, month as nat, day as nat),
        hour < 24,
        minute < 60,
        second <= 60,
    ensures
        name@ == log_file_name_text(
            year as int,
            month as nat,
            day as nat,
            hour as nat,
            minute as nat,
            second as nat,
        ),
{
    let (whole, nanosecond): (u32, u32) = if second == 60 {
        (59, 1_000_000_000)
    } else {
        (second, 0)
    };
    let mut name = format_timestamp(year, month, day, hour, minute, whole, nanosecond);
    name.append(".log");
    name
}

/// The name of the log file that always holds the latest run's log.
pub fn latest_log_name() -> (name: &'static str)
    ensures
        name@ == "latest.log"@,
{
    "latest.log"
}

/// The filter directive that lowers the named crate's logging to warnings.
pub open spec fn warn_directive(target: Seq<char>) -> Seq<char> {
    target + "=warn"@
}

/// A warning directive is the whole target, unchanged, followed by `=warn`:
/// the target text is never cut or altered.
pub proof fn lemma_warn_directive_keeps_target(target: Seq<char>)
    ensures
        warn_directive(target).len() == target.len() + 5,
        warn_directive(target).take(target.len() as int) == target,
        warn_directive(target).skip(target.len() as int) == seq!['=', 'w', 'a', 'r', 'n'],
{
    reveal_strlit("=warn");
    assert(warn_directive(target).take(target.len() as int) =~= target);
    assert(warn_directive(target).skip(target.len() as int) =~= seq!['=', 'w', 'a', 'r', 'n']);
}

/// The filter directives for crates that log too much: each named crate is
/// lowered to warnings, in the order given.
pub fn filter_directives(targets: &[&str]) -> (directives: Vec<String>)
    ensures
        directives@.len() == targets@.len(),
        forall|i: int|
            0 <= i < targets@.len() ==> #[trigger] directives@[i]@ == warn_directive(targets@[i]@),
        forall|i: int|
            0 <= i < targets@.len() ==> #[trigger] directives@[i]@ == targets@[i]@ + "=warn"@,
{
    let mut directives: Vec<String> = Vec::new();
    let n: usize = targets.len();
    let mut i: usize = 0;
    while i < n
        invariant
            n == targets@.len(),
            i <= n,
            directives@.len() == i,
            forall|k: int|
                0 <= k < i ==> #[trigger] directives@[k]@ == warn_directive(targets@[k]@),
        decreases n - i,
    {
        let mut d = String::from_str(targets[i]);
        d.append("=warn");
        directives.push(d);
        i = i + 1;
    }
    directives
}

#[verifier::external_type_specification]
#[verifier::external_body]
pub struct ExEnvFilter(tracing_subscriber::EnvFilter);

#[verifier::external_type_specification]
#[verifier::external_body]
pub struct ExDirective(tracing_subscriber::filter::Directive);

#[verifier::external_type_specification]
#[verifier::external_body]
pub struct ExDirectiveParseError(tracing_subscriber::filter::ParseError);

/// Whether a character has Unicode's `White_Space` property (what
/// `char::is_whitespace` tests).
pub open spec fn is_white_space(c: char) -> bool {
    let u = c as int;
    ||| 9 <= u <= 13
    ||| u == 32
    ||| u == 0x85
    ||| u == 0xa0
    ||| u == 0x1680
    ||| 0x2000 <= u <= 0x200a
    ||| u == 0x2028
    ||| u == 0x2029
    ||| u == 0x202f
    ||| u == 0x205f
    ||| u == 0x3000
}

/// The text does not begin with white space.
pub open spec fn starts_without_white_space(text: Seq<char>) -> bool {
    text.len() == 0 || !is_white_space(text[0])
}

/// Whether a text is a valid tracing filter directive.
pub uninterp spec fn directive_parses(text: Seq<char>) -> bool;

/// `Directive::from_str`: the text parsed as a filter directive, or the parse
/// error. The parser walks the text with white space trimmed but cuts the
/// untrimmed text at the offsets it finds, so leading white space can make it
/// cut inside a character and panic; the `requires` leaves such text out.
/// Whether a text parses is named, not stated: it takes the parser's grammar.
#[verifier::external_body]
fn parse_directive(text: &str) -> (r: Result<
    tracing_subscriber::filter::Directive,
    tracing_subscriber::filter::ParseError,
>)
    requires
        starts_without_white_space(text@),
    ensures
        r is Ok <==> directive_parses(text@),
{
    text.parse()
}

/// `EnvFilter::add_directive`: the filter with the directive added. The
/// filter is opaque here, so nothing is claimed of the result.
#[verifier::external_body]
fn add_directive(
    filter: tracing_subscriber::EnvFilter,
    directive: tracing_subscriber::filter::Directive,
) -> tracing_subscriber::EnvFilter {
    filter.add_directive(directive)
}

/// The texts of a list of strings.
pub open spec fn texts(items: Seq<&str>) -> Seq<Seq<char>> {
    items.map_values(|t: &str| t@)
}

/// One step of lowering a crate's logging: `after` is what adding to
/// `before` the directive parsed from the whole target text followed by
/// `=warn` gave, and nothing else.
pub closed spec fn adds_warn_step(
    before: tracing_subscriber::EnvFilter,
    target: Seq<char>,
    after: tracing_subscriber::EnvFilter,
) -> bool {
    exists|text: &str, directive: tracing_subscriber::filter::Directive|
        #![trigger call_ensures(add_directive, (before, directive), after), text@]
        {
            &&& text@ == target + "=warn"@
            &&& call_ensures(
                parse_directive,
                (text,),
                Ok::<
                    tracing_subscriber::filter::Directive,
                    tracing_subscriber::filter::ParseError,
                >(directive),
            )
            &&& call_ensures(add_directive, (before, directive), after)
        }
}

/// `filters` leads from `base` to `result` by one warning step per target,
/// in order.
pub closed spec fn is_warn_chain(
    base: tracing_subscriber::EnvFilter,
    targets: Seq<Seq<char>>,
    result: tracing_subscriber::EnvFilter,
    filters: Seq<tracing_subscriber::EnvFilter>,
) -> bool {
    &&& filters.len() == targets.len() + 1
    &&& filters[0] == base
    &&& filters[targets.len() as int] == result
    &&& forall|i: int|
        0 <= i < targets.len() ==> #[trigger] adds_warn_step(filters[i], targets[i], filters[i + 1])
}

/// `result` is `base` with, for each target in order, the parsed directive
/// `target=warn` added, and nothing else added.
pub closed spec fn adds_warn_directives(
    base: tracing_subscriber::EnvFilter,
    targets: Seq<Seq<char>>,
    result: tracing_subscriber::EnvFilter,
) -> bool {
    exists|filters: Seq<tracing_subscriber::EnvFilter>| #[trigger]
        is_warn_chain(base, targets, result, filters)
}

/// Lowers each named crate's logging to warnings in the given filter, in
/// order. Fails at the first crate whose directive (`name=warn`) does not
/// parse, giving its position; succeeds exactly when every one parses. On
/// success the filter is the given one with exactly those directives added,
/// one per crate and in order: the default level is left alone.
pub fn add_warn_directives(
    base: tracing_subscriber::EnvFilter,
    targets: &[&str],
) -> (r: Result<tracing_subscriber::EnvFilter, usize>)
    requires
        forall|i: int| 0 <= i < targets@.len() ==> starts_without_white_space(#[trigger] targets@[i]@),
    ensures
        r is Ok <==> forall|i: int|
            0 <= i < targets@.len() ==> directive_parses(warn_directive(#[trigger] targets@[i]@)),
        r matches Err(i) ==> {
            &&& i < targets@.len()
            &&& !directive_parses(warn_directive(targets@[i as int]@))
            &&& forall|k: int| 0 <= k < i ==> directive_parses(warn_directive(#[trigger] targets@[k]@))
        },
        r matches Ok(filter) ==> adds_warn_directives(base, texts(targets@), filter),
{
    let directives = filter_directives(targets);
    let ghost base_filter = base;
    let ghost names = texts(targets@);
    let mut filter = base;
    let ghost mut chain: Seq<tracing_subscriber::EnvFilter> = seq![base];
    let n: usize = directives.len();
    let mut i: usize = 0;
    proof {
        reveal_strlit("=warn");
    }
    while i < n
        invariant
            n == directives@.len(),
            n == targets@.len(),
            names == texts(targets@),
            names.len() == n,
            i <= n,
            forall|k: int|
                0 <= k < n ==> #[trigger] directives@[k]@ == warn_directive(targets@[k]@),
            forall|k: int| 0 <= k < n ==> starts_without_white_space(#[trigger] targets@[k]@),
            forall|k: int| 0 <= k < i ==> directive_parses(warn_directive(#[trigger] targets@[k]@)),
            "=warn"@ == seq!['=', 'w', 'a', 'r', 'n'],
            chain.len() == i + 1,
            chain[0] == base_filter,
            chain[i as int] == filter,
            forall|k: int|
                0 <= k < i ==> #[trigger] adds_warn_step(chain[k], names[k], chain[k + 1]),
        decreases n - i,
    {
        let text = directives[i].as_str();
        assert(text@ == warn_directive(targets@[i as int]@));
        assert(starts_without_white_space(targets@[i as int]@));
        assert(starts_without_white_space(text@));
        let parse = parse_directive;
        match parse(text) {
            Ok(directive) => {
                let ghost before = filter;
                let ghost parsed = directive;
                let extend = add_directive;
                filter = extend(filter, directive);
                proof {
                    assert(names[i as int] == targets@[i as int]@);
                    assert(text@ == names[i as int] + "=warn"@);
                    assert(adds_warn_step(before, names[i as int], filter));
                    let old_chain = chain;
                    chain = chain.push(filter);
                    assert forall|k: int| 0 <= k < i + 1 implies #[trigger] adds_warn_step(
                        chain[k],
                        names[k],
                        chain[k + 1],
                    ) by {
                        if k < i {
                            assert(chain[k] == old_chain[k] && chain[k + 1] == old_chain[k + 1]);
                        }
                    }
                }
            },
            Err(_) => {
                return Err(i);
            },
        }
        i = i + 1;
    }
    assert(is_warn_chain(base_filter, names, filter, chain));
    Ok(filter)
}

proof fn lemma_digit_injective(a: nat, b: nat)
    requires
        digit(a) == digit(b),
    ensures
        a % 10 == b % 10,
{
    assert(digit(a) as int == a % 10 + 48);
    assert(digit(b) as int == b % 10 + 48);
}

proof fn lemma_decimal_len(n: nat)
    ensures
        decimal(n).len() >= 1,
        n >= 10 ==> decimal(n).len() >= 2,
        n >= 100 ==> decimal(n).len() >= 3,
        n >= 1000 ==> decimal(n).len() >= 4,
        n >= 10000 ==> decimal(n).len() >= 5,
    decreases n,
{
    if n >= 10 {
        lemma_decimal_len(n / 10);
    }
}

proof fn lemma_decimal_injective(a: nat, b: nat)
    requires
        decimal(a) == decimal(b),
    ensures
        a == b,
    decreases a,
{
    lemma_decimal_len(a);
    lemma_decimal_len(b);
    if a < 10 && b < 10 {
        assert(decimal(a)[0] == digit(a));
        assert(decimal(b)[0] == digit(b));
        lemma_digit_injective(a, b);
    } else if a >= 10 && b >= 10 {
        assert(decimal(a).last() == digit(a % 10));
        assert(decimal(b).last() == digit(b % 10));
        lemma_digit_injective(a % 10, b % 10);
        assert(decimal(a / 10) =~= decimal(a).drop_last());
        assert(decimal(b / 10) =~= decimal(b).drop_last());
        lemma_decimal_injective(a / 10, b / 10);
    }
}

proof fn lemma_same_digits(x: nat, y: nat)
    requires
        x % 10 == y % 10,
        x / 10 == y / 10,
    ensures
        x == y,
{
}

proof fn lemma_four_digits_injective(a: nat, b: nat)
    requires
        four_digits(a) == four_digits(b),
    ensures
        a == b,
{
    lemma_decimal_len(a);
    lemma_decimal_len(b);
    if a < 10000 && b < 10000 {
        let fa = four_digits(a);
        let fb = four_digits(b);
        assert(fa[0] == digit(a / 1000) && fb[0] == digit(b / 1000));
        assert(fa[1] == digit(a / 100) && fb[1] == digit(b / 100));
        assert(fa[2] == digit(a / 10) && fb[2] == digit(b / 10));
        assert(fa[3] == digit(a) && fb[3] == digit(b));
        lemma_digit_injective(a / 1000, b / 1000);
        lemma_digit_injective(a / 100, b / 100);
        lemma_digit_injective(a / 10, b / 10);
        lemma_digit_injective(a, b);
        vstd::arithmetic::div_mod::lemma_div_denominator(a as int, 100, 10);
        vstd::arithmetic::div_mod::lemma_div_denominator(b as int, 100, 10);
        vstd::arithmetic::div_mod::lemma_div_denominator(a as int, 10, 10);
        vstd::arithmetic::div_mod::lemma_div_denominator(b as int, 10, 10);
        assert(a / 1000 == b / 1000);
        lemma_same_digits(a / 100, b / 100);
        lemma_same_digits(a / 10, b / 10);
        lemma_same_digits(a, b);
    } else if a >= 10000 && b >= 10000 {
        lemma_decimal_injective(a, b);
    } else {
        assert(four_digits(a).len() != four_digits(b).len());
    }
}

proof fn lemma_year_text_injective(a: int, b: int)
    requires
        year_text(a) == year_text(b),
    ensures
        a == b,
{
    let ya = year_text(a);
    let yb = year_text(b);
    lemma_decimal_len(a as nat);
    lemma_decimal_len(b as nat);
    if 0 <= a <= 9999 && 0 <= b <= 9999 {
        lemma_four_digits_injective(a as nat, b as nat);
    } else if a < 0 && b < 0 {
        assert(ya.drop_first() =~= four_digits((-a) as nat));
        assert(yb.drop_first() =~= four_digits((-b) as nat));
        lemma_four_digits_injective((-a) as nat, (-b) as nat);
    } else if a > 9999 && b > 9999 {
        assert(ya.drop_first() =~= four_digits(a as nat));
        assert(yb.drop_first() =~= four_digits(b as nat));
        lemma_four_digits_injective(a as nat, b as nat);
    } else {
        assert(ya[0] == yb[0]);
        lemma_year_text_first(a);
        lemma_year_text_first(b);
    }
}

/// The first character of a year's text tells its range: a digit for years
/// 0 to 9999, `-` below, `+` above.
proof fn lemma_year_text_first(y: int)
    ensures
        0 <= y <= 9999 ==> year_text(y)[0] as int >= 48,
        y < 0 ==> year_text(y)[0] == '-',
        y > 9999 ==> year_text(y)[0] == '+',
{
    if 0 <= y <= 9999 {
        assert(year_text(y)[0] == digit((y / 1000) as nat));
        assert(digit((y / 1000) as nat) as int >= 48);
    }
}

/// A separator followed by a two-digit field, then the rest of a name.
spec fn field(sep: char, n: nat, rest: Seq<char>) -> Seq<char> {
    seq![sep] + two_digits(n) + rest
}

/// The part of a log file's name after the year.
spec fn name_tail(month: nat, day: nat, hour: nat, minute: nat, second: nat) -> Seq<char> {
    field('-', month, field('-', day, field('Z', hour, field(':', minute, field(':', second, ".log"@)))))
}

proof fn lemma_name_split(year: int, month: nat, day: nat, hour: nat, minute: nat, second: nat)
    ensures
        log_file_name_text(year, month, day, hour, minute, second) =~= year_text(year) + name_tail(
            month,
            day,
            hour,
            minute,
            second,
        ),
        name_tail(month, day, hour, minute, second).len() == 19,
{
    reveal_strlit(".log");
}

proof fn lemma_field_injective(sep: char, a: nat, ra: Seq<char>, b: nat, rb: Seq<char>)
    requires
        a < 100,
        b < 100,
        field(sep, a, ra) == field(sep, b, rb),
    ensures
        a == b,
        ra == rb,
{
    let fa = field(sep, a, ra);
    let fb = field(sep, b, rb);
    assert(fa[1] == digit(a / 10) && fb[1] == digit(b / 10));
    assert(fa[2] == digit(a) && fb[2] == digit(b));
    lemma_digit_injective(a / 10, b / 10);
    lemma_digit_injective(a, b);
    lemma_same_digits(a, b);
    assert(ra =~= fa.skip(3));
    assert(rb =~= fb.skip(3));
}

proof fn lemma_name_tail_injective(
    mo1: nat,
    d1: nat,
    h1: nat,
    mi1: nat,
    s1: nat,
    mo2: nat,
    d2: nat,
    h2: nat,
    mi2: nat,
    s2: nat,
)
    requires
        mo1 < 100 && d1 < 100 && h1 < 100 && mi1 < 100 && s1 < 100,
        mo2 < 100 && d2 < 100 && h2 < 100 && mi2 < 100 && s2 < 100,
        name_tail(mo1, d1, h1, mi1, s1) == name_tail(mo2, d2, h2, mi2, s2),
    ensures
        mo1 == mo2 && d1 == d2 && h1 == h2 && mi1 == mi2 && s1 == s2,
{
    let l = ".log"@;
    let r5a = field(':', s1, l);
    let r5b = field(':', s2, l);
    let r4a = field(':', mi1, r5a);
    let r4b = field(':', mi2, r5b);
    let r3a = field('Z', h1, r4a);
    let r3b = field('Z', h2, r4b);
    let r2a = field('-', d1, r3a);
    let r2b = field('-', d2, r3b);
    lemma_field_injective('-', mo1, r2a, mo2, r2b);
    lemma_field_injective('-', d1, r3a, d2, r3b);
    lemma_field_injective('Z', h1, r4a, h2, r4b);
    lemma_field_injective(':', mi1, r5a, mi2, r5b);
    lemma_field_injective(':', s1, l, s2, l);
}

/// Log files opened at different times, to the second, get different
/// names: a new run never reuses an earlier run's log file.
pub proof fn lemma_log_file_names_distinct(
    y1: int,
    mo1: nat,
    d1: nat,
    h1: nat,
    mi1: nat,
    s1: nat,
    y2: int,
    mo2: nat,
    d2: nat,
    h2: nat,
    mi2: nat,
    s2: nat,
)
    requires
        mo1 < 100 && d1 < 100 && h1 < 100 && mi1 < 100 && s1 < 100,
        mo2 < 100 && d2 < 100 && h2 < 100 && mi2 < 100 && s2 < 100,
        (y1, mo1, d1, h1, mi1, s1) != (y2, mo2, d2, h2, mi2, s2),
    ensures
        log_file_name_text(y1, mo1, d1, h1, mi1, s1) != log_file_name_text(
            y2,
            mo2,
            d2,
            h2,
            mi2,
            s2,
        ),
{
    let n1 = log_file_name_text(y1, mo1, d1, h1, mi1, s1);
    let n2 = log_file_name_text(y2, mo2, d2, h2, mi2, s2);
    lemma_name_split(y1, mo1, d1, h1, mi1, s1);
    lemma_name_split(y2, mo2, d2, h2, mi2, s2);
    if n1 == n2 {
        let t1 = name_tail(mo1, d1, h1, mi1, s1);
        let t2 = name_tail(mo2, d2, h2, mi2, s2);
        assert(year_text(y1) =~= n1.take(n1.len() - 19));
        assert(year_text(y2) =~= n2.take(n2.len() - 19));
        lemma_year_text_injective(y1, y2);
        assert(t1 =~= n1.skip(n1.len() - 19));
        assert(t2 =~= n2.skip(n2.len() - 19));
        lemma_name_tail_injective(mo1, d1, h1, mi1, s1, mo2, d2, h2, mi2, s2);
    }
}

} // verus!
