//! What the launcher's own log says of a panic.

use vstd::prelude::*;
use vstd::string::*;

verus! {

/// Where a panic was raised.
#[derive(Debug, Clone, Copy)]
pub struct PanicSite<'a> {
    pub file: &'a str,
    pub line: u32,
    pub column: u32,
}

/// The decimal digit of a number below ten.
pub open spec fn digit(n: int) -> char {
    (0x30 + n) as char
}

/// A number in decimal digits.
pub open spec fn decimal(n: nat) -> Seq<char>
    decreases n,
{
    if n < 10 {
        seq![digit(n as int)]
    } else {
        decimal(n / 10).push(digit((n % 10) as int))
    }
}

/// What is said of a panic.
pub open spec fn report(payload: Option<&str>, site: Option<PanicSite>) -> Seq<char> {
    "PANIC: "@ + (match payload {
        Some(text) => text@,
        None => "panic occurred"@,
    }) + (match site {
        Some(at) => "\n  at "@ + at.file@ + ":"@ + decimal(at.line as nat) + ":"@ + decimal(
            at.column as nat,
        ),
        None => seq![],
    })
}

fn digit_text(n: u32) -> (text: &'static str)
    requires
        n < 10,
    ensures
        text@ == seq![digit(n as int)],
{
    proof {
        reveal_strlit("0");
        reveal_strlit("1");
        reveal_strlit("2");
        reveal_strlit("3");
        reveal_strlit("4");
        reveal_strlit("5");
        reveal_strlit("6");
        reveal_strlit("7");
        reveal_strlit("8");
        reveal_strlit("9");
    }
    let text = if n == 0 {
        "0"
    } else if n == 1 {
        "1"
    } else if n == 2 {
        "2"
    } else if n == 3 {
        "3"
    } else if n == 4 {
        "4"
    } else if n == 5 {
        "5"
    } else if n == 6 {
        "6"
    } else if n == 7 {
        "7"
    } else if n == 8 {
        "8"
    } else {
        "9"
    };
    assert(text@ =~= seq![digit(n as int)]);
    text
}

fn push_decimal(text: &mut String, n: u32)
    ensures
        final(text)@ == old(text)@ + decimal(n as nat),
    decreases n,
{
    if n >= 10 {
        push_decimal(text, n / 10);
    }
    text.append(digit_text(n % 10));
    assert(text@ =~= old(text)@ + decimal(n as nat));
}

/// Says what a panic was about and where it was raised.
pub fn format_panic(payload: Option<&str>, site: Option<PanicSite>) -> (message: String)
    ensures
        message@ == report(payload, site),
{
    let mut message = "PANIC: ".to_owned();
    match payload {
        Some(text) => message.append(text),
        None => message.append("panic occurred"),
    }
    if let Some(at) = site {
        message.append("\n  at ");
        message.append(at.file);
        message.append(":");
        push_decimal(&mut message, at.line);
        message.append(":");
        push_decimal(&mut message, at.column);
    }
    assert(message@ =~= report(payload, site));
    message
}

/// A report starts with what the panic was about.
pub proof fn reports_name_the_panic(payload: &str, site: Option<PanicSite>)
    ensures
        report(Some(payload), site).take(("PANIC: "@ + payload@).len() as int) == "PANIC: "@
            + payload@,
        report(None, None) == "PANIC: panic occurred"@,
{
    let start = "PANIC: "@ + payload@;
    assert(report(Some(payload), site).take(start.len() as int) =~= start);
    reveal_strlit("PANIC: ");
    reveal_strlit("panic occurred");
    reveal_strlit("PANIC: panic occurred");
    assert(report(None, None) =~= "PANIC: panic occurred"@);
}

/// The number that decimal digits stand for.
pub open spec fn value(digits: Seq<char>) -> int
    decreases digits.len(),
{
    if digits.len() == 0 {
        0
    } else {
        10 * value(digits.drop_last()) + (digits.last() as int - '0' as int)
    }
}

/// A number is written in digits that stand for it, without a zero before them.
pub proof fn numbers_are_written_in_digits(n: nat)
    ensures
        value(decimal(n)) == n,
        decimal(n).len() > 0,
        forall|i: int| 0 <= i < decimal(n).len() ==> '0' <= #[trigger] decimal(n)[i] <= '9',
        decimal(n).len() > 1 ==> decimal(n)[0] != '0',
    decreases n,
{
    reveal_with_fuel(value, 2);
    if n >= 10 {
        numbers_are_written_in_digits(n / 10);
        let start = decimal(n / 10);
        assert(decimal(n).drop_last() =~= start);
        assert(start.len() == 1 ==> value(start) == start[0] as int - '0' as int) by {
            if start.len() == 1 {
                assert(start.drop_last() =~= seq![]);
            }
        }
    } else {
        assert(decimal(n).drop_last() =~= seq![]);
    }
}

/// A report says what the panic was about, or that there was one, and then where
/// it was raised, where that is known: the file, the line and the column.
pub proof fn reports_say_what_and_where(payload: Option<&str>, site: Option<PanicSite>)
    ensures
        ({
            let what = match payload {
                Some(text) => text@,
                None => "panic occurred"@,
            };
            &&& site is None ==> report(payload, site) == "PANIC: "@ + what
            &&& site matches Some(at) ==> report(payload, site) == "PANIC: "@ + what + "\n  at "@
                + at.file@ + ":"@ + decimal(at.line as nat) + ":"@ + decimal(at.column as nat)
        }),
{
    let what = match payload {
        Some(text) => text@,
        None => "panic occurred"@,
    };
    if let Some(at) = site {
        assert(report(payload, site) =~= "PANIC: "@ + what + "\n  at "@ + at.file@ + ":"@ + decimal(
            at.line as nat,
        ) + ":"@ + decimal(at.column as nat));
    } else {
        assert(report(payload, site) =~= "PANIC: "@ + what);
    }
}

/// What is written of a panic are its own words and its place, with the numbers
/// in decimal digits.
pub proof fn panics_are_written_down(
    payload: Option<&str>,
    site: Option<PanicSite>,
    message: String,
)
    requires
        call_ensures(format_panic, (payload, site), message),
    ensures
        payload is Some && site is None ==> message@ == "PANIC: "@ + payload->0@,
        payload is None && site is None ==> message@ == "PANIC: "@ + "panic occurred"@,
        payload is Some && site is Some ==> message@ == "PANIC: "@ + payload->0@ + "\n  at "@
            + site->0.file@ + ":"@ + decimal(site->0.line as nat) + ":"@ + decimal(
            site->0.column as nat,
        ),
        payload is None && site is Some ==> message@ == "PANIC: "@ + "panic occurred"@
            + "\n  at "@ + site->0.file@ + ":"@ + decimal(site->0.line as nat) + ":"@ + decimal(
            site->0.column as nat,
        ),
{
    reports_say_what_and_where(payload, site);
}

} // verus!
