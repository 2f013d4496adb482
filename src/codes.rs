use vstd::prelude::*;
use vstd::string::StringExecFns;

verus! {

/// The character for one digit (below 16): `0`-`9`, then upper-case `A`-`F`.
pub open spec fn digit_char(d: nat) -> char {
    if d < 10 {
        (('0' as u8) + d) as char
    } else {
        (('A' as u8) + (d - 10)) as char
    }
}

/// The digits of `n` in `base`, most significant first, padded with zeros
/// on the left to at least `width` characters (with `width == 1`, zero is "0").
pub open spec fn digits(n: nat, base: nat, width: nat) -> Seq<char>
    decreases n + width,
{
    if base < 2 || (n == 0 && width == 0) {
        Seq::empty()
    } else {
        proof {
            assert(n / base <= n) by (nonlinear_arith)
                requires base >= 2;
            assert(n > 0 ==> n / base < n) by (nonlinear_arith)
                requires base >= 2;
        }
        digits(n / base, base, if width > 0 { (width - 1) as nat } else { 0 }) + seq![digit_char(n % base)]
    }
}

/// Upper-case hexadecimal, at least eight digits: what `{:08X}` renders.
pub open spec fn hex8(n: u64) -> Seq<char> {
    digits(n as nat, 16, 8)
}

/// Decimal, as `{}` renders an unsigned integer.
pub open spec fn decimal(n: u64) -> Seq<char> {
    digits(n as nat, 10, 1)
}

/// The verification code of a ticket: its id and its event's id, each in
/// eight-digit upper-case hex, joined by a dash.
pub open spec fn code_spec(ticket_id: u64, event_id: u64) -> Seq<char> {
    hex8(ticket_id) + seq!['-'] + hex8(event_id)
}

/// The seat label of a ticket: `SEAT-<event id>-<ticket id>` in decimal.
pub open spec fn seat_spec(event_id: u64, ticket_id: u64) -> Seq<char> {
    seq!['S', 'E', 'A', 'T', '-'] + decimal(event_id) + seq!['-'] + decimal(ticket_id)
}

proof fn lemma_digit_char_injective(a: nat, b: nat)
    requires
        a < 16,
        b < 16,
        digit_char(a) == digit_char(b),
    ensures
        a == b,
{
}

proof fn lemma_digit_char_not_dash(d: nat)
    requires
        d < 16,
    ensures
        digit_char(d) != '-',
{
}

/// No rendered digit string holds a dash.
pub proof fn lemma_digits_no_dash(n: nat, base: nat, width: nat)
    requires
        base <= 16,
    ensures
        forall|i: int| 0 <= i < digits(n, base, width).len() ==> digits(n, base, width)[i] != '-',
    decreases n + width,
{
    if base < 2 || (n == 0 && width == 0) {
    } else {
        let w = if width > 0 { (width - 1) as nat } else { 0 };
        lemma_digits_no_dash(n / base, base, w);
        lemma_digit_char_not_dash(n % base);
        let p = digits(n / base, base, w);
        assert(digits(n, base, width) == p + seq![digit_char(n % base)]);
    }
}

/// Two numbers with the same digits (same base and width) are equal.
pub proof fn lemma_digits_injective(a: nat, b: nat, base: nat, width: nat)
    requires
        2 <= base <= 16,
        digits(a, base, width) == digits(b, base, width),
    ensures
        a == b,
    decreases a + width,
{
    let w = if width > 0 { (width - 1) as nat } else { 0 };
    if a == 0 && width == 0 {
        if b != 0 {
            assert(digits(b, base, width).len() > 0);
        }
    } else if b == 0 && width == 0 {
        assert(digits(a, base, width).len() > 0);
    } else {
        let da = digits(a / base, base, w);
        let db = digits(b / base, base, w);
        assert(digits(a, base, width) == da + seq![digit_char(a % base)]);
        assert(digits(b, base, width) == db + seq![digit_char(b % base)]);
        let s = digits(a, base, width);
        assert(s[s.len() - 1] == digit_char(a % base));
        assert(s[s.len() - 1] == digit_char(b % base));
        lemma_digit_char_injective(a % base, b % base);
        assert(da == s.subrange(0, s.len() - 1));
        assert(db == s.subrange(0, s.len() - 1));
        lemma_digits_injective(a / base, b / base, base, w);
        assert(a == base * (a / base) + a % base) by (nonlinear_arith)
            requires base > 0;
        assert(b == base * (b / base) + b % base) by (nonlinear_arith)
            requires base > 0;
    }
}

/// Codes of tickets with different ids differ, whatever their events.
pub proof fn lemma_code_injective(t1: u64, e1: u64, t2: u64, e2: u64)
    requires
        code_spec(t1, e1) == code_spec(t2, e2),
    ensures
        t1 == t2,
{
    let p1 = hex8(t1);
    let p2 = hex8(t2);
    let c = code_spec(t1, e1);
    lemma_digits_no_dash(t1 as nat, 16, 8);
    lemma_digits_no_dash(t2 as nat, 16, 8);
    assert(c == p1 + (seq!['-'] + hex8(e1)));
    assert(c == p2 + (seq!['-'] + hex8(e2)));
    if p1.len() < p2.len() {
        assert(c[p1.len() as int] == '-');
        assert(c[p1.len() as int] == p2[p1.len() as int]);
    } else if p2.len() < p1.len() {
        assert(c[p2.len() as int] == '-');
        assert(c[p2.len() as int] == p1[p2.len() as int]);
    } else {
        assert(p1 == c.subrange(0, p1.len() as int));
        assert(p2 == c.subrange(0, p2.len() as int));
        lemma_digits_injective(t1 as nat, t2 as nat, 16, 8);
    }
}

fn digit_str(d: u64) -> (r: &'static str)
    requires
        d < 16,
    ensures
        r@ == seq![digit_char(d as nat)],
{
    proof {
        reveal_strlit("0");
        reveal_strlit("1");
        reveal_strlit("2");
        reveal_strlit("3");
        reveal_strlit("4");
        reveal_strlit("5");
        reveal_strlit("6");
        reveal_strlit("7");
        reveal_strlit("8");
        reveal_strlit("9");
        reveal_strlit("A");
        reveal_strlit("B");
        reveal_strlit("C");
        reveal_strlit("D");
        reveal_strlit("E");
        reveal_strlit("F");
    }
    match d {
        0 => "0",
        1 => "1",
        2 => "2",
        3 => "3",
        4 => "4",
        5 => "5",
        6 => "6",
        7 => "7",
        8 => "8",
        9 => "9",
        10 => "A",
        11 => "B",
        12 => "C",
        13 => "D",
        14 => "E",
        _ => "F",
    }
}

/// Appends the digits of `n` (see `digits`) to `s`.
fn push_digits(s: &mut String, n: u64, base: u64, width: u64)
    requires
        2 <= base <= 16,
    ensures
        final(s)@ == old(s)@ + digits(n as nat, base as nat, width as nat),
    decreases n + width,
{
    if n == 0 && width == 0 {
        return;
    }
    let w: u64 = if width > 0 { width - 1 } else { 0 };
    proof {
        assert(n / base <= n) by (nonlinear_arith)
            requires base >= 2;
        assert(n > 0 ==> n / base < n) by (nonlinear_arith)
            requires base >= 2;
    }
    push_digits(s, n / base, base, w);
    let d = digit_str(n % base);
    s.append(d);
    assert(s@ =~= old(s)@ + digits(n as nat, base as nat, width as nat));
}

/// The verification code of ticket `ticket_id` of event `event_id`.
pub fn generate_verification_code(ticket_id: u64, event_id: u64) -> (r: String)
    ensures
        r@ == code_spec(ticket_id, event_id),
{
    let mut s = String::new();
    push_digits(&mut s, ticket_id, 16, 8);
    s.append("-");
    push_digits(&mut s, event_id, 16, 8);
    proof {
        reveal_strlit("-");
        assert(s@ =~= code_spec(ticket_id, event_id));
    }
    s
}

/// The seat label of ticket `ticket_id` of event `event_id`.
pub fn seat_label(event_id: u64, ticket_id: u64) -> (r: String)
    ensures
        r@ == seat_spec(event_id, ticket_id),
{
    let mut s = String::new();
    s.append("SEAT-");
    push_digits(&mut s, event_id, 10, 1);
    s.append("-");
    push_digits(&mut s, ticket_id, 10, 1);
    proof {
        reveal_strlit("SEAT-");
        reveal_strlit("-");
        assert(s@ =~= seat_spec(event_id, ticket_id));
    }
    s
}

} // verus!
