//! Decimal notation for unsigned integers: what a numeral denotes, how a field
//! of text is read as a number, and how a number is written out.

use vstd::prelude::*;
use vstd::string::StringExecFns;

verus! {

/// `c` is one of the ten ASCII digits.
pub open spec fn is_digit(c: char) -> bool {
    48 <= c as u32 <= 57
}

/// The number a digit stands for.
pub open spec fn digit_value(c: char) -> nat {
    (c as u32 - 48) as nat
}

/// The digit that stands for `d`, for `d` below ten.
pub open spec fn digit_char(d: nat) -> char {
    if d == 0 {
        '0'
    } else if d == 1 {
        '1'
    } else if d == 2 {
        '2'
    } else if d == 3 {
        '3'
    } else if d == 4 {
        '4'
    } else if d == 5 {
        '5'
    } else if d == 6 {
        '6'
    } else if d == 7 {
        '7'
    } else if d == 8 {
        '8'
    } else {
        '9'
    }
}

/// Every character of `s` is a digit.
pub open spec fn all_digits(s: Seq<char>) -> bool {
    forall|i: int| 0 <= i < s.len() ==> is_digit(#[trigger] s[i])
}

/// The number that a run of digits denotes, most significant digit first.
/// The empty run denotes zero.
pub open spec fn digits_value(s: Seq<char>) -> nat
    decreases s.len(),
{
    if s.len() == 0 {
        0
    } else {
        10 * digits_value(s.drop_last()) + digit_value(s.last())
    }
}

/// The digits of a field once one leading `+` has been set aside.
pub open spec fn unsigned_part(s: Seq<char>) -> Seq<char> {
    if s.len() > 0 && s[0] == '+' {
        s.drop_first()
    } else {
        s
    }
}

/// `s` is written as a non-negative decimal integer: an optional `+`, then
/// one or more digits and nothing else.
pub open spec fn is_numeral(s: Seq<char>) -> bool {
    unsigned_part(s).len() > 0 && all_digits(unsigned_part(s))
}

/// Reads `s` as a non-negative decimal integer no greater than `max`. `None`
/// for text that is no numeral and for a numeral that denotes more than `max`.
pub open spec fn parse_decimal(s: Seq<char>, max: nat) -> Option<nat> {
    if is_numeral(s) && digits_value(unsigned_part(s)) <= max {
        Some(digits_value(unsigned_part(s)))
    } else {
        None
    }
}

/// The shortest numeral for `n`: no sign and no leading zero, `"0"` for zero.
pub open spec fn decimal(n: nat) -> Seq<char>
    decreases n,
{
    if n < 10 {
        seq![digit_char(n)]
    } else {
        decimal(n / 10).push(digit_char(n % 10))
    }
}

/// A digit character denotes the digit it was made from.
pub proof fn lemma_digit_char(d: nat)
    requires
        d < 10,
    ensures
        is_digit(digit_char(d)),
        digit_value(digit_char(d)) == d,
        digit_char(d) != ':',
        digit_char(d) != '+',
{
}

/// The numeral written for `n` is a non-empty run of digits that denotes `n`.
pub proof fn lemma_decimal_denotes(n: nat)
    ensures
        decimal(n).len() > 0,
        all_digits(decimal(n)),
        digits_value(decimal(n)) == n,
    decreases n,
{
    if n < 10 {
        lemma_digit_char(n);
        let s = decimal(n);
        assert(s.drop_last() =~= Seq::<char>::empty());
        assert(digits_value(s.drop_last()) == 0);
    } else {
        lemma_decimal_denotes(n / 10);
        lemma_digit_char(n % 10);
        let s = decimal(n);
        assert(s.drop_last() =~= decimal(n / 10));
        assert(s.last() == digit_char(n % 10));
    }
}

/// Writing a number out and reading it back gives the number again, whenever
/// it is within the bound that the reader accepts.
pub proof fn lemma_parse_decimal_of_decimal(n: nat, max: nat)
    requires
        n <= max,
    ensures
        parse_decimal(decimal(n), max) == Some(n),
{
    lemma_decimal_denotes(n);
    let s = decimal(n);
    assert(is_digit(s[0]));
    assert(unsigned_part(s) == s);
}

/// A longer run of digits never denotes less than the run it extends.
pub proof fn lemma_digits_value_grows(s: Seq<char>, c: char)
    requires
        is_digit(c),
    ensures
        digits_value(s.push(c)) == 10 * digits_value(s) + digit_value(c),
        digits_value(s.push(c)) >= digits_value(s),
{
    assert(s.push(c).drop_last() =~= s);
}

/// Progress of reading one field as a decimal number, a character at a time.
pub(crate) struct DecimalScan {
    /// No character has been fed yet.
    pub empty: bool,
    /// A character other than a leading `+` has been fed.
    pub has_body: bool,
    /// Every character fed, but for a leading `+`, was a digit.
    pub digits_only: bool,
    /// The digits fed denote a number within the bound.
    pub in_range: bool,
    /// What the digits fed denote, while they are digits only and in range.
    pub value: u128,
}

impl DecimalScan {
    /// The scan has seen exactly the characters of `field`, read against the
    /// bound `max`.
    pub(crate) open spec fn tracks(&self, field: Seq<char>, max: nat) -> bool {
        let body = unsigned_part(field);
        &&& self.empty == (field.len() == 0)
        &&& self.has_body == (body.len() > 0)
        &&& self.digits_only == all_digits(body)
        &&& self.digits_only ==> self.in_range == (digits_value(body) <= max)
        &&& self.digits_only && self.in_range ==> self.value as nat == digits_value(body)
    }

    /// A scan that has seen nothing.
    pub(crate) fn start(Ghost(max): Ghost<nat>) -> (scan: Self)
        ensures
            scan.tracks(Seq::<char>::empty(), max),
    {
        DecimalScan { empty: true, has_body: false, digits_only: true, in_range: true, value: 0 }
    }

    /// Takes in the next character of the field.
    pub(crate) fn feed(&mut self, c: char, max: u128, Ghost(field): Ghost<Seq<char>>)
        requires
            old(self).tracks(field, max as nat),
            max >= 9,
        ensures
            final(self).tracks(field.push(c), max as nat),
    {
        let ghost body = unsigned_part(field);
        let ghost next = field.push(c);
        if self.empty && c == '+' {
            self.empty = false;
            assert(unsigned_part(next) =~= Seq::<char>::empty());
            return ;
        }
        assert(unsigned_part(next) =~= body.push(c)) by {
            if field.len() > 0 && field[0] == '+' {
                assert(next[0] == '+');
                assert(next.drop_first() =~= field.drop_first().push(c));
            } else if field.len() == 0 {
                assert(next[0] == c);
            } else {
                assert(next[0] == field[0]);
            }
        }
        self.empty = false;
        self.has_body = true;
        let code: u32 = c as u32;
        if !self.digits_only {
            assert(!all_digits(body.push(c))) by {
                if all_digits(body.push(c)) {
                    assert forall|i: int| 0 <= i < body.len() implies is_digit(
                        #[trigger] body[i],
                    ) by {
                        assert(body.push(c)[i] == body[i]);
                    }
                }
            }
            return ;
        }
        if code < 48 || code > 57 {
            self.digits_only = false;
            assert(!is_digit(body.push(c)[body.len() as int]));
            return ;
        }
        let d: u128 = (code - 48) as u128;
        proof {
            lemma_digits_value_grows(body, c);
            assert forall|i: int| 0 <= i < body.push(c).len() implies is_digit(
                #[trigger] body.push(c)[i],
            ) by {
                if i < body.len() {
                    assert(body.push(c)[i] == body[i]);
                }
            }
        }
        if self.in_range {
            if self.value > (max - d) / 10 {
                self.in_range = false;
            } else {
                self.value = self.value * 10 + d;
            }
        }
    }

    /// Whether the field read so far is a numeral.
    pub(crate) fn is_numeral(&self, Ghost(field): Ghost<Seq<char>>, Ghost(max): Ghost<nat>) -> (r:
        bool)
        requires
            self.tracks(field, max),
        ensures
            r == is_numeral(field),
    {
        self.has_body && self.digits_only
    }

    /// What the field read so far denotes.
    pub(crate) fn finish(&self, Ghost(field): Ghost<Seq<char>>, Ghost(max): Ghost<nat>) -> (r:
        Option<u128>)
        requires
            self.tracks(field, max),
        ensures
            r matches Some(v) ==> parse_decimal(field, max) == Some(v as nat),
            r is None ==> parse_decimal(field, max) is None,
    {
        if self.has_body && self.digits_only && self.in_range {
            Some(self.value)
        } else {
            None
        }
    }
}

/// The one-character text of a digit.
fn digit_text(d: u8) -> (t: &'static str)
    requires
        d < 10,
    ensures
        t@ == seq![digit_char(d as nat)],
{
    proof {
        reveal_strlit("0");
        reveal_strlit("1");
        reveal_strlit("2");
        reveal_strlit("3");
        reveal_strlit("4");
        reveal_strlit("5");
        reveal_strlit("6");
        reveal_strlit("7");
        reveal_strlit("8");
        reveal_strlit("9");
    }
    let t = if d == 0 {
        "0"
    } else if d == 1 {
        "1"
    } else if d == 2 {
        "2"
    } else if d == 3 {
        "3"
    } else if d == 4 {
        "4"
    } else if d == 5 {
        "5"
    } else if d == 6 {
        "6"
    } else if d == 7 {
        "7"
    } else if d == 8 {
        "8"
    } else {
        "9"
    };
    assert(t@ =~= seq![digit_char(d as nat)]);
    t
}

/// Appends the shortest decimal numeral for `n` to `out`.
pub fn push_decimal(out: &mut String, n: u128)
    ensures
        final(out)@ == old(out)@ + decimal(n as nat),
    decreases n,
{
    if n >= 10 {
        push_decimal(out, n / 10);
    }
    let d: u8 = (n % 10) as u8;
    out.append(digit_text(d));
    assert(out@ =~= old(out)@ + decimal(n as nat));
}

} // verus!
