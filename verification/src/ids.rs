//! Identifiers of repositories and branches.
use vstd::arithmetic::div_mod::*;
use vstd::arithmetic::power::*;
use vstd::prelude::*;
use vstd::string::*;

use crate::text;

verus! {

/// A 16-byte identifier, held as the number that its bytes write, the first byte highest.
#[derive(Clone, Copy, Debug, PartialEq, Eq, Structural)]
pub struct Context {
    pub value: u128,
}

/// The identifier of a repository.
#[derive(Clone, Copy, Debug, PartialEq, Eq, Structural)]
pub struct RepositoryId {
    pub context: Context,
}

/// The small hexadecimal digit of `d`.
pub open spec fn hex_char(d: nat) -> char {
    if d < 10 {
        (('0' as u8 + d) as u8) as char
    } else {
        (('a' as u8 + (d - 10)) as u8) as char
    }
}

/// The last `n` hexadecimal digits of `value`.
pub open spec fn hex_digits(value: nat, n: nat) -> Seq<char>
    decreases n,
{
    if n == 0 {
        Seq::empty()
    } else {
        hex_digits(value / 16, (n - 1) as nat).push(hex_char(value % 16))
    }
}

/// The value of the hexadecimal digit `c`.
pub open spec fn hex_value(c: char) -> nat {
    if '0' <= c <= '9' {
        (c as u8 - '0' as u8) as nat
    } else if 'a' <= c <= 'f' {
        (c as u8 - 'a' as u8 + 10) as nat
    } else {
        (c as u8 - 'A' as u8 + 10) as nat
    }
}

/// The number that the hexadecimal digits `s` write.
pub open spec fn hex_number(s: Seq<char>) -> nat
    decreases s.len(),
{
    if s.len() == 0 {
        0
    } else {
        hex_number(s.drop_last()) * 16 + hex_value(s.last())
    }
}

impl Context {
    /// The 32 small hexadecimal digits of the identifier.
    pub open spec fn hex(self) -> Seq<char> {
        hex_digits(self.value as nat, 32)
    }

    /// Whether this is the identifier whose bytes are all zero.
    pub fn is_zero(&self) -> (zero: bool)
        ensures
            zero == (self.value == 0),
    {
        self.value == 0
    }

    /// Writes the identifier as 32 small hexadecimal digits.
    pub fn to_hex(&self) -> (s: String)
        ensures
            s@ == self.hex(),
    {
        hex_string(self.value, 32)
    }

    /// Reads an identifier from 32 hexadecimal digits.
    pub fn from_hex(s: &str) -> (id: Option<Context>)
        ensures
            id is Some <==> text::is_hex_id(s@),
            id matches Some(c) ==> c.value == hex_number(s@),
    {
        if !text::hex_id(s) {
            return None;
        }
        let digits = text::chars_of(s);
        let mut value: u128 = 0;
        let mut i: usize = 0;
        while i < 32
            invariant
                i <= 32,
                digits@ == s@,
                text::is_hex_id(s@),
                value == hex_number(s@.take(i as int)),
                value < pow16(i as nat),
            decreases 32 - i,
        {
            proof {
                lemma_pow16_bound(i as nat);
                lemma_hex_value_bound(s@[i as int]);
                assert(s@.take(i + 1).drop_last() =~= s@.take(i as int));
            }
            value = value * 16 + hex_digit_value(digits[i]);
            i = i + 1;
        }
        assert(s@.take(32) =~= s@);
        Some(Context { value })
    }
}

impl RepositoryId {
    /// The name under which the authorization service knows the repository.
    pub open spec fn resource(self) -> Seq<char> {
        "urc-"@ + self.context.hex()
    }

    /// The 32 small hexadecimal digits of the identifier.
    pub open spec fn hex(self) -> Seq<char> {
        self.context.hex()
    }

    /// Writes the identifier as 32 small hexadecimal digits.
    pub fn to_hex(&self) -> (s: String)
        ensures
            s@ == self.hex(),
    {
        self.context.to_hex()
    }

    /// Writes the name under which the authorization service knows the repository.
    pub fn resource_id(&self) -> (s: String)
        ensures
            s@ == self.resource(),
    {
        "urc-".to_owned().concat(self.to_hex().as_str())
    }
}

impl From<Context> for RepositoryId {
    fn from(context: Context) -> (id: RepositoryId) {
        RepositoryId { context }
    }
}

impl vstd::std_specs::convert::FromSpecImpl<Context> for RepositoryId {
    open spec fn obeys_from_spec() -> bool {
        true
    }

    open spec fn from_spec(context: Context) -> RepositoryId {
        RepositoryId { context }
    }
}

/// The `n`-th power of 16.
pub open spec fn pow16(n: nat) -> nat
    decreases n,
{
    if n == 0 {
        1
    } else {
        16 * pow16((n - 1) as nat)
    }
}

proof fn lemma_pow16_bound(n: nat)
    requires
        n < 32,
    ensures
        pow16(n + 1) == 16 * pow16(n),
        pow16(n + 1) <= 0x1_0000_0000_0000_0000_0000_0000_0000_0000nat,
    decreases 32 - n,
{
    if n == 31 {
        reveal_with_fuel(pow16, 33);
    } else {
        lemma_pow16_bound(n + 1);
    }
}

proof fn lemma_hex_value_bound(c: char)
    requires
        text::is_hex_digit(c),
    ensures
        hex_value(c) < 16,
{
}

fn hex_digit_value(c: char) -> (v: u128)
    requires
        text::is_hex_digit(c),
    ensures
        v == hex_value(c),
{
    if '0' <= c && c <= '9' {
        ((c as u8) - 48) as u128
    } else if 'a' <= c && c <= 'f' {
        ((c as u8) - 87) as u128
    } else {
        ((c as u8) - 55) as u128
    }
}

fn hex_string(value: u128, n: u32) -> (s: String)
    ensures
        s@ == hex_digits(value as nat, n as nat),
    decreases n,
{
    if n == 0 {
        String::new()
    } else {
        let mut s = hex_string(value / 16, n - 1);
        let d = (value % 16) as u8;
        let c = if d < 10 {
            (48 + d) as char
        } else {
            (97 + (d - 10)) as char
        };
        s.push(c);
        s
    }
}

proof fn lemma_hex_digits_round_trip(value: nat, n: nat)
    requires
        value < pow16(n),
    ensures
        hex_digits(value, n).len() == n,
        forall|i: int| 0 <= i < n ==> text::is_hex_digit(#[trigger] hex_digits(value, n)[i]),
        hex_number(hex_digits(value, n)) == value,
    decreases n,
{
    if n > 0 {
        let high = value / 16;
        assert(high < pow16((n - 1) as nat));
        lemma_hex_digits_round_trip(high, (n - 1) as nat);
        let s = hex_digits(value, n);
        assert(s.drop_last() =~= hex_digits(high, (n - 1) as nat));
        assert(hex_value(hex_char(value % 16)) == value % 16);
    }
}

/// Reading back the hexadecimal form of an identifier gives the identifier.
pub proof fn context_hex_round_trip(c: Context)
    ensures
        text::is_hex_id(c.hex()),
        hex_number(c.hex()) == c.value,
{
    lemma_pow16_bound(31);
    reveal_with_fuel(pow16, 33);
    lemma_hex_digits_round_trip(c.value as nat, 32);
}

/// Two repositories never share the name under which the authorization service knows them.
pub proof fn resource_names_are_distinct(a: RepositoryId, b: RepositoryId)
    ensures
        a.resource() == b.resource() ==> a == b,
{
    context_hex_round_trip(a.context);
    context_hex_round_trip(b.context);
    if a.resource() == b.resource() {
        let n = "urc-"@.len() as int;
        assert(a.resource().skip(n) =~= a.hex());
        assert(b.resource().skip(n) =~= b.hex());
    }
}

proof fn lemma_digit_at(value: nat, n: nat, i: int)
    requires
        0 <= i < n,
    ensures
        hex_digits(value, n).len() == n,
        hex_digits(value, n)[i] == hex_char(
            ((value as int / pow(16, (n - 1 - i) as nat)) % 16) as nat,
        ),
    decreases n,
{
    lemma_hex_len(value, n);
    lemma_hex_len(value / 16, (n - 1) as nat);
    if i == n - 1 {
        lemma_pow0(16);
        assert(value as int / 1 == value) by (nonlinear_arith);
    } else {
        let k = (n - 2 - i) as nat;
        lemma_digit_at(value / 16, (n - 1) as nat, i);
        lemma_pow_positive(16, k);
        lemma_div_denominator(value as int, 16, pow(16, k));
        reveal(pow);
    }
}

proof fn lemma_hex_len(value: nat, n: nat)
    ensures
        hex_digits(value, n).len() == n,
    decreases n,
{
    if n > 0 {
        lemma_hex_len(value / 16, (n - 1) as nat);
    }
}

/// The hexadecimal form of an identifier has 32 digits, the highest first, each counting 16 times as
/// much as the next: `0` to `9` and then `a` to `f`.
pub proof fn hex_writes_every_digit(c: Context, i: int)
    requires
        0 <= i < 32,
    ensures
        c.hex().len() == 32,
        ({
            let digit = (c.value as int / pow(16, (31 - i) as nat)) % 16;
            c.hex()[i] as u32 == if digit < 10 {
                48 + digit
            } else {
                87 + digit
            }
        }),
{
    lemma_digit_at(c.value as nat, 32, i);
}

proof fn lemma_hex_of_number(s: Seq<char>)
    requires
        forall|i: int| 0 <= i < s.len() ==> text::is_hex_digit(#[trigger] s[i]),
    ensures
        hex_digits(hex_number(s), s.len()) == text::lower(s),
    decreases s.len(),
{
    if s.len() > 0 {
        let less = s.drop_last();
        assert forall|i: int| 0 <= i < less.len() implies text::is_hex_digit(#[trigger] less[i]) by {
            assert(less[i] == s[i]);
        }
        lemma_hex_of_number(less);
        let last = s.last();
        assert(text::is_hex_digit(s[s.len() - 1]));
        lemma_hex_value_bound(last);
        assert(hex_number(s) / 16 == hex_number(less));
        assert(hex_number(s) % 16 == hex_value(last));
        assert(hex_char(hex_value(last)) == text::lower_char(last));
        assert(text::lower(s) =~= text::lower(less).push(text::lower_char(last)));
    } else {
        assert(text::lower(s) =~= Seq::<char>::empty());
    }
}

/// An identifier that is read from 32 hexadecimal digits, small or capital, is written with the same
/// digits, all small.
pub proof fn read_identifier_is_written_alike(s: Seq<char>, c: Context)
    requires
        text::is_hex_id(s),
        c.value == hex_number(s),
    ensures
        c.hex() == text::lower(s),
{
    lemma_hex_of_number(s);
}

/// The name under which the authorization service knows a repository is `urc-` and the hexadecimal
/// form of its identifier.
pub proof fn resource_name_is_the_identifier(id: RepositoryId)
    ensures
        id.resource().len() == 36,
        id.resource().take(4) == seq!['u', 'r', 'c', '-'],
        id.resource().skip(4) == id.context.hex(),
        id.hex() == id.context.hex(),
{
    reveal_strlit("urc-");
    hex_writes_every_digit(id.context, 0);
    assert(id.resource().take(4) =~= seq!['u', 'r', 'c', '-']);
    assert(id.resource().skip(4) =~= id.context.hex());
}

} // verus!
