//! What holds of the operations on texts, said of what goes in and what comes out.
use vstd::prelude::*;

use crate::text;

verus! {

/// Trimming takes exactly the run of the character at the end: it is what follows the result, and
/// the result does not end with it.
pub proof fn trimmed_end_is_the_run(s: Seq<char>, c: char)
    ensures
        ({
            let t = text::trim_end(s, c);
            &&& t.len() <= s.len()
            &&& t == s.take(t.len() as int)
            &&& forall|i: int| t.len() <= i < s.len() ==> s[i] == c
            &&& t.len() > 0 ==> t[t.len() - 1] != c
        }),
    decreases s.len(),
{
    if s.len() > 0 && s.last() == c {
        let less = s.drop_last();
        trimmed_end_is_the_run(less, c);
        let t = text::trim_end(s, c);
        assert(less.take(t.len() as int) =~= s.take(t.len() as int));
        assert forall|i: int| t.len() <= i < s.len() implies s[i] == c by {
            if i < less.len() {
                assert(less[i] == s[i]);
            }
        }
    } else {
        assert(s.take(s.len() as int) =~= s);
    }
}

proof fn lemma_trim_white_start(s: Seq<char>)
    ensures
        ({
            let t = text::trim_white_start(s);
            &&& t.len() <= s.len()
            &&& t == s.skip(s.len() - t.len())
            &&& forall|i: int| 0 <= i < s.len() - t.len() ==> #[trigger] text::is_white_space(s[i])
            &&& t.len() > 0 ==> !text::is_white_space(t[0])
        }),
    decreases s.len(),
{
    if s.len() > 0 && text::is_white_space(s[0]) {
        let less = s.drop_first();
        lemma_trim_white_start(less);
        let t = text::trim_white_start(s);
        assert(less.skip(less.len() - t.len()) =~= s.skip(s.len() - t.len()));
        assert forall|i: int| 0 <= i < s.len() - t.len() implies #[trigger] text::is_white_space(
            s[i],
        ) by {
            if i > 0 {
                assert(text::is_white_space(less[i - 1]));
            }
        }
    } else {
        assert(s.skip(0) =~= s);
    }
}

proof fn lemma_trim_white_end(s: Seq<char>)
    ensures
        ({
            let t = text::trim_white_end(s);
            &&& t.len() <= s.len()
            &&& t == s.take(t.len() as int)
            &&& forall|i: int| t.len() <= i < s.len() ==> #[trigger] text::is_white_space(s[i])
            &&& t.len() > 0 ==> !text::is_white_space(t[t.len() - 1])
        }),
    decreases s.len(),
{
    if s.len() > 0 && text::is_white_space(s.last()) {
        let less = s.drop_last();
        lemma_trim_white_end(less);
        let t = text::trim_white_end(s);
        assert(less.take(t.len() as int) =~= s.take(t.len() as int));
        assert forall|i: int| t.len() <= i < s.len() implies #[trigger] text::is_white_space(s[i]) by {
            if i < less.len() {
                assert(text::is_white_space(less[i]));
            }
        }
    } else {
        assert(s.take(s.len() as int) =~= s);
    }
}

/// Trimming white space takes it from both ends and nowhere else: the text is white space, the
/// result and white space, and the result neither begins nor ends with any.
pub proof fn trimmed_text_has_no_white_ends(s: Seq<char>)
    ensures
        exists|a: int, b: int|
            {
                &&& 0 <= a <= b <= s.len()
                &&& text::trim_white(s) == #[trigger] s.subrange(a, b)
                &&& forall|i: int| 0 <= i < a ==> #[trigger] text::is_white_space(s[i])
                &&& forall|i: int| b <= i < s.len() ==> #[trigger] text::is_white_space(s[i])
                &&& a < b ==> !text::is_white_space(s[a]) && !text::is_white_space(s[b - 1])
            },
{
    lemma_trim(s);
}

proof fn lemma_trim(s: Seq<char>) -> (ends: (int, int))
    ensures
        ({
            let (a, b) = ends;
            &&& 0 <= a <= b <= s.len()
            &&& text::trim_white(s) == s.subrange(a, b)
            &&& forall|i: int| 0 <= i < a ==> #[trigger] text::is_white_space(s[i])
            &&& forall|i: int| b <= i < s.len() ==> #[trigger] text::is_white_space(s[i])
            &&& a < b ==> !text::is_white_space(s[a]) && !text::is_white_space(s[b - 1])
        }),
{
    let start = text::trim_white_start(s);
    let end = text::trim_white_end(s);
    lemma_trim_white_start(s);
    lemma_trim_white_end(s);
    lemma_trim_white_end(start);
    lemma_trim_white_start(end);
    let t = text::trim_white(s);
    let a = if t == text::trim_white_end(start) {
        s.len() - start.len()
    } else {
        end.len() - t.len()
    };
    let b = a + t.len();
    assert(t =~= s.subrange(a, b));
    assert forall|i: int| b <= i < s.len() implies #[trigger] text::is_white_space(s[i]) by {
        if t == text::trim_white_end(start) {
            assert(text::is_white_space(start[i - a]));
        }
    }
    assert forall|i: int| 0 <= i < a implies #[trigger] text::is_white_space(s[i]) by {
        if t != text::trim_white_end(start) {
            assert(text::is_white_space(end[i]));
        }
    }
    if a < b {
        assert(t[0] == s[a]);
        assert(t[t.len() - 1] == s[b - 1]);
        if t == text::trim_white_end(start) {
            assert(t[0] == start[0]);
        } else {
            assert(t[t.len() - 1] == end[end.len() - 1]);
        }
    }
    (a, b)
}

/// Nothing is left of a text by trimming exactly where all of it is white space.
pub proof fn trimmed_text_is_empty_where_all_is_white(s: Seq<char>)
    ensures
        text::trim_white(s).len() > 0 <==> exists|i: int|
            0 <= i < s.len() && !#[trigger] text::is_white_space(s[i]),
{
    let (a, b) = lemma_trim(s);
    if text::trim_white(s).len() > 0 {
        assert(!text::is_white_space(s[a]));
    }
    if exists|i: int| 0 <= i < s.len() && !#[trigger] text::is_white_space(s[i]) {
        let i = choose|i: int| 0 <= i < s.len() && !#[trigger] text::is_white_space(s[i]);
        assert(a <= i < b);
    }
}

/// White space is what Unicode says it is: 25 characters.
pub proof fn white_space_is_that_of_unicode(c: char)
    ensures
        text::is_white_space(c) <==> {
            let n = c as u32;
            ||| 9 <= n <= 13
            ||| n == 32
            ||| n == 133
            ||| n == 160
            ||| n == 5760
            ||| 8192 <= n <= 8202
            ||| n == 8232
            ||| n == 8233
            ||| n == 8239
            ||| n == 8287
            ||| n == 12288
        },
{
}

/// Lower case changes the 26 capital letters of ASCII, each by the same amount, and nothing else.
pub proof fn lower_case_changes_capitals_only(s: Seq<char>)
    ensures
        text::lower(s).len() == s.len(),
        forall|i: int|
            0 <= i < s.len() ==> {
                let n = s[i] as u32;
                (#[trigger] text::lower(s)[i]) as u32 == (if 65 <= n <= 90 {
                    n + 32
                } else {
                    n as int
                })
            },
{
    assert forall|i: int| 0 <= i < s.len() implies {
        let n = s[i] as u32;
        (#[trigger] text::lower(s)[i]) as u32 == (if 65 <= n <= 90 {
            n + 32
        } else {
            n as int
        })
    } by {
        assert(text::lower(s)[i] == text::lower_char(s[i]));
    }
}

/// What stands before the first occurrence of a character: it holds none of them, and the next
/// character, if there is one, is it.
pub proof fn front_ends_at_the_first(s: Seq<char>, c: char)
    ensures
        ({
            let t = text::before_char(s, c);
            &&& t.len() <= s.len()
            &&& t == s.take(t.len() as int)
            &&& forall|i: int| 0 <= i < t.len() ==> s[i] != c
            &&& t.len() < s.len() ==> s[t.len() as int] == c
        }),
    decreases s.len(),
{
    if s.len() > 0 && s[0] != c {
        let less = s.drop_first();
        front_ends_at_the_first(less, c);
        let t = text::before_char(s, c);
        assert(t =~= s.take(t.len() as int)) by {
            assert forall|i: int| 0 <= i < t.len() implies t[i] == s[i] by {
                if i > 0 {
                    assert(t[i] == text::before_char(less, c)[i - 1]);
                    assert(less.take(t.len() - 1)[i - 1] == less[i - 1]);
                }
            }
        }
        assert forall|i: int| 0 <= i < t.len() implies s[i] != c by {
            if i > 0 {
                assert(less[i - 1] != c);
            }
        }
    }
}

/// A dot that no other follows is the last one.
pub proof fn last_dot_is_found(front: Seq<char>, back: Seq<char>)
    requires
        !back.contains('.'),
    ensures
        text::last_occurrence(front + seq!['.'] + back, "."@) == Some(front.len() as int),
{
    reveal_strlit(".");
    let whole = front + seq!['.'] + back;
    let at = front.len() as int;
    assert("."@ =~= seq!['.']);
    text::lemma_last_occurrence(whole, "."@);
    assert(whole.subrange(at, at + 1) =~= "."@);
    assert(text::occurs_at(whole, "."@, at));
    let found = text::last_occurrence(whole, "."@)->0;
    if found > at {
        assert(whole.subrange(found, found + 1)[0] == whole[found]);
        assert(whole[found] == back[found - at - 1]);
        assert(back.contains('.'));
    }
}

/// An identifier in hexadecimal is 32 digits, with small or capital letters.
pub proof fn hex_id_is_32_digits(s: Seq<char>)
    ensures
        text::is_hex_id(s) <==> s.len() == 32 && forall|i: int|
            #![trigger s[i]]
            0 <= i < s.len() ==> '0' <= s[i] <= '9' || 'a' <= s[i] <= 'f' || 'A' <= s[i] <= 'F',
{
}

/// A text stands before another exactly where it is a proper beginning of it, or where the first
/// character in which they differ is the smaller one.
pub proof fn texts_are_ordered_by_their_first_difference(a: Seq<char>, b: Seq<char>)
    ensures
        text::text_before(a, b) <==> exists|n: int|
            {
                &&& 0 <= n <= a.len()
                &&& n < b.len()
                &&& a.take(n) == #[trigger] b.take(n)
                &&& n < a.len() ==> a[n] < b[n]
            },
    decreases a.len(),
{
    if a.len() > 0 && b.len() > 0 && a[0] == b[0] {
        let x = a.drop_first();
        let y = b.drop_first();
        texts_are_ordered_by_their_first_difference(x, y);
        if text::text_before(x, y) {
            let n = choose|n: int|
                {
                    &&& 0 <= n <= x.len()
                    &&& n < y.len()
                    &&& x.take(n) == #[trigger] y.take(n)
                    &&& n < x.len() ==> x[n] < y[n]
                };
            assert(a.take(n + 1) =~= seq![a[0]] + x.take(n));
            assert(b.take(n + 1) =~= seq![b[0]] + y.take(n));
            assert(a.take(n + 1) == b.take(n + 1));
        }
        if exists|n: int|
            {
                &&& 0 <= n <= a.len()
                &&& n < b.len()
                &&& a.take(n) == #[trigger] b.take(n)
                &&& n < a.len() ==> a[n] < b[n]
            } {
            let n = choose|n: int|
                {
                    &&& 0 <= n <= a.len()
                    &&& n < b.len()
                    &&& a.take(n) == #[trigger] b.take(n)
                    &&& n < a.len() ==> a[n] < b[n]
                };
            assert(n > 0);
            assert(x.take(n - 1) =~= a.take(n).drop_first());
            assert(y.take(n - 1) =~= b.take(n).drop_first());
            assert(x.take(n - 1) == y.take(n - 1));
        }
    } else {
        if text::text_before(a, b) {
            assert(a.take(0) =~= b.take(0));
        }
        if a.len() > 0 && b.len() > 0 {
            assert forall|n: int|
                0 < n <= a.len() && n < b.len() implies a.take(n) != #[trigger] b.take(n) by {
                assert(a.take(n)[0] == a[0]);
                assert(b.take(n)[0] == b[0]);
            }
        }
    }
}

/// The decimal form of a number is made of digits, does not begin with a needless zero, and writes
/// that number.
pub proof fn decimal_form_writes_the_number(n: nat)
    ensures
        ({
            let s = text::decimal(n);
            &&& s.len() > 0
            &&& forall|i: int| 0 <= i < s.len() ==> '0' <= #[trigger] s[i] <= '9'
            &&& s.len() > 1 ==> s[0] != '0'
            &&& value_of(s) == n
        }),
    decreases n,
{
    let s = text::decimal(n);
    if n >= 10 {
        decimal_form_writes_the_number(n / 10);
        let high = text::decimal(n / 10);
        assert(s.drop_last() =~= high);
        assert(s.last() as u32 == 48 + n % 10);
        assert forall|i: int| 0 <= i < s.len() implies '0' <= #[trigger] s[i] <= '9' by {
            if i < high.len() {
                assert(s[i] == high[i]);
            }
        }
        assert(s[0] == high[0]);
        if high.len() == 1 {
            assert(value_of(high.drop_last()) == 0);
            assert(value_of(high) == high[0] as u32 - 48);
        }
    } else {
        assert(s.drop_last() =~= Seq::<char>::empty());
        assert(value_of(s.drop_last()) == 0);
    }
}

/// The number that decimal digits write, each counting ten times as much as the next.
pub open spec fn value_of(digits: Seq<char>) -> int
    decreases digits.len(),
{
    if digits.len() == 0 {
        0
    } else {
        10 * value_of(digits.drop_last()) + (digits.last() as u32 - 48)
    }
}

/// Whether all of `digits` are decimal digits.
pub open spec fn are_digits(digits: Seq<char>) -> bool {
    forall|i: int| 0 <= i < digits.len() ==> '0' <= #[trigger] digits[i] <= '9'
}

/// A 32-bit number is read exactly from digits, with a plus sign before them or not, that write a
/// number which fits.
pub proof fn numbers_are_read_from_digits(digits: Seq<char>)
    ensures
        text::u32_value(seq!['+'] + digits) == (if digits.len() > 0 && are_digits(digits)
            && value_of(digits) <= 4_294_967_295 {
            Some(value_of(digits) as u32)
        } else {
            None
        }),
        digits.len() == 0 || digits[0] != '+' ==> text::u32_value(digits) == (if digits.len() > 0
            && are_digits(digits) && value_of(digits) <= 4_294_967_295 {
            Some(value_of(digits) as u32)
        } else {
            None
        }),
{
    assert((seq!['+'] + digits).drop_first() =~= digits);
    assert(text::all_digits(digits) == are_digits(digits));
    if are_digits(digits) {
        lemma_digits_value(digits);
    }
}

proof fn lemma_digit(c: char)
    requires
        '0' <= c <= '9',
    ensures
        (c as u8 - '0' as u8) as nat == c as u32 - 48,
{
}

proof fn lemma_digits_value(digits: Seq<char>)
    requires
        forall|i: int| 0 <= i < digits.len() ==> '0' <= #[trigger] digits[i] <= '9',
    ensures
        text::digits_value(digits) == value_of(digits),
    decreases digits.len(),
{
    if digits.len() > 0 {
        let less = digits.drop_last();
        assert forall|i: int| 0 <= i < less.len() implies '0' <= #[trigger] less[i] <= '9' by {
            assert(less[i] == digits[i]);
        }
        lemma_digits_value(less);
        assert('0' <= digits[digits.len() - 1] <= '9');
        lemma_digit(digits.last());
    }
}

/// Each occurrence of a character counts once.
pub proof fn occurrences_are_counted(s: Seq<char>, d: char, c: char)
    ensures
        text::count_char(Seq::empty(), c) == 0,
        text::count_char(s.push(d), c) == text::count_char(s, c) + (if d == c {
            1int
        } else {
            0
        }),
{
    assert(s.push(d).drop_last() =~= s);
}

} // verus!
