//! Comparing, cutting and composing text.
use vstd::prelude::*;
use vstd::string::*;
use vstd::utf8::*;

verus! {

/// Whether two byte strings hold the same bytes.
pub fn bytes_equal(a: &[u8], b: &[u8]) -> (r: bool)
    ensures
        r == (a@ == b@),
{
    if a.len() != b.len() {
        return false;
    }
    let n: usize = a.len();
    for i in 0..n
        invariant
            n == a@.len(),
            n == b@.len(),
            forall|j: int| 0 <= j < i ==> a@[j] == b@[j],
    {
        if a[i] != b[i] {
            return false;
        }
    }
    assert(a@ =~= b@);
    true
}

/// Whether two texts hold the same characters.
pub fn text_equal(a: &str, b: &str) -> (r: bool)
    ensures
        r == (a@ == b@),
{
    proof {
        encode_utf8_decode_utf8(a@);
        encode_utf8_decode_utf8(b@);
    }
    bytes_equal(a.as_bytes(), b.as_bytes())
}

/// Whether `text` begins with `prefix`.
pub fn begins_with(text: &str, prefix: &str) -> (r: bool)
    ensures
        r == prefix@.is_prefix_of(text@),
{
    let n: usize = prefix.unicode_len();
    if text.unicode_len() < n {
        return false;
    }
    let head: &str = text.substring_char(0, n);
    proof {
        assert(head@ =~= text@.subrange(0, n as int));
        if prefix@.is_prefix_of(text@) {
            assert(head@ =~= prefix@);
        }
    }
    text_equal(head, prefix)
}

/// The position of the first `wanted` in `text`, if it occurs.
pub fn find_char(text: &str, wanted: char) -> (r: Option<usize>)
    ensures
        match r {
            Some(i) => {
                &&& i < text@.len()
                &&& text@[i as int] == wanted
                &&& forall|j: int| 0 <= j < i ==> text@[j] != wanted
            },
            None => !text@.contains(wanted),
        },
{
    let n: usize = text.unicode_len();
    let mut i: usize = 0;
    for c in it: text.chars()
        invariant
            n == text@.len(),
            it.seq() == text@,
            i == it.index(),
            forall|j: int| 0 <= j < i ==> text@[j] != wanted,
    {
        if c == wanted {
            return Some(i);
        }
        i = i + 1;
    }
    None
}

/// `before`, `middle` and `after` in one text.
pub fn joined(before: &str, middle: &str, after: &str) -> (r: String)
    ensures
        r@ == before@ + middle@ + after@,
{
    before.to_owned().concat(middle).concat(after)
}

/// The decimal digits of a number, without leading zeros.
pub open spec fn decimal_digits(n: nat) -> Seq<char>
    decreases n,
{
    let last = ('0' as int + n % 10) as char;
    if n < 10 {
        seq![last]
    } else {
        decimal_digits(n / 10).push(last)
    }
}

/// One decimal digit as text.
fn digit(d: u64) -> (r: &'static str)
    requires
        d < 10,
    ensures
        r@ == seq![('0' as int + d) as char],
{
    proof {
        reveal_strlit("0");
        reveal_strlit("1");
        reveal_strlit("2");
        reveal_strlit("3");
        reveal_strlit("4");
        reveal_strlit("5");
        reveal_strlit("6");
        reveal_strlit("7");
        reveal_strlit("8");
        reveal_strlit("9");
    }
    let r: &'static str = if d == 0 {
        "0"
    } else if d == 1 {
        "1"
    } else if d == 2 {
        "2"
    } else if d == 3 {
        "3"
    } else if d == 4 {
        "4"
    } else if d == 5 {
        "5"
    } else if d == 6 {
        "6"
    } else if d == 7 {
        "7"
    } else if d == 8 {
        "8"
    } else {
        "9"
    };
    assert(r@ =~= seq![('0' as int + d) as char]);
    r
}

/// A number in decimal.
pub fn decimal(n: u64) -> (r: String)
    ensures
        r@ == decimal_digits(n as nat),
    decreases n,
{
    let last: &str = digit(n % 10);
    if n < 10 {
        last.to_owned()
    } else {
        let r: String = decimal(n / 10).concat(last);
        assert(r@ =~= decimal_digits((n / 10) as nat).push(last@[0]));
        r
    }
}

/// The digits of a number are decimal digits, do not begin with a zero unless there is but one, and
/// read as the number.
pub proof fn law_digits_read_as_the_number(n: nat)
    ensures
        decimal_digits(n).len() > 0,
        forall|i: int|
            0 <= i < decimal_digits(n).len() ==> '0' <= #[trigger] decimal_digits(n)[i] <= '9',
        decimal_digits(n).len() > 1 ==> decimal_digits(n)[0] != '0',
        decimal_digits(n).fold_left(0int, |value: int, c: char| value * 10 + (c as int - '0' as int))
            == n,
    decreases n,
{
    let value_of = |value: int, c: char| value * 10 + (c as int - '0' as int);
    let digits = decimal_digits(n);
    let last = ('0' as int + n % 10) as char;
    assert(last as int == '0' as int + n % 10);
    if n >= 10 {
        law_digits_read_as_the_number(n / 10);
        let before = decimal_digits(n / 10);
        assert(digits == before.push(last));
        assert(digits.drop_last() =~= before);
        assert(digits.fold_left(0int, value_of) == value_of(
            before.fold_left(0int, value_of),
            last,
        ));
        assert forall|i: int| 0 <= i < digits.len() implies '0' <= #[trigger] digits[i] <= '9' by {
            if i < before.len() {
                assert(digits[i] == before[i]);
            }
        }
        assert(digits[0] == before[0]);
        if before.len() == 1 {
            assert(before.drop_last() =~= Seq::empty());
            assert(before.fold_left(0int, value_of) == value_of(
                Seq::<char>::empty().fold_left(0int, value_of),
                before[0],
            ));
        }
    } else {
        assert(digits.drop_last() =~= Seq::empty());
        assert(digits.fold_left(0int, value_of) == value_of(
            Seq::<char>::empty().fold_left(0int, value_of),
            last,
        ));
    }
}

} // verus!
