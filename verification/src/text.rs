use crate::model::ID;
use vstd::prelude::*;
use vstd::string::*;

verus! {

/// The character that writes the digit `d`.
pub open spec fn digit_char(d: nat) -> char {
    if d == 0 {
        '0'
    } else if d == 1 {
        '1'
    } else if d == 2 {
        '2'
    } else if d == 3 {
        '3'
    } else if d == 4 {
        '4'
    } else if d == 5 {
        '5'
    } else if d == 6 {
        '6'
    } else if d == 7 {
        '7'
    } else if d == 8 {
        '8'
    } else {
        '9'
    }
}

/// The decimal digits of a number, the highest first and without leading
/// zeros.
pub open spec fn decimal(n: nat) -> Seq<char>
    decreases n,
{
    if n < 10 {
        seq![digit_char(n)]
    } else {
        decimal(n / 10).push(digit_char(n % 10))
    }
}

/// The text of one digit.
fn digit_text(d: usize) -> (r: &'static str)
    requires
        d < 10,
    ensures
        r@ == seq![digit_char(d as nat)],
{
    proof {
        reveal_strlit("0");
        reveal_strlit("1");
        reveal_strlit("2");
        reveal_strlit("3");
        reveal_strlit("4");
        reveal_strlit("5");
        reveal_strlit("6");
        reveal_strlit("7");
        reveal_strlit("8");
        reveal_strlit("9");
    }
    let r = if d == 0 {
        "0"
    } else if d == 1 {
        "1"
    } else if d == 2 {
        "2"
    } else if d == 3 {
        "3"
    } else if d == 4 {
        "4"
    } else if d == 5 {
        "5"
    } else if d == 6 {
        "6"
    } else if d == 7 {
        "7"
    } else if d == 8 {
        "8"
    } else {
        "9"
    };
    assert(r@ =~= seq![digit_char(d as nat)]);
    r
}

/// A number in decimal digits.
pub fn count_text(n: usize) -> (r: String)
    ensures
        r@ == decimal(n as nat),
    decreases n,
{
    if n < 10 {
        String::from_str(digit_text(n))
    } else {
        let head = count_text(n / 10);
        let r = head.concat(digit_text(n % 10));
        assert(r@ =~= decimal((n / 10) as nat).push(digit_char((n % 10) as nat)));
        r
    }
}

/// A text without the white space at its two ends, as `str::trim` of std
/// leaves it.
pub uninterp spec fn trimmed(s: Seq<char>) -> Seq<char>;

/// Calls `str::trim` of std, which returns the text without leading and
/// trailing white space; the contract gives that text its name and claims
/// nothing more of it.
#[verifier::external_body]
pub(crate) fn trim_text(s: &str) -> (r: String)
    ensures
        r@ == trimmed(s@),
{
    s.trim().to_string()
}

/// The text of an identifier: its number in decimal digits.
pub fn id_text(id: ID) -> (r: String)
    ensures
        r@ == decimal(id.0 as nat),
{
    count_text(id.0 as usize)
}

/// True when both hold the same text.
pub fn same_text(a: &str, b: &str) -> (r: bool)
    ensures
        r == (a@ == b@),
{
    let x = a.to_owned();
    let y = b.to_owned();
    x == y
}


/// A text in lower case, as `str::to_lowercase` of std writes it.
pub uninterp spec fn lowercased(s: Seq<char>) -> Seq<char>;

/// Calls `str::to_lowercase` of std, which returns the text in lower case;
/// the contract gives that text its name and claims nothing more of it.
#[verifier::external_body]
pub(crate) fn lowercase_text(s: &str) -> (r: String)
    ensures
        r@ == lowercased(s@),
{
    s.to_lowercase()
}

/// The digit that a character writes, if it writes one.
pub open spec fn digit_value(c: char) -> Option<nat> {
    if c == '0' {
        Some(0)
    } else if c == '1' {
        Some(1)
    } else if c == '2' {
        Some(2)
    } else if c == '3' {
        Some(3)
    } else if c == '4' {
        Some(4)
    } else if c == '5' {
        Some(5)
    } else if c == '6' {
        Some(6)
    } else if c == '7' {
        Some(7)
    } else if c == '8' {
        Some(8)
    } else if c == '9' {
        Some(9)
    } else {
        None
    }
}

/// The number that a row of digits writes, if all of them are digits; the
/// empty row writes zero.
pub open spec fn digits_value(s: Seq<char>) -> Option<nat>
    decreases s.len(),
{
    if s.len() == 0 {
        Some(0)
    } else {
        match (digits_value(s.drop_last()), digit_value(s.last())) {
            (Some(high), Some(d)) => Some(high * 10 + d),
            _ => None,
        }
    }
}

/// The text without a plus sign at its head.
pub open spec fn unsigned_part(s: Seq<char>) -> Seq<char> {
    if s.len() > 0 && s[0] == '+' {
        s.skip(1)
    } else {
        s
    }
}

/// The number that a text stands for: decimal digits, at least one, with a
/// plus sign before them or not, that write a number of sixteen bits; and
/// `None` for any other text.
pub open spec fn parsed_u16(s: Seq<char>) -> Option<u16> {
    if unsigned_part(s).len() == 0 {
        None
    } else {
        match digits_value(unsigned_part(s)) {
            Some(v) => if v <= u16::MAX {
                Some(v as u16)
            } else {
                None
            },
            None => None,
        }
    }
}

/// A row of digits writes at least what its first digits write.
pub proof fn lemma_digits_grow(s: Seq<char>, k: int)
    requires
        0 <= k <= s.len(),
        digits_value(s) is Some,
    ensures
        digits_value(s.take(k)) is Some,
        digits_value(s.take(k)).unwrap() <= digits_value(s).unwrap(),
    decreases s.len() - k,
{
    if k == s.len() {
        assert(s.take(k) =~= s);
    } else {
        lemma_digits_grow(s, k + 1);
        assert(s.take(k + 1).drop_last() =~= s.take(k));
    }
}

/// The digit that a character writes.
pub fn digit_of(c: char) -> (r: Option<u32>)
    ensures
        match digit_value(c) {
            Some(d) => r == Some(d as u32),
            None => r is None,
        },
{
    if c == '0' {
        Some(0)
    } else if c == '1' {
        Some(1)
    } else if c == '2' {
        Some(2)
    } else if c == '3' {
        Some(3)
    } else if c == '4' {
        Some(4)
    } else if c == '5' {
        Some(5)
    } else if c == '6' {
        Some(6)
    } else if c == '7' {
        Some(7)
    } else if c == '8' {
        Some(8)
    } else if c == '9' {
        Some(9)
    } else {
        None
    }
}

/// The number that `s` stands for, if it stands for one of sixteen bits.
pub fn parse_u16(s: &str) -> (r: Option<u16>)
    ensures
        r == parsed_u16(s@),
{
    let n = s.unicode_len();
    let start: usize = if n > 0 && s.get_char(0) == '+' {
        1
    } else {
        0
    };
    if start == n {
        return None;
    }
    let ghost body = unsigned_part(s@);
    assert(body =~= s@.skip(start as int));
    let mut value: u32 = 0;
    let mut i: usize = start;
    assert(body.take(0) =~= Seq::<char>::empty());
    while i < n
        invariant
            start <= i <= n,
            n == s@.len(),
            body == s@.skip(start as int),
            body == unsigned_part(s@),
            body.len() > 0,
            digits_value(body.take(i - start)) == Some(value as nat),
            value <= u16::MAX,
        decreases n - i,
    {
        let c = s.get_char(i);
        proof {
            assert(body.take(i - start + 1).drop_last() =~= body.take(i - start));
            assert(body.take(i - start + 1).last() == c);
        }
        match digit_of(c) {
            Some(d) => {
                value = value * 10 + d;
                assert(digits_value(body.take(i - start + 1)) == Some(value as nat));
                if value > 65535 {
                    proof {
                        if digits_value(body) is Some {
                            lemma_digits_grow(body, i - start + 1);
                        }
                    }
                    return None;
                }
            },
            None => {
                proof {
                    assert(digits_value(body.take(i - start + 1)) is None);
                    if digits_value(body) is Some {
                        lemma_digits_grow(body, i - start + 1);
                    }
                }
                return None;
            },
        }
        i += 1;
    }
    assert(body.take(n - start) =~= body);
    Some(value as u16)
}

/// The decimal digits of a number write that number.
pub proof fn lemma_decimal_writes(n: nat)
    ensures
        digits_value(decimal(n)) == Some(n),
        decimal(n).len() > 0,
        decimal(n)[0] != '+',
    decreases n,
{
    if n < 10 {
        assert(decimal(n).drop_last() =~= Seq::<char>::empty());
        assert(digits_value(decimal(n).drop_last()) == Some(0nat));
    } else {
        lemma_decimal_writes(n / 10);
        assert(decimal(n).drop_last() =~= decimal(n / 10));
        assert(decimal(n).last() == digit_char(n % 10));
        assert(decimal(n)[0] == decimal(n / 10)[0]);
    }
}

/// The decimal digits of a number of sixteen bits are read back as that
/// number.
pub proof fn decimal_round_trip(n: u16)
    ensures
        parsed_u16(decimal(n as nat)) == Some(n),
{
    lemma_decimal_writes(n as nat);
}

/// The words of a text, as `str::split_whitespace` of std hands them out:
/// what stands between stretches of white space, none of them empty.
pub uninterp spec fn words(s: Seq<char>) -> Seq<Seq<char>>;

/// Calls `str::split_whitespace` of std and collects the words; the
/// contract gives them their name and claims nothing more of them.
#[verifier::external_body]
pub(crate) fn split_words(s: &str) -> (r: Vec<String>)
    ensures
        crate::model::views_of(r@) == words(s@),
{
    s.split_whitespace().map(String::from).collect()
}

/// The place of the first `sep` in `s`, or the length of `s` if there is
/// none.
pub open spec fn first_at(s: Seq<char>, sep: char) -> int
    decreases s.len(),
{
    if s.len() == 0 || s[0] == sep {
        0
    } else {
        1 + first_at(s.drop_first(), sep)
    }
}

/// The first `sep` stands where `first_at` says, and none before it.
pub proof fn lemma_first_at(s: Seq<char>, sep: char)
    ensures
        0 <= first_at(s, sep) <= s.len(),
        first_at(s, sep) < s.len() ==> s[first_at(s, sep)] == sep,
        forall|k: int| 0 <= k < first_at(s, sep) ==> s[k] != sep,
        first_at(s, sep) == s.len() <==> !s.contains(sep),
    decreases s.len(),
{
    if s.len() == 0 || s[0] == sep {
        if s.len() > 0 {
            assert(s.contains(sep));
        }
    } else {
        let rest = s.drop_first();
        lemma_first_at(rest, sep);
        assert forall|k: int| 0 <= k < first_at(s, sep) implies s[k] != sep by {
            if k > 0 {
                assert(rest[k - 1] == s[k]);
            }
        }
        if first_at(s, sep) < s.len() {
            assert(rest[first_at(rest, sep)] == s[first_at(s, sep)]);
            assert(s.contains(sep));
        } else {
            if s.contains(sep) {
                let i = s.index_of(sep);
                assert(rest[i - 1] == sep);
                assert(rest.contains(sep));
            }
        }
    }
}

/// The text before the first `sep` and the text after it, or `None` where
/// the text holds no `sep`.
pub fn split_once_at(value: &str, sep: char) -> (r: Option<(String, String)>)
    ensures
        r is Some <==> value@.contains(sep),
        r matches Some((a, b)) ==> a@ == value@.take(first_at(value@, sep)) && b@ == value@.skip(
            first_at(value@, sep) + 1,
        ),
{
    let n = value.unicode_len();
    let mut i: usize = 0;
    proof {
        lemma_first_at(value@, sep);
    }
    while i < n
        invariant
            i <= n,
            n == value@.len(),
            forall|k: int| 0 <= k < i ==> value@[k] != sep,
        decreases n - i,
    {
        if value.get_char(i) == sep {
            proof {
                lemma_first_at(value@, sep);
                assert(value@.contains(sep));
                if first_at(value@, sep) > i {
                    assert(value@[i as int] != sep);
                }
            }
            let a = value.substring_char(0, i).to_owned();
            let b = value.substring_char(i + 1, n).to_owned();
            assert(a@ =~= value@.take(i as int));
            assert(b@ =~= value@.skip(i as int + 1));
            return Some((a, b));
        }
        i += 1;
    }
    proof {
        if value@.contains(sep) {
            let k = value@.index_of(sep);
            assert(value@[k] == sep);
        }
    }
    None
}

/// The stretches of `s` between its `sep`s, in order; a text without `sep`
/// is one stretch.
pub open spec fn fields(s: Seq<char>, sep: char) -> Seq<Seq<char>>
    decreases s.len(),
{
    if first_at(s, sep) < 0 || first_at(s, sep) >= s.len() {
        seq![s]
    } else {
        seq![s.take(first_at(s, sep))] + fields(s.skip(first_at(s, sep) + 1), sep)
    }
}

/// The stretches of `value` between its `sep`s, in order.
pub fn split_fields(value: &str, sep: char) -> (r: Vec<String>)
    ensures
        crate::model::views_of(r@) == fields(value@, sep),
{
    let mut out: Vec<String> = Vec::new();
    let mut rest: String = value.to_owned();
    let ghost mut done: Seq<Seq<char>> = Seq::empty();
    loop
        invariant
            done == crate::model::views_of(out@),
            done + fields(rest@, sep) == fields(value@, sep),
        decreases rest@.len(),
    {
        proof {
            lemma_first_at(rest@, sep);
        }
        match split_once_at(rest.as_str(), sep) {
            Some((a, b)) => {
                proof {
                    assert(done.push(a@) + fields(b@, sep) =~= done + fields(rest@, sep));
                    done = done.push(a@);
                }
                out.push(a);
                assert(crate::model::views_of(out@) =~= done);
                rest = b;
            },
            None => {
                proof {
                    assert(done.push(rest@) =~= done + fields(rest@, sep));
                }
                out.push(rest);
                assert(crate::model::views_of(out@) =~= fields(value@, sep));
                return out;
            },
        }
    }
}

/// The texts `parts` one after the other, with `sep` between them.
pub open spec fn joined(parts: Seq<Seq<char>>, sep: Seq<char>) -> Seq<char>
    decreases parts.len(),
{
    if parts.len() == 0 {
        Seq::<char>::empty()
    } else if parts.len() == 1 {
        parts[0]
    } else {
        joined(parts.drop_last(), sep) + sep + parts.last()
    }
}

/// The texts `parts` one after the other, with `sep` between them.
pub fn join(parts: &Vec<String>, sep: &str) -> (r: String)
    ensures
        r@ == joined(crate::model::views_of(parts@), sep@),
{
    let mut out = String::new();
    let mut i: usize = 0;
    let ghost all = crate::model::views_of(parts@);
    while i < parts.len()
        invariant
            i <= parts@.len(),
            all == crate::model::views_of(parts@),
            out@ == joined(all.take(i as int), sep@),
        decreases parts@.len() - i,
    {
        proof {
            assert(all.take(i as int + 1).drop_last() =~= all.take(i as int));
            assert(all.take(i as int + 1).last() == all[i as int]);
        }
        if i > 0 {
            out.append(sep);
        }
        out.append(parts[i].as_str());
        proof {
            if i == 0 {
                assert(out@ =~= all[0]);
            }
        }
        i += 1;
    }
    assert(all.take(i as int) =~= all);
    out
}


/// The lines of a text, as `str::lines` of std hands them out: what stands
/// between line ends, without them.
pub uninterp spec fn lines_of(s: Seq<char>) -> Seq<Seq<char>>;

/// Calls `str::lines` of std and collects the lines; the contract gives
/// them their name and claims nothing more of them.
#[verifier::external_body]
pub(crate) fn split_lines(s: &str) -> (r: Vec<String>)
    ensures
        crate::model::views_of(r@) == lines_of(s@),
{
    s.lines().map(String::from).collect()
}

/// `n` blanks.
pub open spec fn blanks(n: nat) -> Seq<char> {
    Seq::new(n, |i: int| ' ')
}

/// A text of `n` blanks.
pub fn spaces(n: usize) -> (r: String)
    ensures
        r@ == blanks(n as nat),
{
    let mut out = String::new();
    let mut i: usize = 0;
    proof {
        reveal_strlit(" ");
    }
    while i < n
        invariant
            i <= n,
            out@ =~= blanks(i as nat),
            " "@ =~= seq![' '],
        decreases n - i,
    {
        out.append(" ");
        i += 1;
    }
    out
}

} // verus!
