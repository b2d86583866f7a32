use vstd::prelude::*;

verus! {

/// The characters of a string slice, in order.
pub fn chars_of(s: &str) -> (v: Vec<char>)
    ensures
        v@ == s@,
{
    let mut v: Vec<char> = Vec::new();
    for c in it: s.chars()
        invariant
            v@ == it.seq().take(it.index() as int),
            it.seq() == s@,
    {
        v.push(c);
    }
    v
}

/// Why a string is not an unsigned integer in a given radix.
#[derive(Clone, Copy, Debug, PartialEq, Eq, Structural)]
pub enum IntErrorKind {
    /// The string is empty.
    Empty,
    /// A character is not a digit of the radix (a lone sign counts as one).
    InvalidDigit,
    /// The value does not fit in a `u32`.
    PosOverflow,
}

impl IntErrorKind {
    /// The sentence that describes the error.
    pub fn description(&self) -> (s: String)
        ensures
            s@ == self.spec_description(),
    {
        match self {
            IntErrorKind::Empty => String::from_str("cannot parse integer from empty string"),
            IntErrorKind::InvalidDigit => String::from_str("invalid digit found in string"),
            IntErrorKind::PosOverflow => String::from_str("number too large to fit in target type"),
        }
    }

    pub open spec fn spec_description(&self) -> Seq<char> {
        match self {
            IntErrorKind::Empty => "cannot parse integer from empty string"@,
            IntErrorKind::InvalidDigit => "invalid digit found in string"@,
            IntErrorKind::PosOverflow => "number too large to fit in target type"@,
        }
    }
}

/// The value of `c` as a digit in base `radix`: `0`-`9`, then `a`-`z` or
/// `A`-`Z` for ten and up; `None` where `c` is no digit of that base.
pub open spec fn digit_value(c: char, radix: u32) -> Option<u32> {
    let code = c as u32;
    let d: int = if 48 <= code <= 57 {
        code - 48
    } else if 97 <= code <= 122 {
        code - 97 + 10
    } else if 65 <= code <= 90 {
        code - 65 + 10
    } else {
        radix as int
    };
    if d < radix {
        Some(d as u32)
    } else {
        None
    }
}

/// Reads `digits` left to right onto the value `acc`: the first character
/// that is no digit gives `InvalidDigit`, the first step past `u32::MAX`
/// gives `PosOverflow`.
pub open spec fn accumulate_digits(digits: Seq<char>, radix: u32, acc: nat) -> Result<u32, IntErrorKind>
    decreases digits.len(),
{
    if digits.len() == 0 {
        Ok(acc as u32)
    } else {
        match digit_value(digits[0], radix) {
            None => Err(IntErrorKind::InvalidDigit),
            Some(d) => if acc * radix + d > u32::MAX {
                Err(IntErrorKind::PosOverflow)
            } else {
                accumulate_digits(digits.drop_first(), radix, (acc * radix + d) as nat)
            },
        }
    }
}

/// An unsigned integer in base `radix`: an optional `+` and then digits
/// only, with no blank or other character around them.
pub open spec fn spec_parse_u32_radix(s: Seq<char>, radix: u32) -> Result<u32, IntErrorKind> {
    if s.len() == 0 {
        Err(IntErrorKind::Empty)
    } else if s.len() == 1 && (s[0] == '+' || s[0] == '-') {
        Err(IntErrorKind::InvalidDigit)
    } else if s[0] == '+' {
        accumulate_digits(s.drop_first(), radix, 0)
    } else {
        accumulate_digits(s, radix, 0)
    }
}

/// The digit value of `c` in base `radix`.
pub fn digit_of(c: char, radix: u32) -> (r: Option<u32>)
    requires
        2 <= radix <= 36,
    ensures
        r == digit_value(c, radix),
{
    let code = c as u32;
    let d: u32 = if 48 <= code && code <= 57 {
        code - 48
    } else if 97 <= code && code <= 122 {
        code - 97 + 10
    } else if 65 <= code && code <= 90 {
        code - 65 + 10
    } else {
        radix
    };
    if d < radix {
        Some(d)
    } else {
        None
    }
}

/// Parses an unsigned 32-bit integer in base `radix`, as `u32::from_str_radix`
/// does: an optional `+` followed by digits, nothing else.
pub fn parse_u32_radix(s: &str, radix: u32) -> (r: Result<u32, IntErrorKind>)
    requires
        2 <= radix <= 36,
    ensures
        r == spec_parse_u32_radix(s@, radix),
{
    let cs = chars_of(s);
    parse_u32_radix_chars(&cs, radix)
}

/// [`parse_u32_radix`] on a sequence of characters.
pub fn parse_u32_radix_chars(cs: &Vec<char>, radix: u32) -> (r: Result<u32, IntErrorKind>)
    requires
        2 <= radix <= 36,
    ensures
        r == spec_parse_u32_radix(cs@, radix),
{
    let n = cs.len();
    if n == 0 {
        return Err(IntErrorKind::Empty);
    }
    if n == 1 && (cs[0] == '+' || cs[0] == '-') {
        return Err(IntErrorKind::InvalidDigit);
    }
    let start: usize = if cs[0] == '+' { 1 } else { 0 };
    let ghost ds = cs@.skip(start as int);
    assert(start == 1 ==> ds == cs@.drop_first());
    assert(start == 0 ==> ds == cs@);
    assert(spec_parse_u32_radix(cs@, radix) == accumulate_digits(ds, radix, 0));
    let mut acc: u32 = 0;
    let mut i: usize = start;
    while i < n
        invariant
            start <= i <= n,
            n == cs@.len(),
            2 <= radix <= 36,
            ds == cs@.skip(start as int),
            spec_parse_u32_radix(cs@, radix) == accumulate_digits(ds, radix, 0),
            accumulate_digits(ds, radix, 0) == accumulate_digits(cs@.skip(i as int), radix, acc as nat),
        decreases n - i,
    {
        let ghost rest = cs@.skip(i as int);
        assert(rest[0] == cs@[i as int]);
        assert(rest.drop_first() == cs@.skip(i + 1));
        match digit_of(cs[i], radix) {
            None => {
                return Err(IntErrorKind::InvalidDigit);
            },
            Some(d) => {
                assert((acc as u64) * (radix as u64) <= 0xffff_ffffu64 * 36) by (nonlinear_arith)
                    requires
                        acc <= 0xffff_ffffu32,
                        radix <= 36,
                ;
                let next: u64 = (acc as u64) * (radix as u64) + (d as u64);
                if next > 0xffff_ffffu64 {
                    return Err(IntErrorKind::PosOverflow);
                }
                acc = next as u32;
            },
        }
        i = i + 1;
    }
    assert(cs@.skip(n as int).len() == 0);
    Ok(acc)
}

/// The digit values, over the characters' code points: `0`-`9` are worth
/// `0`-`9`, `a`-`z` and `A`-`Z` are worth `10`-`35`, each a digit exactly
/// when its worth is below the radix; no other character is a digit.
pub proof fn lemma_digit_value(c: char, radix: u32)
    ensures
        48 <= (c as u32) <= 57 ==> digit_value(c, radix) == if (c as u32) - 48 < radix {
            Some(((c as u32) - 48) as u32)
        } else {
            None
        },
        97 <= (c as u32) <= 122 ==> digit_value(c, radix) == if (c as u32) - 87 < radix {
            Some(((c as u32) - 87) as u32)
        } else {
            None
        },
        65 <= (c as u32) <= 90 ==> digit_value(c, radix) == if (c as u32) - 55 < radix {
            Some(((c as u32) - 55) as u32)
        } else {
            None
        },
        !(48 <= (c as u32) <= 57) && !(97 <= (c as u32) <= 122) && !(65 <= (c as u32) <= 90) && radix <= 36
            ==> digit_value(c, radix) is None,
{
}

/// A single decimal digit, in any radix above its worth, parses to its worth.
pub proof fn lemma_parse_single_digit(c: char, radix: u32)
    requires
        48 <= (c as u32) <= 57,
        (c as u32) - 48 < radix,
    ensures
        spec_parse_u32_radix(seq![c], radix) == Ok::<u32, IntErrorKind>(((c as u32) - 48) as u32),
{
    let s = seq![c];
    assert(s.drop_first().len() == 0);
    assert(accumulate_digits(s.drop_first(), radix, ((c as u32) - 48) as nat) == Ok::<u32, IntErrorKind>(
        ((c as u32) - 48) as u32,
    ));
}

proof fn lemma_accumulate_push(ds: Seq<char>, c: char, radix: u32, acc: nat, v: u32, d: u32)
    requires
        acc <= u32::MAX,
        accumulate_digits(ds, radix, acc) == Ok::<u32, IntErrorKind>(v),
        digit_value(c, radix) == Some(d),
    ensures
        accumulate_digits(ds.push(c), radix, acc) == if v * radix + d <= u32::MAX {
            Ok::<u32, IntErrorKind>((v * radix + d) as u32)
        } else {
            Err(IntErrorKind::PosOverflow)
        },
    decreases ds.len(),
{
    let t = ds.push(c);
    if ds.len() == 0 {
        assert(v == acc);
        assert(t[0] == c);
        assert(t.drop_first().len() == 0);
        assert(v * radix == acc * radix);
        if acc * radix + d <= u32::MAX {
            assert(accumulate_digits(t.drop_first(), radix, (acc * radix + d) as nat) == Ok::<u32, IntErrorKind>(
                (acc * radix + d) as u32,
            ));
        }
    } else {
        assert(t[0] == ds[0]);
        assert(t.drop_first() == ds.drop_first().push(c));
        let d0 = digit_value(ds[0], radix).unwrap();
        lemma_accumulate_push(ds.drop_first(), c, radix, (acc * radix + d0) as nat, v, d);
    }
}

/// Appending a decimal digit worth `d` to a string that parses to `v` gives
/// `v * radix + d`, or `PosOverflow` where that passes `u32::MAX`.
pub proof fn lemma_parse_append_digit(s: Seq<char>, c: char, radix: u32, v: u32)
    requires
        spec_parse_u32_radix(s, radix) == Ok::<u32, IntErrorKind>(v),
        48 <= (c as u32) <= 57,
        (c as u32) - 48 < radix,
    ensures
        spec_parse_u32_radix(s.push(c), radix) == if v * radix + ((c as u32) - 48) <= u32::MAX {
            Ok::<u32, IntErrorKind>((v * radix + ((c as u32) - 48)) as u32)
        } else {
            Err(IntErrorKind::PosOverflow)
        },
{
    let d = ((c as u32) - 48) as u32;
    lemma_digit_value(c, radix);
    let t = s.push(c);
    assert(t[0] == s[0]);
    if s[0] == '+' {
        assert(t.drop_first() == s.drop_first().push(c));
        lemma_accumulate_push(s.drop_first(), c, radix, 0, v, d);
    } else {
        lemma_accumulate_push(s, c, radix, 0, v, d);
    }
}

} // verus!
