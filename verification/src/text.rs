//! Small verified string utilities: comparison, joining and number formatting.
use vstd::prelude::*;
use vstd::string::*;
use vstd::utf8::*;

verus! {

/// Whether two string slices hold the same characters.
pub fn str_eq(a: &str, b: &str) -> (r: bool)
    ensures
        r == (a@ == b@),
{
    let x = a.as_bytes();
    let y = b.as_bytes();
    proof {
        encode_utf8_decode_utf8(a@);
        encode_utf8_decode_utf8(b@);
    }
    if x.len() != y.len() {
        return false;
    }
    let mut i: usize = 0;
    while i < x.len()
        invariant
            i <= x.len(),
            x.len() == y.len(),
            x@ == a.spec_bytes(),
            y@ == b.spec_bytes(),
            forall|j: int| 0 <= j < i ==> x@[j] == y@[j],
        decreases x.len() - i,
    {
        if x[i] != y[i] {
            return false;
        }
        i += 1;
    }
    assert(x@ =~= y@);
    true
}

/// Whether an optional name is present and equal to `name`.
pub fn opt_str_eq(a: &Option<String>, name: &str) -> (r: bool)
    ensures
        r == (a matches Some(s) && s@ == name@),
{
    match a {
        Some(s) => str_eq(s.as_str(), name),
        None => false,
    }
}

/// The characters of each string of a list.
pub open spec fn strings_view(strings: Seq<String>) -> Seq<Seq<char>> {
    strings.map_values(|s: String| s@)
}

/// The characters of `parts`, with `sep` between consecutive parts.
pub open spec fn spec_join(parts: Seq<Seq<char>>, sep: Seq<char>) -> Seq<char>
    decreases parts.len(),
{
    if parts.len() == 0 {
        Seq::empty()
    } else if parts.len() == 1 {
        parts[0]
    } else {
        spec_join(parts.drop_last(), sep) + sep + parts.last()
    }
}

/// Joins `parts` with `sep` between consecutive parts.
pub fn join(parts: &Vec<String>, sep: &str) -> (r: String)
    ensures
        r@ == spec_join(strings_view(parts@), sep@),
{
    let ghost views = strings_view(parts@);
    let mut out = String::new();
    let mut i: usize = 0;
    while i < parts.len()
        invariant
            i <= parts.len(),
            views == strings_view(parts@),
            out@ == spec_join(views.take(i as int), sep@),
        decreases parts.len() - i,
    {
        proof {
            let next = views.take(i as int + 1);
            assert(next.drop_last() =~= views.take(i as int));
            assert(next.last() == parts@[i as int]@);
        }
        if i > 0 {
            out.append(sep);
        }
        out.append(parts[i].as_str());
        assert(out@ =~= spec_join(views.take(i as int + 1), sep@));
        i += 1;
    }
    assert(views.take(parts.len() as int) =~= views);
    out
}

/// The character that writes the digit `d` (below 16) in lower-case hexadecimal.
pub open spec fn digit_char(d: nat) -> char {
    if d == 0 {
        '0'
    } else if d == 1 {
        '1'
    } else if d == 2 {
        '2'
    } else if d == 3 {
        '3'
    } else if d == 4 {
        '4'
    } else if d == 5 {
        '5'
    } else if d == 6 {
        '6'
    } else if d == 7 {
        '7'
    } else if d == 8 {
        '8'
    } else if d == 9 {
        '9'
    } else if d == 10 {
        'a'
    } else if d == 11 {
        'b'
    } else if d == 12 {
        'c'
    } else if d == 13 {
        'd'
    } else if d == 14 {
        'e'
    } else {
        'f'
    }
}

/// As [`digit_char`], with the letters in upper case.
pub open spec fn upper_digit_char(d: nat) -> char {
    if d == 10 {
        'A'
    } else if d == 11 {
        'B'
    } else if d == 12 {
        'C'
    } else if d == 13 {
        'D'
    } else if d == 14 {
        'E'
    } else if d >= 15 {
        'F'
    } else {
        digit_char(d)
    }
}

fn digit_str(d: u64) -> (r: &'static str)
    requires
        d < 16,
    ensures
        r@ == seq![digit_char(d as nat)],
{
    proof {
        reveal_strlit("0");
        reveal_strlit("1");
        reveal_strlit("2");
        reveal_strlit("3");
        reveal_strlit("4");
        reveal_strlit("5");
        reveal_strlit("6");
        reveal_strlit("7");
        reveal_strlit("8");
        reveal_strlit("9");
        reveal_strlit("a");
        reveal_strlit("b");
        reveal_strlit("c");
        reveal_strlit("d");
        reveal_strlit("e");
        reveal_strlit("f");
    }
    let r = if d == 0 {
        "0"
    } else if d == 1 {
        "1"
    } else if d == 2 {
        "2"
    } else if d == 3 {
        "3"
    } else if d == 4 {
        "4"
    } else if d == 5 {
        "5"
    } else if d == 6 {
        "6"
    } else if d == 7 {
        "7"
    } else if d == 8 {
        "8"
    } else if d == 9 {
        "9"
    } else if d == 10 {
        "a"
    } else if d == 11 {
        "b"
    } else if d == 12 {
        "c"
    } else if d == 13 {
        "d"
    } else if d == 14 {
        "e"
    } else {
        "f"
    };
    assert(r@ =~= seq![digit_char(d as nat)]);
    r
}

fn upper_digit_str(d: u64) -> (r: &'static str)
    requires
        d < 16,
    ensures
        r@ == seq![upper_digit_char(d as nat)],
{
    proof {
        reveal_strlit("A");
        reveal_strlit("B");
        reveal_strlit("C");
        reveal_strlit("D");
        reveal_strlit("E");
        reveal_strlit("F");
    }
    if d < 10 {
        digit_str(d)
    } else {
        let r = if d == 10 {
            "A"
        } else if d == 11 {
            "B"
        } else if d == 12 {
            "C"
        } else if d == 13 {
            "D"
        } else if d == 14 {
            "E"
        } else {
            "F"
        };
        assert(r@ =~= seq![upper_digit_char(d as nat)]);
        r
    }
}

/// The decimal digits of `n`, most significant first, without leading zeros.
pub open spec fn decimal(n: nat) -> Seq<char>
    decreases n,
{
    if n < 10 {
        seq![digit_char(n)]
    } else {
        decimal(n / 10).push(digit_char(n % 10))
    }
}

/// Writes `n` in decimal.
pub fn u64_to_decimal(n: u64) -> (r: String)
    ensures
        r@ == decimal(n as nat),
    decreases n,
{
    if n < 10 {
        String::from_str(digit_str(n))
    } else {
        let mut s = u64_to_decimal(n / 10);
        s.append(digit_str(n % 10));
        assert(s@ =~= decimal(n as nat));
        s
    }
}

/// The hexadecimal digits of `n`, most significant first, padded with zeros
/// on the left to at least `width` digits (and never fewer than one).
pub open spec fn hex(n: nat, width: nat, upper: bool) -> Seq<char>
    decreases n, width,
{
    let digit = if upper {
        upper_digit_char(n % 16)
    } else {
        digit_char(n % 16)
    };
    if n < 16 && width <= 1 {
        seq![digit]
    } else {
        hex(
            n / 16,
            if width == 0 {
                0
            } else {
                (width - 1) as nat
            },
            upper,
        ).push(digit)
    }
}

/// Writes `n` in hexadecimal, padded with zeros to at least `width` digits.
pub fn u64_to_hex(n: u64, width: usize, upper: bool) -> (r: String)
    ensures
        r@ == hex(n as nat, width as nat, upper),
    decreases n, width,
{
    let digit = if upper {
        upper_digit_str(n % 16)
    } else {
        digit_str(n % 16)
    };
    if n < 16 && width <= 1 {
        String::from_str(digit)
    } else {
        let rest_width: usize = if width == 0 {
            0
        } else {
            width - 1
        };
        let mut s = u64_to_hex(n / 16, rest_width, upper);
        s.append(digit);
        assert(s@ =~= hex(n as nat, width as nat, upper));
        s
    }
}

/// `n` spaces.
pub open spec fn blanks(n: nat) -> Seq<char> {
    Seq::new(n, |i: int| ' ')
}

/// Pads `buf` with spaces to at least `len` characters, and gives its
/// first `len` characters.
pub fn spaces(buf: &mut String, len: usize) -> (r: &str)
    ensures
        final(buf)@ == old(buf)@ + blanks(
            if old(buf)@.len() < len {
                (len - old(buf)@.len()) as nat
            } else {
                0
            },
        ),
        r@ == final(buf)@.take(len as int),
{
    let mut have = buf.as_str().unicode_len();
    let ghost start = buf@;
    let ghost first = have;
    assert(buf@ =~= start + blanks(0));
    while have < len
        invariant
            have == buf@.len(),
            first == start.len(),
            first <= have,
            first < len ==> have <= len,
            first >= len ==> have == first,
            start == old(buf)@,
            buf@ == start + blanks((have - first) as nat),
        decreases len - have,
    {
        proof {
            reveal_strlit(" ");
        }
        buf.append(" ");
        have += 1;
        assert(buf@ =~= start + blanks((have - first) as nat));
    }
    buf.as_str().substring_char(0, len)
}

} // verus!
