//! Text fields of a report are written between double quotes: the two
//! delimiter characters are escaped by a backslash, and control characters
//! by a four-digit hexadecimal escape, so the document stays well formed
//! whatever an OS name or a source path holds.  This module renders and
//! parses that form and proves the two directions inverse.

use vstd::prelude::*;
use vstd::std_specs::iter::IteratorSpec;

verus! {

broadcast use vstd::string::axiom_spec_iter, vstd::string::next_postcondition;

pub open spec fn is_hex_digit(c: char) -> bool {
    (48 <= c as int && c as int <= 57) || (97 <= c as int && c as int <= 102)
}

pub open spec fn hex_digit_val(c: char) -> int {
    if c as int <= 57 {
        c as int - 48
    } else {
        c as int - 87
    }
}

/// The character for one hexadecimal digit, lower case.
pub open spec fn hex_digit_char(d: int) -> char {
    if d == 0 {
        '0'
    } else if d == 1 {
        '1'
    } else if d == 2 {
        '2'
    } else if d == 3 {
        '3'
    } else if d == 4 {
        '4'
    } else if d == 5 {
        '5'
    } else if d == 6 {
        '6'
    } else if d == 7 {
        '7'
    } else if d == 8 {
        '8'
    } else if d == 9 {
        '9'
    } else if d == 10 {
        'a'
    } else if d == 11 {
        'b'
    } else if d == 12 {
        'c'
    } else if d == 13 {
        'd'
    } else if d == 14 {
        'e'
    } else {
        'f'
    }
}

pub open spec fn is_control(c: char) -> bool {
    (c as u32) < 32
}

pub open spec fn needs_escape(c: char) -> bool {
    c == '"' || c == '\\' || is_control(c)
}

pub open spec fn escape_char(c: char) -> Seq<char> {
    if c == '"' || c == '\\' {
        seq!['\\', c]
    } else if is_control(c) {
        seq![
            '\\',
            'u',
            '0',
            '0',
            hex_digit_char(((c as u32) / 16) as int),
            hex_digit_char(((c as u32) % 16) as int),
        ]
    } else {
        seq![c]
    }
}

/// The escaped form of a text: every quote or backslash preceded by a
/// backslash, every control character as a hexadecimal escape, every other
/// character kept as it is.
pub open spec fn escape_text(s: Seq<char>) -> Seq<char>
    decreases s.len(),
{
    if s.len() == 0 {
        Seq::<char>::empty()
    } else {
        escape_char(s[0]) + escape_text(s.drop_first())
    }
}

pub proof fn lemma_escape_push(s: Seq<char>, c: char)
    ensures
        escape_text(s.push(c)) == escape_text(s) + escape_char(c),
    decreases s.len(),
{
    if s.len() == 0 {
        assert(s.push(c)[0] == c);
        assert(s.push(c).drop_first() =~= Seq::<char>::empty());
        assert(escape_text(s.push(c)) == escape_char(c) + escape_text(Seq::<char>::empty()));
        assert(escape_text(s.push(c)) =~= escape_text(s) + escape_char(c));
    } else {
        assert(s.push(c)[0] == s[0]);
        assert(s.push(c).drop_first() =~= s.drop_first().push(c));
        assert(escape_text(s.push(c)) == escape_char(s[0]) + escape_text(s.drop_first().push(c)));
        lemma_escape_push(s.drop_first(), c);
        assert(escape_text(s.push(c)) =~= escape_text(s) + escape_char(c));
    }
}

/// Turns a hexadecimal digit value into its character.
pub fn hex_to_char(d: u8) -> (c: char)
    requires
        d < 16,
    ensures
        c == hex_digit_char(d as int),
{
    if d == 0 {
        '0'
    } else if d == 1 {
        '1'
    } else if d == 2 {
        '2'
    } else if d == 3 {
        '3'
    } else if d == 4 {
        '4'
    } else if d == 5 {
        '5'
    } else if d == 6 {
        '6'
    } else if d == 7 {
        '7'
    } else if d == 8 {
        '8'
    } else if d == 9 {
        '9'
    } else if d == 10 {
        'a'
    } else if d == 11 {
        'b'
    } else if d == 12 {
        'c'
    } else if d == 13 {
        'd'
    } else if d == 14 {
        'e'
    } else {
        'f'
    }
}

/// Classifies a character as a hexadecimal digit and yields its value.
pub fn hex_digit(c: char) -> (r: Option<u8>)
    ensures
        match r {
            Some(v) => is_hex_digit(c) && v == hex_digit_val(c) && v < 16,
            None => !is_hex_digit(c),
        },
{
    let u = c as u32;
    if 48 <= u && u <= 57 {
        Some((u - 48) as u8)
    } else if 97 <= u && u <= 102 {
        Some((u - 87) as u8)
    } else {
        None
    }
}

/// Appends the escaped form of `s`.
pub fn push_escaped(out: &mut Vec<char>, s: &Vec<char>)
    ensures
        final(out)@ == old(out)@ + escape_text(s@),
{
    let ghost base = out@;
    let mut i: usize = 0;
    assert(s@.take(0) =~= Seq::<char>::empty());
    assert(out@ =~= base + escape_text(s@.take(0)));
    while i < s.len()
        invariant
            i <= s@.len(),
            out@ == base + escape_text(s@.take(i as int)),
        decreases s@.len() - i,
    {
        let c = s[i];
        if c == '"' || c == '\\' {
            out.push('\\');
            out.push(c);
        } else {
            let u = c as u32;
            if u < 32 {
                out.push('\\');
                out.push('u');
                out.push('0');
                out.push('0');
                out.push(hex_to_char((u / 16) as u8));
                out.push(hex_to_char((u % 16) as u8));
            } else {
                out.push(c);
            }
        }
        proof {
            assert(s@.take(i + 1) =~= s@.take(i as int).push(s@[i as int]));
            lemma_escape_push(s@.take(i as int), s@[i as int]);
            assert(out@ =~= base + escape_text(s@.take(i + 1)));
        }
        i = i + 1;
    }
    assert(s@.take(s@.len() as int) =~= s@);
}

/// Appends every character of a string slice.
pub fn push_str_chars(out: &mut Vec<char>, s: &str)
    ensures
        final(out)@ == old(out)@ + s@,
{
    let ghost base = out@;
    let mut it = s.chars();
    loop
        invariant
            it.obeys_prophetic_iter_laws(),
            base + s@ == out@ + it.remaining(),
            base.len() <= out@.len(),
        ensures
            out@ == base + s@,
        decreases base.len() + s@.len() - out@.len(),
    {
        let ghost prev = it;
        match it.next() {
            Some(c) => {
                out.push(c);
                assert(base + s@ =~= out@ + it.remaining());
            },
            None => {
                assert(out@ =~= base + s@);
                break ;
            },
        }
    }
}

/// The characters of a string slice as a vector.
pub fn str_chars(s: &str) -> (v: Vec<char>)
    ensures
        v@ == s@,
{
    let mut v: Vec<char> = Vec::new();
    push_str_chars(&mut v, s);
    v
}

/// An escaped text stands at `p` in `inp`, closed by an unescaped quote.
pub open spec fn str_framed(inp: Seq<char>, p: int, s: Seq<char>) -> bool {
    &&& 0 <= p
    &&& p + escape_text(s).len() + 1 <= inp.len()
    &&& inp.subrange(p, p + escape_text(s).len()) == escape_text(s)
    &&& inp[p + escape_text(s).len()] == '"'
}

/// Reads an escaped text up to its closing quote, undoing the escapes;
/// refuses a backslash before anything but a quote, a backslash or a
/// hexadecimal escape, and a text that the input ends inside of.
pub open spec fn spec_parse_string(inp: Seq<char>, p: int) -> Option<(Seq<char>, int)>
    decreases inp.len() - p,
{
    if p < 0 || p >= inp.len() {
        None
    } else if inp[p] == '"' {
        Some((Seq::<char>::empty(), p + 1))
    } else if inp[p] == '\\' {
        if p + 1 < inp.len() && (inp[p + 1] == '"' || inp[p + 1] == '\\') {
            match spec_parse_string(inp, p + 2) {
                Some((s, q)) => Some((seq![inp[p + 1]] + s, q)),
                None => None,
            }
        } else if p + 5 < inp.len() && inp[p + 1] == 'u' && inp[p + 2] == '0' && inp[p + 3] == '0'
            && is_hex_digit(inp[p + 4]) && is_hex_digit(inp[p + 5]) {
            match spec_parse_string(inp, p + 6) {
                Some(
                    (s, q),
                ) => Some(
                    (
                        seq![(((16 * hex_digit_val(inp[p + 4]) + hex_digit_val(inp[p + 5])) as u8) as char)]
                            + s,
                        q,
                    ),
                ),
                None => None,
            }
        } else {
            None
        }
    } else {
        match spec_parse_string(inp, p + 1) {
            Some((s, q)) => Some((seq![inp[p]] + s, q)),
            None => None,
        }
    }
}

/// Parsing a framed text yields exactly the text and stops right after the
/// closing quote.
pub proof fn lemma_parse_str_framed(inp: Seq<char>, p: int, s: Seq<char>)
    requires
        str_framed(inp, p, s),
    ensures
        spec_parse_string(inp, p) == Some((s, p + escape_text(s).len() + 1)),
    decreases s.len(),
{
    let e = escape_text(s);
    if s.len() == 0 {
        assert(inp[p] == '"');
    } else {
        let h = s[0];
        let t = s.drop_first();
        assert(e == escape_char(h) + escape_text(t));
        assert(s =~= seq![h] + t);
        if h == '"' || h == '\\' {
            assert(e[0] == '\\');
            assert(e[1] == h);
            assert(inp[p] == '\\');
            assert(inp[p + 1] == h);
            assert(str_framed(inp, p + 2, t)) by {
                assert forall|i: int| 0 <= i < escape_text(t).len() implies inp.subrange(
                    p + 2,
                    p + 2 + escape_text(t).len(),
                )[i] == escape_text(t)[i] by {
                    assert(e[i + 2] == inp.subrange(p, p + e.len())[i + 2]);
                }
                assert(inp.subrange(p + 2, p + 2 + escape_text(t).len()) =~= escape_text(t));
                assert(inp[p + 2 + escape_text(t).len()] == inp[p + e.len()]);
            }
            lemma_parse_str_framed(inp, p + 2, t);
        } else if is_control(h) {
            let u = h as u32;
            let hi = (u / 16) as int;
            let lo = (u % 16) as int;
            assert(u < 32);
            assert(0 <= hi < 16 && 0 <= lo < 16);
            assert(e[0] == '\\');
            assert(e[1] == 'u');
            assert(e[2] == '0');
            assert(e[3] == '0');
            assert(e[4] == hex_digit_char(hi));
            assert(e[5] == hex_digit_char(lo));
            assert(inp[p] == '\\');
            assert(inp[p + 1] == 'u');
            assert(inp[p + 2] == '0');
            assert(inp[p + 3] == '0');
            assert(inp[p + 4] == hex_digit_char(hi));
            assert(inp[p + 5] == hex_digit_char(lo));
            assert(is_hex_digit(hex_digit_char(hi)) && hex_digit_val(hex_digit_char(hi)) == hi);
            assert(is_hex_digit(hex_digit_char(lo)) && hex_digit_val(hex_digit_char(lo)) == lo);
            assert(16 * hi + lo == u as int) by {
                vstd::arithmetic::div_mod::lemma_fundamental_div_mod(u as int, 16);
            }
            assert(((16 * hi + lo) as u8) as char == h) by {
                vstd::utf8::char_u32_cast(h, h as u32);
                assert((16 * hi + lo) as u8 == u as u8);
                assert(((u as u8) as char) == (u as char));
            }
            assert(str_framed(inp, p + 6, t)) by {
                assert forall|i: int| 0 <= i < escape_text(t).len() implies inp.subrange(
                    p + 6,
                    p + 6 + escape_text(t).len(),
                )[i] == escape_text(t)[i] by {
                    assert(e[i + 6] == inp.subrange(p, p + e.len())[i + 6]);
                }
                assert(inp.subrange(p + 6, p + 6 + escape_text(t).len()) =~= escape_text(t));
                assert(inp[p + 6 + escape_text(t).len()] == inp[p + e.len()]);
            }
            lemma_parse_str_framed(inp, p + 6, t);
        } else {
            assert(e[0] == h);
            assert(inp[p] == h);
            assert(!needs_escape(h));
            assert(str_framed(inp, p + 1, t)) by {
                assert forall|i: int| 0 <= i < escape_text(t).len() implies inp.subrange(
                    p + 1,
                    p + 1 + escape_text(t).len(),
                )[i] == escape_text(t)[i] by {
                    assert(e[i + 1] == inp.subrange(p, p + e.len())[i + 1]);
                }
                assert(inp.subrange(p + 1, p + 1 + escape_text(t).len()) =~= escape_text(t));
                assert(inp[p + 1 + escape_text(t).len()] == inp[p + e.len()]);
            }
            lemma_parse_str_framed(inp, p + 1, t);
        }
    }
}

/// Exec twin of `spec_parse_string`.
pub fn parse_string_field(input: &Vec<char>, p: usize) -> (r: Option<(Vec<char>, usize)>)
    ensures
        match spec_parse_string(input@, p as int) {
            Some((s, q)) => r matches Some(x) && x.0@ == s && x.1 as int == q,
            None => r is None,
        },
    decreases input@.len() - p,
{
    if p >= input.len() {
        return None;
    }
    let c = input[p];
    if c == '"' {
        Some((Vec::new(), p + 1))
    } else if c == '\\' {
        if p + 1 < input.len() {
            let d = input[p + 1];
            if d == '"' || d == '\\' {
                match parse_string_field(input, p + 2) {
                    Some((v0, q)) => {
                        let ghost tail = v0@;
                        let mut v = v0;
                        v.insert(0, d);
                        assert(v@ =~= seq![d] + tail);
                        Some((v, q))
                    },
                    None => None,
                }
            } else if d == 'u' && input.len() - p > 5 {
                if input[p + 2] == '0' && input[p + 3] == '0' {
                    match (hex_digit(input[p + 4]), hex_digit(input[p + 5])) {
                        (Some(a), Some(b)) => {
                            match parse_string_field(input, p + 6) {
                                Some((v0, q)) => {
                                    let ghost tail = v0@;
                                    let decoded = (16 * a + b) as char;
                                    let mut v = v0;
                                    v.insert(0, decoded);
                                    assert(v@ =~= seq![decoded] + tail);
                                    Some((v, q))
                                },
                                None => None,
                            }
                        },
                        _ => None,
                    }
                } else {
                    None
                }
            } else {
                None
            }
        } else {
            None
        }
    } else {
        match parse_string_field(input, p + 1) {
            Some((v0, q)) => {
                let ghost tail = v0@;
                let mut v = v0;
                v.insert(0, c);
                assert(v@ =~= seq![c] + tail);
                Some((v, q))
            },
            None => None,
        }
    }
}

} // verus!
